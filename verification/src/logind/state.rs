//! In-memory registry of sessions, seats and inhibitors behind the
//! `org.freedesktop.login1` shim.
//!
//! Sessions are kept in a vector whose ids are distinct (the daemon's own
//! invariant, [`AppState::wf`]); a lookup by id finds the one entry with it.
use vstd::prelude::*;
use crate::clock::{since_unix_epoch, system_now, usec_of_reading, usec_or_zero, valid_reading};
use crate::num::{dec_digits, parse_u32, parse_u32_vec, push_decimal};
use crate::text::{
    chars_of, extend_str, insert_sorted, insert_sorted_vec, join, join_vecs, lines, lines_vec,
    slice, split_char, split_char_vec, sorted_unique, starts_with, string_from, trim, trim_vec,
    vec_eq, vec_starts_with, views,
};

verus! {

/// One logged-in session (an `org.freedesktop.login1.Session`).
#[derive(Debug, Clone)]
pub struct SessionInfo {
    /// Stable identifier (e.g. "c1", "c2"). Used in object paths.
    pub id: String,
    /// User ID of the session owner.
    pub uid: u32,
    /// Username (resolved from /etc/passwd at CreateSession time).
    pub user_name: String,
    /// Seat the session is attached to. Always "seat0" for us.
    pub seat: String,
    /// Virtual terminal number, or 0 if not on a VT.
    pub vtnr: u32,
    /// $DISPLAY for X sessions, empty otherwise.
    pub display: String,
    /// True if this session is remote (e.g. ssh).
    pub remote: bool,
    /// PAM service name that created the session ("writeonce-login").
    pub service: String,
    /// Class: user | greeter | lock-screen | manager.
    pub class: String,
    /// Type: tty | x11 | wayland | unspecified.
    pub session_type: String,
    /// State: online | active | closing.
    pub state: String,
    /// Idle hint set by clients.
    pub idle_hint: bool,
    /// Timestamp of the last idle-hint change.
    pub idle_since: u64,
    /// PID of the session leader process.
    pub leader_pid: u32,
    /// Wall-clock time the session was created (µs since the epoch).
    pub timestamp_usec: u64,
}

/// The mathematical value of a [`SessionInfo`].
pub struct SessionModel {
    pub id: Seq<char>,
    pub uid: u32,
    pub user_name: Seq<char>,
    pub seat: Seq<char>,
    pub vtnr: u32,
    pub display: Seq<char>,
    pub remote: bool,
    pub service: Seq<char>,
    pub class: Seq<char>,
    pub session_type: Seq<char>,
    pub state: Seq<char>,
    pub idle_hint: bool,
    pub idle_since: u64,
    pub leader_pid: u32,
    pub timestamp_usec: u64,
}

impl View for SessionInfo {
    type V = SessionModel;

    open spec fn view(&self) -> SessionModel {
        SessionModel {
            id: self.id@,
            uid: self.uid,
            user_name: self.user_name@,
            seat: self.seat@,
            vtnr: self.vtnr,
            display: self.display@,
            remote: self.remote,
            service: self.service@,
            class: self.class@,
            session_type: self.session_type@,
            state: self.state@,
            idle_hint: self.idle_hint,
            idle_since: self.idle_since,
            leader_pid: self.leader_pid,
            timestamp_usec: self.timestamp_usec,
        }
    }
}

impl SessionInfo {
    /// A field-by-field copy.
    pub fn duplicate(&self) -> (r: SessionInfo)
        ensures
            r@ == self@,
    {
        SessionInfo {
            id: self.id.clone(),
            uid: self.uid,
            user_name: self.user_name.clone(),
            seat: self.seat.clone(),
            vtnr: self.vtnr,
            display: self.display.clone(),
            remote: self.remote,
            service: self.service.clone(),
            class: self.class.clone(),
            session_type: self.session_type.clone(),
            state: self.state.clone(),
            idle_hint: self.idle_hint,
            idle_since: self.idle_since,
            leader_pid: self.leader_pid,
            timestamp_usec: self.timestamp_usec,
        }
    }
}

/// One inhibitor handle.
#[derive(Debug, Clone)]
pub struct Inhibitor {
    pub id: u32,
    /// What is being inhibited: `:`-separated "shutdown", "sleep", "idle", …
    pub what: String,
    /// Caller-supplied identifier.
    pub who: String,
    /// Caller-supplied reason.
    pub why: String,
    /// Mode: "block" or "delay".
    pub mode: String,
    /// UID of the inhibitor's owner.
    pub uid: u32,
    /// PID of the inhibitor's owner.
    pub pid: u32,
}

/// The mathematical value of an [`Inhibitor`].
pub struct InhibitorModel {
    pub id: u32,
    pub what: Seq<char>,
    pub who: Seq<char>,
    pub why: Seq<char>,
    pub mode: Seq<char>,
    pub uid: u32,
    pub pid: u32,
}

impl View for Inhibitor {
    type V = InhibitorModel;

    open spec fn view(&self) -> InhibitorModel {
        InhibitorModel {
            id: self.id,
            what: self.what@,
            who: self.who@,
            why: self.why@,
            mode: self.mode@,
            uid: self.uid,
            pid: self.pid,
        }
    }
}

/// All state shared between the D-Bus interfaces.
///
/// The sessions are a list with distinct ids ([`ids_distinct`]) rather than
/// a `HashMap` keyed by the id string: vstd's `HashMap` specification holds
/// only for key types that obey its key model (`obeys_key_model`), which it
/// establishes for integers but not for `String`, so a map keyed by the id
/// would leave its contents unspecified. The list and its invariant give the
/// same one-entry-per-id registry with every operation specified.
#[derive(Debug)]
pub struct AppState {
    pub sessions: Vec<SessionInfo>,
    pub next_session_id: u64,
    pub next_inhibitor_id: u32,
    pub inhibitors: Vec<Inhibitor>,
    pub preparing_for_shutdown: bool,
    pub preparing_for_sleep: bool,
}

/// The models of a list of sessions.
pub open spec fn session_views(s: Seq<SessionInfo>) -> Seq<SessionModel> {
    s.map_values(|x: SessionInfo| x@)
}

/// The models of a list of inhibitors.
pub open spec fn inhibitor_views(s: Seq<Inhibitor>) -> Seq<InhibitorModel> {
    s.map_values(|x: Inhibitor| x@)
}

/// No two sessions share an id.
pub open spec fn ids_distinct(s: Seq<SessionModel>) -> bool {
    forall|i: int, j: int| 0 <= i < j < s.len() ==> s[i].id != s[j].id
}

/// Index of the session with id `id`.
pub open spec fn index_of_id(s: Seq<SessionModel>, id: Seq<char>) -> Option<int>
    decreases s.len(),
{
    if s.len() == 0 {
        None
    } else if s[0].id == id {
        Some(0)
    } else {
        match index_of_id(s.drop_first(), id) {
            Some(i) => Some(i + 1),
            None => None,
        }
    }
}

/// `s` with the session of `x`'s id replaced by `x`, or `x` appended when
/// there is none (what `HashMap::insert` does to the daemon's map).
pub open spec fn upsert(s: Seq<SessionModel>, x: SessionModel) -> Seq<SessionModel> {
    match index_of_id(s, x.id) {
        Some(i) => s.update(i, x),
        None => s.push(x),
    }
}

/// `s` without the session with id `id`.
pub open spec fn without_id(s: Seq<SessionModel>, id: Seq<char>) -> Seq<SessionModel> {
    match index_of_id(s, id) {
        Some(i) => s.remove(i),
        None => s,
    }
}

/// The id handed out for counter value `n`: `c1`, `c2`, …
pub open spec fn session_id_text(n: u64) -> Seq<char> {
    seq!['c'] + dec_digits(n as nat)
}

pub proof fn lemma_index_of_id(s: Seq<SessionModel>, id: Seq<char>)
    ensures
        match index_of_id(s, id) {
            Some(i) => 0 <= i < s.len() && s[i].id == id && forall|j: int|
                0 <= j < i ==> s[j].id != id,
            None => forall|j: int| 0 <= j < s.len() ==> s[j].id != id,
        },
    decreases s.len(),
{
    if s.len() > 0 {
        lemma_index_of_id(s.drop_first(), id);
        if s[0].id != id {
            match index_of_id(s.drop_first(), id) {
                Some(i) => {
                    assert forall|j: int| 0 <= j < i + 1 implies s[j].id != id by {
                        if j > 0 {
                            assert(s[j] == s.drop_first()[j - 1]);
                        }
                    }
                },
                None => {
                    assert forall|j: int| 0 <= j < s.len() implies s[j].id != id by {
                        if j > 0 {
                            assert(s[j] == s.drop_first()[j - 1]);
                        }
                    }
                },
            }
        }
    }
}

pub proof fn lemma_index_of_id_at(s: Seq<SessionModel>, id: Seq<char>, k: int)
    requires
        0 <= k <= s.len(),
        forall|j: int| 0 <= j < k ==> s[j].id != id,
        k < s.len() ==> s[k].id == id,
    ensures
        index_of_id(s, id) == (if k < s.len() { Some(k) } else { None::<int> }),
    decreases k,
{
    if k > 0 {
        lemma_index_of_id_at(s.drop_first(), id, k - 1);
    }
}

impl AppState {
    /// The sessions, as models.
    pub open spec fn session_models(&self) -> Seq<SessionModel> {
        session_views(self.sessions@)
    }

    /// The inhibitors, as models.
    pub open spec fn inhibitor_models(&self) -> Seq<InhibitorModel> {
        inhibitor_views(self.inhibitors@)
    }

    /// Well-formed: no two sessions share an id.
    pub open spec fn wf(&self) -> bool {
        ids_distinct(self.session_models())
    }

    /// An empty registry whose counters start at 1.
    pub fn new() -> (s: Self)
        ensures
            s.wf(),
            s.sessions@.len() == 0,
            s.inhibitors@.len() == 0,
            s.next_session_id == 1,
            s.next_inhibitor_id == 1,
            !s.preparing_for_shutdown,
            !s.preparing_for_sleep,
    {
        AppState {
            sessions: Vec::new(),
            next_session_id: 1,
            next_inhibitor_id: 1,
            inhibitors: Vec::new(),
            preparing_for_shutdown: false,
            preparing_for_sleep: false,
        }
    }

    /// A fresh session id, `c<n>` for the counter's value `n`; the counter
    /// moves on by one.
    pub fn allocate_session_id(&mut self) -> (id: String)
        requires
            old(self).next_session_id < u64::MAX,
        ensures
            id@ == session_id_text(old(self).next_session_id),
            final(self).next_session_id == old(self).next_session_id + 1,
            final(self).sessions == old(self).sessions,
            final(self).inhibitors == old(self).inhibitors,
            final(self).next_inhibitor_id == old(self).next_inhibitor_id,
            final(self).preparing_for_shutdown == old(self).preparing_for_shutdown,
            final(self).preparing_for_sleep == old(self).preparing_for_sleep,
    {
        let mut v: Vec<char> = Vec::new();
        v.push('c');
        push_decimal(&mut v, self.next_session_id);
        assert(v@ =~= session_id_text(self.next_session_id));
        self.next_session_id = self.next_session_id + 1;
        string_from(&v)
    }

    /// A fresh inhibitor id: the counter's value; the counter moves on by
    /// one.
    pub fn allocate_inhibitor_id(&mut self) -> (id: u32)
        requires
            old(self).next_inhibitor_id < u32::MAX,
        ensures
            id == old(self).next_inhibitor_id,
            final(self).next_inhibitor_id == old(self).next_inhibitor_id + 1,
            final(self).sessions == old(self).sessions,
            final(self).inhibitors == old(self).inhibitors,
            final(self).next_session_id == old(self).next_session_id,
            final(self).preparing_for_shutdown == old(self).preparing_for_shutdown,
            final(self).preparing_for_sleep == old(self).preparing_for_sleep,
    {
        let id = self.next_inhibitor_id;
        self.next_inhibitor_id = self.next_inhibitor_id + 1;
        id
    }

    /// Index of the session with id `id`.
    pub fn position_of(&self, id: &str) -> (r: Option<usize>)
        ensures
            match r {
                Some(i) => index_of_id(self.session_models(), id@) == Some(i as int) && i
                    < self.sessions@.len() && self.sessions@[i as int]@.id == id@,
                None => index_of_id(self.session_models(), id@) is None,
            },
    {
        let want = chars_of(id);
        let ghost ss = self.session_models();
        let mut i: usize = 0;
        while i < self.sessions.len()
            invariant
                i <= self.sessions.len(),
                ss == self.session_models(),
                want@ == id@,
                forall|j: int| 0 <= j < i ==> ss[j].id != id@,
            decreases self.sessions.len() - i,
        {
            let here = chars_of(self.sessions[i].id.as_str());
            if vec_eq(&here, &want) {
                proof {
                    assert(ss[i as int].id == id@);
                    lemma_index_of_id_at(ss, id@, i as int);
                }
                return Some(i);
            }
            i = i + 1;
        }
        proof {
            lemma_index_of_id_at(ss, id@, ss.len() as int);
        }
        None
    }

    /// Whether a session has id `id`.
    pub fn contains_session(&self, id: &str) -> (b: bool)
        ensures
            b == (index_of_id(self.session_models(), id@) is Some),
    {
        self.position_of(id).is_some()
    }

    /// The session with id `id`.
    pub fn get_session(&self, id: &str) -> (r: Option<&SessionInfo>)
        ensures
            match r {
                Some(s) => match index_of_id(self.session_models(), id@) {
                    Some(i) => s@ == self.session_models()[i],
                    None => false,
                },
                None => index_of_id(self.session_models(), id@) is None,
            },
    {
        match self.position_of(id) {
            Some(i) => Some(&self.sessions[i]),
            None => None,
        }
    }

    /// Stores `info` under its id, replacing a session with the same id.
    pub fn insert_session(&mut self, info: SessionInfo)
        requires
            old(self).wf(),
        ensures
            final(self).wf(),
            final(self).session_models() == upsert(old(self).session_models(), info@),
            final(self).inhibitors == old(self).inhibitors,
            final(self).next_session_id == old(self).next_session_id,
            final(self).next_inhibitor_id == old(self).next_inhibitor_id,
            final(self).preparing_for_shutdown == old(self).preparing_for_shutdown,
            final(self).preparing_for_sleep == old(self).preparing_for_sleep,
    {
        let ghost ss = self.session_models();
        let ghost x = info@;
        proof {
            lemma_index_of_id(ss, x.id);
        }
        match self.position_of(info.id.as_str()) {
            Some(i) => {
                self.sessions.set(i, info);
                assert(self.session_models() =~= ss.update(i as int, x));
            },
            None => {
                self.sessions.push(info);
                assert(self.session_models() =~= ss.push(x));
            },
        }
    }

    /// Removes the session with id `id`; whether there was one.
    pub fn remove_session(&mut self, id: &str) -> (removed: bool)
        requires
            old(self).wf(),
        ensures
            final(self).wf(),
            removed == (index_of_id(old(self).session_models(), id@) is Some),
            final(self).session_models() == without_id(old(self).session_models(), id@),
            final(self).inhibitors == old(self).inhibitors,
            final(self).next_session_id == old(self).next_session_id,
            final(self).next_inhibitor_id == old(self).next_inhibitor_id,
            final(self).preparing_for_shutdown == old(self).preparing_for_shutdown,
            final(self).preparing_for_sleep == old(self).preparing_for_sleep,
    {
        let ghost ss = self.session_models();
        match self.position_of(id) {
            Some(i) => {
                self.sessions.remove(i);
                assert(self.session_models() =~= ss.remove(i as int));
                assert(ids_distinct(self.session_models())) by {
                    let t = self.session_models();
                    assert forall|a: int, b: int| 0 <= a < b < t.len() implies t[a].id != t[b].id by {
                        let a2 = if a < i { a } else { a + 1 };
                        let b2 = if b < i { b } else { b + 1 };
                        assert(t[a] == ss[a2]);
                        assert(t[b] == ss[b2]);
                    }
                }
                true
            },
            None => false,
        }
    }
}

/// The D-Bus object path of a session.
pub open spec fn session_path_spec(id: Seq<char>) -> Seq<char> {
    "/org/freedesktop/login1/session/"@ + id
}

/// The D-Bus object path of a seat.
pub open spec fn seat_path_spec(seat: Seq<char>) -> Seq<char> {
    "/org/freedesktop/login1/seat/"@ + seat
}

/// The D-Bus object path of a user.
pub open spec fn user_path_spec(uid: u32) -> Seq<char> {
    "/org/freedesktop/login1/user/_"@ + dec_digits(uid as nat)
}

/// `/org/freedesktop/login1/session/<id>`.
pub fn session_object_path(session_id: &str) -> (p: String)
    ensures
        p@ == session_path_spec(session_id@),
{
    let mut v = chars_of("/org/freedesktop/login1/session/");
    extend_str(&mut v, session_id);
    string_from(&v)
}

/// `/org/freedesktop/login1/seat/<seat>`.
pub fn seat_object_path(seat_id: &str) -> (p: String)
    ensures
        p@ == seat_path_spec(seat_id@),
{
    let mut v = chars_of("/org/freedesktop/login1/seat/");
    extend_str(&mut v, seat_id);
    string_from(&v)
}

/// `/org/freedesktop/login1/user/_<uid>`.
pub fn user_object_path(uid: u32) -> (p: String)
    ensures
        p@ == user_path_spec(uid),
{
    let mut v = chars_of("/org/freedesktop/login1/user/_");
    push_decimal(&mut v, uid as u64);
    string_from(&v)
}

/// Wall-clock microseconds since the Unix epoch (0 before the epoch), as
/// [`usec_or_zero`] counts them. The clock decides the reading; the result is
/// its microseconds.
pub fn now_usec() -> (r: u64)
    ensures
        exists|d: Option<(u64, u32)>| valid_reading(d) && r == #[trigger] usec_of_reading(d),
{
    let d = since_unix_epoch(&system_now());
    let r = usec_or_zero(d);
    assert(valid_reading(d) && r == usec_of_reading(d));
    r
}

/// The owner name `/etc/passwd` (text `content`) gives for `uid`: the name
/// field of the first line whose uid field reads as `uid`, else the uid in
/// decimal.
pub open spec fn username_spec(content: Seq<char>, uid: u32) -> Seq<char> {
    username_in_lines(lines(content), uid)
}

/// The first field and the third field of a `:`-separated line.
pub open spec fn passwd_fields(line: Seq<char>) -> (Seq<char>, Seq<char>) {
    let f = split_char(line, ':');
    (f[0], if f.len() > 2 { f[2] } else { seq![] })
}

/// [`username_spec`] over a list of lines.
pub open spec fn username_in_lines(ls: Seq<Seq<char>>, uid: u32) -> Seq<char>
    decreases ls.len(),
{
    if ls.len() == 0 {
        dec_digits(uid as nat)
    } else if parse_u32(passwd_fields(ls[0]).1) == Some(uid) {
        passwd_fields(ls[0]).0
    } else {
        username_in_lines(ls.drop_first(), uid)
    }
}

/// Looks up a username in the text of `/etc/passwd`. Returns the UID's
/// decimal form when no line has it, so the daemon never fails on bad
/// input.
pub fn lookup_username_in(content: &str, uid: u32) -> (name: String)
    ensures
        name@ == username_spec(content@, uid),
{
    let v = chars_of(content);
    let ls = lines_vec(&v);
    let ghost all = views(ls@);
    let mut i: usize = 0;
    assert(all.skip(0) =~= all);
    while i < ls.len()
        invariant
            i <= ls.len(),
            all == views(ls@),
            all == lines(v@),
            v@ == content@,
            username_spec(content@, uid) == username_in_lines(all.skip(i as int), uid),
        decreases ls.len() - i,
    {
        assert(all.skip(i as int).drop_first() =~= all.skip(i + 1));
        assert(all.skip(i as int)[0] == ls@[i as int]@);
        let f = split_char_vec(&ls[i], ':');
        assert(views(f@)[0] == f@[0]@);
        let uid_field = if f.len() > 2 {
            assert(views(f@)[2] == f@[2]@);
            slice(&f[2], 0, f[2].len())
        } else {
            Vec::new()
        };
        assert(uid_field@ =~= passwd_fields(ls@[i as int]@).1);
        if parse_u32_vec(&uid_field) == Some(uid) {
            return string_from(&f[0]);
        }
        i = i + 1;
    }
    assert(all.skip(ls.len() as int) =~= Seq::<Seq<char>>::empty());
    let mut d: Vec<char> = Vec::new();
    push_decimal(&mut d, uid as u64);
    assert(d@ =~= dec_digits(uid as nat));
    string_from(&d)
}

/// The parent PID that `/proc/<pid>/status` (text `status`) gives: what
/// follows `PPid:` on the first line starting with it, trimmed and read as
/// a number.
pub open spec fn ppid_in_lines(ls: Seq<Seq<char>>) -> Option<u32>
    decreases ls.len(),
{
    if ls.len() == 0 {
        None
    } else if starts_with(ls[0], "PPid:"@) {
        parse_u32(trim(ls[0].skip(5)))
    } else {
        ppid_in_lines(ls.drop_first())
    }
}

/// Reads the `PPid:` field of a `/proc/<pid>/status` text.
pub fn parse_ppid(status: &str) -> (r: Option<u32>)
    ensures
        r == ppid_in_lines(lines(status@)),
{
    let v = chars_of(status);
    let ls = lines_vec(&v);
    let ghost all = views(ls@);
    let key = chars_of("PPid:");
    proof {
        reveal_strlit("PPid:");
    }
    let mut i: usize = 0;
    assert(all.skip(0) =~= all);
    while i < ls.len()
        invariant
            i <= ls.len(),
            all == views(ls@),
            all == lines(status@),
            key@ == "PPid:"@,
            key@.len() == 5,
            ppid_in_lines(lines(status@)) == ppid_in_lines(all.skip(i as int)),
        decreases ls.len() - i,
    {
        assert(all.skip(i as int).drop_first() =~= all.skip(i + 1));
        assert(all.skip(i as int)[0] == ls@[i as int]@);
        if vec_starts_with(&ls[i], &key) {
            let rest = slice(&ls[i], 5, ls[i].len());
            assert(rest@ =~= ls@[i as int]@.skip(5));
            let t = trim_vec(&rest);
            return parse_u32_vec(&t);
        }
        i = i + 1;
    }
    assert(all.skip(ls.len() as int) =~= Seq::<Seq<char>>::empty());
    None
}

/// How many ancestors the session lookup walks through.
pub open spec fn ANCESTRY_LIMIT() -> nat { 32 }

/// Whether some session's leader is `pid`.
pub open spec fn is_leader(ss: Seq<SessionModel>, pid: u32) -> bool {
    exists|i: int| 0 <= i < ss.len() && ss[i].leader_pid == pid
}

/// The leader the lookup stops at when walking `chain` (a PID, then its
/// parent, its parent's parent, … for as long as `/proc` told them), with
/// `budget` steps left: PIDs 0 and 1 end the walk without a session.
pub open spec fn ancestor_leader(ss: Seq<SessionModel>, chain: Seq<u32>, budget: nat) -> Option<u32>
    decreases budget,
{
    if budget == 0 || chain.len() == 0 {
        None
    } else if chain[0] == 0 || chain[0] == 1 {
        None
    } else if is_leader(ss, chain[0]) {
        Some(chain[0])
    } else {
        ancestor_leader(ss, chain.drop_first(), (budget - 1) as nat)
    }
}

impl AppState {
    /// A session with leader `pid`.
    fn session_led_by(&self, pid: u32) -> (r: Option<usize>)
        ensures
            match r {
                Some(i) => i < self.sessions@.len() && self.sessions@[i as int].leader_pid == pid,
                None => !is_leader(self.session_models(), pid),
            },
    {
        let mut i: usize = 0;
        while i < self.sessions.len()
            invariant
                i <= self.sessions.len(),
                forall|j: int| 0 <= j < i ==> self.sessions@[j].leader_pid != pid,
            decreases self.sessions.len() - i,
        {
            if self.sessions[i].leader_pid == pid {
                return Some(i);
            }
            i = i + 1;
        }
        assert(!is_leader(self.session_models(), pid)) by {
            if is_leader(self.session_models(), pid) {
                let k = choose|k: int| 0 <= k < self.session_models().len() && self.session_models()[k].leader_pid == pid;
                assert(self.sessions@[k].leader_pid == pid);
            }
        }
        None
    }

    /// The session that `chain[0]` belongs to: the session led by the
    /// nearest of `chain` (the PID and its ancestors, nearest first) that
    /// leads one, looking at most [`ANCESTRY_LIMIT`] steps up and never past
    /// PID 1.
    pub fn find_session_by_ancestry(&self, chain: &Vec<u32>) -> (r: Option<&SessionInfo>)
        ensures
            match r {
                Some(s) => ancestor_leader(self.session_models(), chain@, ANCESTRY_LIMIT())
                    == Some(s.leader_pid) && self.session_models().contains(s@),
                None => ancestor_leader(self.session_models(), chain@, ANCESTRY_LIMIT()) is None,
            },
    {
        let ghost ss = self.session_models();
        let mut k: usize = 0;
        assert(chain@.skip(0) =~= chain@);
        while k < chain.len() && k < 32
            invariant
                k <= chain.len(),
                k <= 32,
                ss == self.session_models(),
                ancestor_leader(ss, chain@, ANCESTRY_LIMIT()) == ancestor_leader(
                    ss,
                    chain@.skip(k as int),
                    (32 - k) as nat,
                ),
            decreases 32 - k,
        {
            let ghost rest = chain@.skip(k as int);
            assert(rest.drop_first() =~= chain@.skip(k + 1));
            let pid = chain[k];
            if pid == 0 || pid == 1 {
                return None;
            }
            match self.session_led_by(pid) {
                Some(i) => {
                    assert(ss[i as int] == self.sessions@[i as int]@);
                    assert(is_leader(ss, pid));
                    return Some(&self.sessions[i]);
                },
                None => {},
            }
            k = k + 1;
        }
        None
    }

    /// The `(id, uid, user name, seat, object path)` rows of
    /// `Manager.ListSessions`, one per session.
    pub fn list_sessions_tuples(&self) -> (r: Vec<(String, u32, String, String, String)>)
        ensures
            r@.len() == self.sessions@.len(),
            forall|i: int|
                0 <= i < r@.len() ==> {
                    let s = #[trigger] self.session_models()[i];
                    &&& r@[i].0@ == s.id
                    &&& r@[i].1 == s.uid
                    &&& r@[i].2@ == s.user_name
                    &&& r@[i].3@ == s.seat
                    &&& r@[i].4@ == session_path_spec(s.id)
                },
    {
        let mut r: Vec<(String, u32, String, String, String)> = Vec::new();
        let mut i: usize = 0;
        while i < self.sessions.len()
            invariant
                i <= self.sessions.len(),
                r@.len() == i,
                forall|j: int|
                    0 <= j < i ==> {
                        let s = #[trigger] self.session_models()[j];
                        &&& r@[j].0@ == s.id
                        &&& r@[j].1 == s.uid
                        &&& r@[j].2@ == s.user_name
                        &&& r@[j].3@ == s.seat
                        &&& r@[j].4@ == session_path_spec(s.id)
                    },
            decreases self.sessions.len() - i,
        {
            let s = &self.sessions[i];
            let path = session_object_path(s.id.as_str());
            r.push((s.id.clone(), s.uid, s.user_name.clone(), s.seat.clone(), path));
            i = i + 1;
        }
        r
    }
}

/// Different counter values give different session ids: no id is ever
/// handed out twice.
pub proof fn lemma_session_ids_distinct(a: u64, b: u64)
    requires
        a != b,
    ensures
        session_id_text(a) != session_id_text(b),
{
    crate::num::lemma_dec_digits_ok(a as nat);
    crate::num::lemma_dec_digits_ok(b as nat);
    if session_id_text(a) == session_id_text(b) {
        assert(dec_digits(a as nat) =~= session_id_text(a).drop_first());
        assert(dec_digits(b as nat) =~= session_id_text(b).drop_first());
    }
}

/// A session stored under its id is found again under that id, whole, and
/// every other session is still found as it was.
pub proof fn lemma_stored_session_found(ss: Seq<SessionModel>, x: SessionModel, other: Seq<char>)
    requires
        ids_distinct(ss),
    ensures
        ids_distinct(upsert(ss, x)),
        index_of_id(upsert(ss, x), x.id) matches Some(i) && upsert(ss, x)[i] == x,
        other != x.id ==> match index_of_id(ss, other) {
            Some(j) => index_of_id(upsert(ss, x), other) matches Some(k) && upsert(ss, x)[k] == ss[j],
            None => index_of_id(upsert(ss, x), other) is None,
        },
{
    lemma_index_of_id(ss, x.id);
    lemma_index_of_id(ss, other);
    let t = upsert(ss, x);
    match index_of_id(ss, x.id) {
        Some(i) => {
            assert(forall|j: int| 0 <= j < t.len() ==> t[j].id == ss[j].id);
            lemma_index_of_id_at(t, x.id, i);
            match index_of_id(ss, other) {
                Some(j) => {
                    if other != x.id {
                        lemma_index_of_id_at(t, other, j);
                    }
                },
                None => {
                    if other != x.id {
                        lemma_index_of_id_at(t, other, t.len() as int);
                    }
                },
            }
        },
        None => {
            lemma_index_of_id_at(t, x.id, ss.len() as int);
            match index_of_id(ss, other) {
                Some(j) => {
                    if other != x.id {
                        lemma_index_of_id_at(t, other, j);
                    }
                },
                None => {
                    if other != x.id {
                        lemma_index_of_id_at(t, other, t.len() as int);
                    }
                },
            }
        },
    }
}

/// After a session is removed its id is found no more, and the other
/// sessions are found as they were.
pub proof fn lemma_removed_session_gone(ss: Seq<SessionModel>, id: Seq<char>, other: Seq<char>)
    requires
        ids_distinct(ss),
    ensures
        ids_distinct(without_id(ss, id)),
        index_of_id(without_id(ss, id), id) is None,
        other != id ==> match index_of_id(ss, other) {
            Some(j) => index_of_id(without_id(ss, id), other) matches Some(k) && without_id(ss, id)[k]
                == ss[j],
            None => index_of_id(without_id(ss, id), other) is None,
        },
{
    lemma_index_of_id(ss, id);
    lemma_index_of_id(ss, other);
    let t = without_id(ss, id);
    match index_of_id(ss, id) {
        Some(i) => {
            assert(forall|j: int| 0 <= j < i ==> t[j] == ss[j]);
            assert(forall|j: int| i <= j < t.len() ==> t[j] == ss[j + 1]);
            assert(ids_distinct(t)) by {
                assert forall|a: int, b: int| 0 <= a < b < t.len() implies t[a].id != t[b].id by {
                    let a2 = if a < i { a } else { a + 1 };
                    let b2 = if b < i { b } else { b + 1 };
                    assert(t[a] == ss[a2] && t[b] == ss[b2]);
                }
            }
            assert forall|j: int| 0 <= j < t.len() implies t[j].id != id by {
                if j >= i {
                    assert(t[j] == ss[j + 1]);
                }
            }
            lemma_index_of_id_at(t, id, t.len() as int);
            if other != id {
                match index_of_id(ss, other) {
                    Some(j) => {
                        if j < i {
                            lemma_index_of_id_at(t, other, j);
                        } else {
                            assert forall|m: int| 0 <= m < j - 1 implies t[m].id != other by {
                                if m >= i {
                                    assert(t[m] == ss[m + 1]);
                                }
                            }
                            lemma_index_of_id_at(t, other, j - 1);
                        }
                    },
                    None => {
                        assert forall|m: int| 0 <= m < t.len() implies t[m].id != other by {
                            if m >= i {
                                assert(t[m] == ss[m + 1]);
                            }
                        }
                        lemma_index_of_id_at(t, other, t.len() as int);
                    },
                }
            }
        },
        None => {},
    }
}

} // verus!
