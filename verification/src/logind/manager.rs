//! What the `org.freedesktop.login1` Manager, Seat and Session interfaces
//! answer and change, on the registry of [`AppState`].
use vstd::prelude::*;
use crate::logind::state::{
    index_of_id, session_id_text, session_path_spec, session_views, upsert, without_id,
    AppState, Inhibitor, InhibitorModel, SessionInfo, SessionModel, inhibitor_views,
    session_object_path,
};
use crate::num::{dec_digits, push_decimal};
use crate::text::{
    chars_of, insert_sorted, insert_sorted_vec, join, join_vecs, sorted_unique, split_char,
    split_char_vec, string_from, vec_eq, views,
};

verus! {

/// The arguments of `Manager.CreateSession` that the daemon keeps.
#[derive(Debug, Clone)]
pub struct SessionRequest {
    pub uid: u32,
    pub pid: u32,
    pub service: String,
    pub session_type: String,
    pub class: String,
    pub seat_id: String,
    pub vtnr: u32,
    pub display: String,
    pub remote: bool,
}

/// `value`, or `default` when `value` is empty.
pub open spec fn or_default(value: Seq<char>, default: Seq<char>) -> Seq<char> {
    if value.len() == 0 { default } else { value }
}

/// The session `Manager.CreateSession` records for a request: id from the
/// counter, empty seat/service/class/type replaced by `seat0`,
/// `writeonce-login`, `user`, `tty`; state `active`, not idle, led by the
/// caller's PID, stamped with `now`.
pub open spec fn new_session_spec(
    n: u64,
    req: SessionRequest,
    user_name: Seq<char>,
    now: u64,
) -> SessionModel {
    SessionModel {
        id: session_id_text(n),
        uid: req.uid,
        user_name: user_name,
        seat: or_default(req.seat_id@, "seat0"@),
        vtnr: req.vtnr,
        display: req.display@,
        remote: req.remote,
        service: or_default(req.service@, "writeonce-login"@),
        class: or_default(req.class@, "user"@),
        session_type: or_default(req.session_type@, "tty"@),
        state: "active"@,
        idle_hint: false,
        idle_since: 0,
        leader_pid: req.pid,
        timestamp_usec: now,
    }
}

fn or_default_string(value: String, default: &str) -> (r: String)
    ensures
        r@ == or_default(value@, default@),
{
    if value.as_str().unicode_len() == 0 {
        String::from_str(default)
    } else {
        value
    }
}

/// Whether every session is idle (`Manager.IdleHint`; true when there are
/// none).
pub open spec fn all_idle(ss: Seq<SessionModel>) -> bool {
    forall|i: int| 0 <= i < ss.len() ==> #[trigger] ss[i].idle_hint
}

/// The sessions attached to `seat`, in order.
pub open spec fn on_seat(ss: Seq<SessionModel>, seat: Seq<char>) -> Seq<SessionModel> {
    ss.filter(|s: SessionModel| s.seat == seat)
}

/// The `:`-separated parts of the `what` of every inhibitor in `mode`, in
/// order.
pub open spec fn mode_parts(ins: Seq<InhibitorModel>, mode: Seq<char>) -> Seq<Seq<char>>
    decreases ins.len(),
{
    if ins.len() == 0 {
        seq![]
    } else {
        mode_parts(ins.drop_last(), mode) + if ins.last().mode == mode {
            split_char(ins.last().what, ':')
        } else {
            seq![]
        }
    }
}

/// `Manager.BlockInhibited` / `DelayInhibited`: the distinct inhibited
/// operations of the inhibitors in `mode`, sorted and `:`-joined.
pub open spec fn join_mode_spec(ins: Seq<InhibitorModel>, mode: Seq<char>) -> Seq<char> {
    join(sorted_unique(mode_parts(ins, mode)), ":"@)
}

/// The sorted, de-duplicated, `:`-joined operations that the inhibitors in
/// `mode` inhibit.
pub fn join_mode(inhibitors: &Vec<Inhibitor>, mode: &str) -> (r: String)
    ensures
        r@ == join_mode_spec(inhibitor_views(inhibitors@), mode@),
{
    let ghost ins = inhibitor_views(inhibitors@);
    let want = chars_of(mode);
    let mut sorted: Vec<Vec<char>> = Vec::new();
    let ghost mut parts: Seq<Seq<char>> = seq![];
    let mut i: usize = 0;
    assert(ins.take(0) =~= Seq::<InhibitorModel>::empty());
    assert(views(sorted@) =~= sorted_unique(seq![]));
    while i < inhibitors.len()
        invariant
            i <= inhibitors.len(),
            ins == inhibitor_views(inhibitors@),
            want@ == mode@,
            parts == mode_parts(ins.take(i as int), mode@),
            views(sorted@) == sorted_unique(parts),
        decreases inhibitors.len() - i,
    {
        assert(ins.take(i + 1).drop_last() =~= ins.take(i as int));
        let inh = &inhibitors[i];
        if vec_eq(&chars_of(inh.mode.as_str()), &want) {
            let ws = split_char_vec(&chars_of(inh.what.as_str()), ':');
            let ghost wsv = views(ws@);
            let ghost base = parts;
            let mut k: usize = 0;
            assert(wsv.take(0) =~= Seq::<Seq<char>>::empty());
            assert(base + wsv.take(0) =~= base);
            while k < ws.len()
                invariant
                    k <= ws.len(),
                    wsv == views(ws@),
                    parts == base + wsv.take(k as int),
                    views(sorted@) == sorted_unique(parts),
                decreases ws.len() - k,
            {
                let w = crate::text::slice(&ws[k], 0, ws[k].len());
                assert(w@ =~= wsv[k as int]);
                insert_sorted_vec(&mut sorted, w);
                proof {
                    let np = parts.push(wsv[k as int]);
                    assert(np.drop_last() =~= parts);
                    assert(base + wsv.take(k + 1) =~= np);
                    parts = np;
                }
                k = k + 1;
            }
            assert(wsv.take(ws.len() as int) =~= wsv);
        } else {
            assert(parts + seq![] =~= parts);
        }
        i = i + 1;
    }
    assert(ins.take(inhibitors.len() as int) =~= ins);
    let joined = join_vecs(&sorted, &chars_of(":"));
    string_from(&joined)
}

/// The inhibitor `Manager.Inhibit` records.
pub open spec fn new_inhibitor_spec(
    id: u32,
    what: Seq<char>,
    who: Seq<char>,
    why: Seq<char>,
    mode: Seq<char>,
    uid: u32,
    pid: u32,
) -> InhibitorModel {
    InhibitorModel { id, what, who, why, mode, uid, pid }
}

/// Why `Manager.Inhibit` refuses a mode.
pub open spec fn bad_mode_text(mode: Seq<char>) -> Seq<char> {
    "mode must be 'block' or 'delay', got '"@ + mode + "'"@
}

/// `Manager.Inhibit`'s check of the mode, made before anything else: only
/// `block` and `delay` pass; the error text otherwise.
pub fn check_inhibit_mode(mode: &str) -> (r: Result<(), String>)
    ensures
        match r {
            Ok(()) => mode@ == "block"@ || mode@ == "delay"@,
            Err(m) => !(mode@ == "block"@ || mode@ == "delay"@) && m@ == bad_mode_text(mode@),
        },
{
    let m = chars_of(mode);
    if !vec_eq(&m, &chars_of("block")) && !vec_eq(&m, &chars_of("delay")) {
        let mut t = chars_of("mode must be 'block' or 'delay', got '");
        crate::text::extend(&mut t, &m);
        crate::text::extend_str(&mut t, "'");
        return Err(string_from(&t));
    }
    Ok(())
}

/// The error text for a session id that is not registered.
pub open spec fn no_such_session_text(id: Seq<char>) -> Seq<char> {
    "no such session: "@ + id
}

fn no_such_session(id: &str) -> (m: String)
    ensures
        m@ == no_such_session_text(id@),
{
    let mut v = chars_of("no such session: ");
    crate::text::extend_str(&mut v, id);
    string_from(&v)
}

/// The runtime directory of a user's session: `/run/user/<uid>`.
pub open spec fn runtime_path_spec(uid: u32) -> Seq<char> {
    "/run/user/"@ + dec_digits(uid as nat)
}

/// `/run/user/<uid>`.
pub fn runtime_path(uid: u32) -> (r: String)
    ensures
        r@ == runtime_path_spec(uid),
{
    let mut v = chars_of("/run/user/");
    push_decimal(&mut v, uid as u64);
    string_from(&v)
}

/// What `Manager.CreateSession` answers about the session it recorded
/// (all but the lifecycle pipe, which only the daemon can open).
#[derive(Debug, Clone)]
pub struct SessionReply {
    /// The session's id.
    pub id: String,
    /// Its D-Bus object path.
    pub object_path: String,
    /// The user's runtime directory.
    pub runtime_path: String,
    /// The owner's uid.
    pub uid: u32,
    /// The seat it sits on.
    pub seat: String,
    /// Its virtual terminal.
    pub vtnr: u32,
    /// Whether an existing session was handed back (never: each call
    /// records a new one).
    pub existing: bool,
}

/// The answer to `Manager.CreateSession` for the session it recorded.
pub fn session_reply(info: &SessionInfo) -> (r: SessionReply)
    ensures
        r.id@ == info@.id,
        r.object_path@ == session_path_spec(info@.id),
        r.runtime_path@ == runtime_path_spec(info@.uid),
        r.uid == info@.uid,
        r.seat@ == info@.seat,
        r.vtnr == info@.vtnr,
        !r.existing,
{
    SessionReply {
        id: info.id.clone(),
        object_path: session_object_path(info.id.as_str()),
        runtime_path: runtime_path(info.uid),
        uid: info.uid,
        seat: info.seat.clone(),
        vtnr: info.vtnr,
        existing: false,
    }
}

impl AppState {
    /// `Manager.CreateSession`: records a new session under a fresh id and
    /// returns it. `user_name` is what `/etc/passwd` says of the uid, `now`
    /// the wall-clock time in microseconds.
    pub fn create_session(&mut self, req: SessionRequest, user_name: String, now: u64) -> (r:
        SessionInfo)
        requires
            old(self).wf(),
            old(self).next_session_id < u64::MAX,
        ensures
            final(self).wf(),
            r@ == new_session_spec(old(self).next_session_id, req, user_name@, now),
            final(self).session_models() == upsert(old(self).session_models(), r@),
            final(self).next_session_id == old(self).next_session_id + 1,
            final(self).inhibitors == old(self).inhibitors,
            final(self).next_inhibitor_id == old(self).next_inhibitor_id,
            final(self).preparing_for_shutdown == old(self).preparing_for_shutdown,
            final(self).preparing_for_sleep == old(self).preparing_for_sleep,
    {
        let ghost n = self.next_session_id;
        let ghost req0 = req;
        let id = self.allocate_session_id();
        let info = SessionInfo {
            id,
            uid: req.uid,
            user_name,
            seat: or_default_string(req.seat_id, "seat0"),
            vtnr: req.vtnr,
            display: req.display,
            remote: req.remote,
            service: or_default_string(req.service, "writeonce-login"),
            class: or_default_string(req.class, "user"),
            session_type: or_default_string(req.session_type, "tty"),
            state: String::from_str("active"),
            idle_hint: false,
            idle_since: 0,
            leader_pid: req.pid,
            timestamp_usec: now,
        };
        assert(info@ == new_session_spec(n, req0, user_name@, now));
        let r = info.duplicate();
        self.insert_session(info);
        r
    }

    /// `Manager.ReleaseSession`: forgets the session; the error text when
    /// there is none.
    pub fn release_session(&mut self, session_id: &str) -> (r: Result<(), String>)
        requires
            old(self).wf(),
        ensures
            final(self).wf(),
            final(self).session_models() == without_id(old(self).session_models(), session_id@),
            final(self).inhibitors == old(self).inhibitors,
            final(self).next_session_id == old(self).next_session_id,
            final(self).next_inhibitor_id == old(self).next_inhibitor_id,
            final(self).preparing_for_shutdown == old(self).preparing_for_shutdown,
            final(self).preparing_for_sleep == old(self).preparing_for_sleep,
            match r {
                Ok(()) => index_of_id(old(self).session_models(), session_id@) is Some,
                Err(m) => index_of_id(old(self).session_models(), session_id@) is None && m@
                    == no_such_session_text(session_id@),
            },
    {
        if self.remove_session(session_id) {
            Ok(())
        } else {
            Err(no_such_session(session_id))
        }
    }

    /// `Session.SetIdleHint`: records the hint and when it was set (0 when
    /// cleared); the error text when there is no such session.
    pub fn set_idle_hint(&mut self, session_id: &str, idle: bool, now: u64) -> (r: Result<(), String>)
        requires
            old(self).wf(),
        ensures
            final(self).wf(),
            final(self).inhibitors == old(self).inhibitors,
            final(self).next_session_id == old(self).next_session_id,
            final(self).next_inhibitor_id == old(self).next_inhibitor_id,
            final(self).preparing_for_shutdown == old(self).preparing_for_shutdown,
            final(self).preparing_for_sleep == old(self).preparing_for_sleep,
            match index_of_id(old(self).session_models(), session_id@) {
                Some(i) => r is Ok && final(self).session_models() == old(self).session_models().update(
                    i,
                    SessionModel {
                        idle_hint: idle,
                        idle_since: if idle { now } else { 0 },
                        ..old(self).session_models()[i]
                    },
                ),
                None => (r matches Err(m) && m@ == no_such_session_text(session_id@))
                    && final(self).sessions == old(self).sessions,
            },
    {
        let ghost ss = self.session_models();
        match self.position_of(session_id) {
            Some(i) => {
                let mut s = self.sessions[i].duplicate();
                s.idle_hint = idle;
                s.idle_since = if idle { now } else { 0 };
                self.sessions.set(i, s);
                assert(self.session_models() =~= ss.update(
                    i as int,
                    SessionModel {
                        idle_hint: idle,
                        idle_since: if idle { now } else { 0 },
                        ..ss[i as int]
                    },
                ));
                assert(self.wf()) by {
                    let t = self.session_models();
                    assert forall|a: int, b: int| 0 <= a < b < t.len() implies t[a].id != t[b].id by {
                        assert(t[a].id == ss[a].id);
                        assert(t[b].id == ss[b].id);
                    }
                }
                Ok(())
            },
            None => Err(no_such_session(session_id)),
        }
    }
}

/// The `(uid, user name, object path)` rows of `Manager.ListUsers`: one per
/// distinct uid, in the order of the uid's first session.
pub open spec fn users_of(ss: Seq<SessionModel>) -> Seq<(u32, Seq<char>)>
    decreases ss.len(),
{
    if ss.len() == 0 {
        seq![]
    } else {
        let prev = users_of(ss.drop_last());
        if exists|k: int| 0 <= k < prev.len() && prev[k].0 == ss.last().uid {
            prev
        } else {
            prev.push((ss.last().uid, ss.last().user_name))
        }
    }
}

impl AppState {
    /// `Manager.Inhibit`: records an inhibitor under a fresh id, or refuses
    /// a mode other than `block` and `delay` (recording nothing).
    pub fn inhibit(
        &mut self,
        what: String,
        who: String,
        why: String,
        mode: String,
        uid: u32,
        pid: u32,
    ) -> (r: Result<u32, String>)
        requires
            (mode@ == "block"@ || mode@ == "delay"@) ==> old(self).next_inhibitor_id < u32::MAX,
        ensures
            final(self).sessions == old(self).sessions,
            final(self).next_session_id == old(self).next_session_id,
            final(self).preparing_for_shutdown == old(self).preparing_for_shutdown,
            final(self).preparing_for_sleep == old(self).preparing_for_sleep,
            r is Err ==> *final(self) == *old(self),
            match r {
                Ok(id) => (mode@ == "block"@ || mode@ == "delay"@) && id == old(self).next_inhibitor_id && final(self).next_inhibitor_id == id + 1
                    && final(self).inhibitor_models() == old(self).inhibitor_models().push(
                    new_inhibitor_spec(id, what@, who@, why@, mode@, uid, pid),
                ),
                Err(m) => !(mode@ == "block"@ || mode@ == "delay"@) && m@ == bad_mode_text(mode@)
                    && final(self).inhibitors == old(self).inhibitors && final(self).next_inhibitor_id == old(self).next_inhibitor_id,
            },
    {
        match check_inhibit_mode(mode.as_str()) {
            Ok(()) => {},
            Err(e) => return Err(e),
        }
        let id = self.allocate_inhibitor_id();
        let ghost before = self.inhibitors@;
        self.inhibitors.push(Inhibitor { id, what, who, why, mode, uid, pid });
        assert(self.inhibitor_models() =~= inhibitor_views(before).push(
            new_inhibitor_spec(id, what@, who@, why@, mode@, uid, pid),
        ));
        Ok(id)
    }

    /// Forgets the inhibitors with id `id` (their holder closed its end).
    pub fn release_inhibitor(&mut self, id: u32)
        ensures
            final(self).sessions == old(self).sessions,
            final(self).next_session_id == old(self).next_session_id,
            final(self).next_inhibitor_id == old(self).next_inhibitor_id,
            final(self).preparing_for_shutdown == old(self).preparing_for_shutdown,
            final(self).preparing_for_sleep == old(self).preparing_for_sleep,

            final(self).inhibitor_models() == old(self).inhibitor_models().filter(
                |i: InhibitorModel| i.id != id,
            ),
    {
        let ghost ins = self.inhibitor_models();
        let mut kept: Vec<Inhibitor> = Vec::new();
        let mut k: usize = 0;
        assert(ins.take(0).filter(|i: InhibitorModel| i.id != id) =~= Seq::<InhibitorModel>::empty());
        while k < self.inhibitors.len()
            invariant
                k <= self.inhibitors.len(),
                ins == self.inhibitor_models(),
                inhibitor_views(kept@) == ins.take(k as int).filter(|i: InhibitorModel| i.id != id),
            decreases self.inhibitors.len() - k,
        {
            proof {
                reveal(Seq::filter);
                assert(ins.take(k + 1).drop_last() =~= ins.take(k as int));
            }
            let x = &self.inhibitors[k];
            if x.id != id {
                let ghost before = kept@;
                kept.push(Inhibitor {
                    id: x.id,
                    what: x.what.clone(),
                    who: x.who.clone(),
                    why: x.why.clone(),
                    mode: x.mode.clone(),
                    uid: x.uid,
                    pid: x.pid,
                });
                assert(inhibitor_views(kept@) =~= inhibitor_views(before).push(ins[k as int]));
            }
            k = k + 1;
        }
        assert(ins.take(self.inhibitors.len() as int) =~= ins);
        self.inhibitors = kept;
    }

    /// The `(what, who, why, mode, uid, pid)` rows of
    /// `Manager.ListInhibitors`, one per inhibitor, in order.
    pub fn list_inhibitors(&self) -> (r: Vec<(String, String, String, String, u32, u32)>)
        ensures
            r@.len() == self.inhibitors@.len(),
            forall|i: int|
                0 <= i < r@.len() ==> {
                    let x = #[trigger] self.inhibitor_models()[i];
                    &&& r@[i].0@ == x.what
                    &&& r@[i].1@ == x.who
                    &&& r@[i].2@ == x.why
                    &&& r@[i].3@ == x.mode
                    &&& r@[i].4 == x.uid
                    &&& r@[i].5 == x.pid
                },
    {
        let mut r: Vec<(String, String, String, String, u32, u32)> = Vec::new();
        let mut i: usize = 0;
        while i < self.inhibitors.len()
            invariant
                i <= self.inhibitors.len(),
                r@.len() == i,
                forall|j: int|
                    0 <= j < i ==> {
                        let x = #[trigger] self.inhibitor_models()[j];
                        &&& r@[j].0@ == x.what
                        &&& r@[j].1@ == x.who
                        &&& r@[j].2@ == x.why
                        &&& r@[j].3@ == x.mode
                        &&& r@[j].4 == x.uid
                        &&& r@[j].5 == x.pid
                    },
            decreases self.inhibitors.len() - i,
        {
            let x = &self.inhibitors[i];
            r.push((x.what.clone(), x.who.clone(), x.why.clone(), x.mode.clone(), x.uid, x.pid));
            i = i + 1;
        }
        r
    }

    /// `Manager.NCurrentSessions`.
    pub fn n_current_sessions(&self) -> (n: u32)
        ensures
            n == self.sessions@.len() as u32,
    {
        self.sessions.len() as u32
    }

    /// `Manager.IdleHint`: every session is idle.
    pub fn idle_hint(&self) -> (b: bool)
        ensures
            b == all_idle(self.session_models()),
    {
        let mut i: usize = 0;
        while i < self.sessions.len()
            invariant
                i <= self.sessions.len(),
                forall|j: int| 0 <= j < i ==> self.session_models()[j].idle_hint,
            decreases self.sessions.len() - i,
        {
            if !self.sessions[i].idle_hint {
                assert(!self.session_models()[i as int].idle_hint);
                return false;
            }
            i = i + 1;
        }
        true
    }

    /// `Manager.ListUsers`: one `(uid, user name, object path)` row per
    /// distinct uid.
    pub fn list_users(&self) -> (r: Vec<(u32, String, String)>)
        ensures
            r@.len() == users_of(self.session_models()).len(),
            forall|i: int|
                0 <= i < r@.len() ==> {
                    let u = #[trigger] users_of(self.session_models())[i];
                    &&& r@[i].0 == u.0
                    &&& r@[i].1@ == u.1
                    &&& r@[i].2@ == crate::logind::state::user_path_spec(u.0)
                },
    {
        let ghost ss = self.session_models();
        let mut r: Vec<(u32, String, String)> = Vec::new();
        let mut i: usize = 0;
        assert(ss.take(0) =~= Seq::<SessionModel>::empty());
        while i < self.sessions.len()
            invariant
                i <= self.sessions.len(),
                ss == self.session_models(),
                r@.len() == users_of(ss.take(i as int)).len(),
                forall|j: int|
                    0 <= j < r@.len() ==> {
                        let u = #[trigger] users_of(ss.take(i as int))[j];
                        &&& r@[j].0 == u.0
                        &&& r@[j].1@ == u.1
                        &&& r@[j].2@ == crate::logind::state::user_path_spec(u.0)
                    },
            decreases self.sessions.len() - i,
        {
            let ghost prev = users_of(ss.take(i as int));
            assert(ss.take(i + 1).drop_last() =~= ss.take(i as int));
            assert(ss.take(i + 1).last() == ss[i as int]);
            let uid = self.sessions[i].uid;
            let mut seen = false;
            let mut k: usize = 0;
            while k < r.len()
                invariant
                    k <= r.len(),
                    r@.len() == prev.len(),
                    forall|j: int| 0 <= j < r@.len() ==> r@[j].0 == #[trigger] prev[j].0,
                    seen == exists|j: int| 0 <= j < k && prev[j].0 == uid,
                decreases r.len() - k,
            {
                assert(r@[k as int].0 == prev[k as int].0);
                if r[k].0 == uid {
                    seen = true;
                }
                proof {
                    if !seen {
                        assert forall|j: int| 0 <= j < k + 1 implies !(prev[j].0 == uid) by {
                            if j == k {
                            }
                        }
                    }
                }
                k = k + 1;
            }
            if !seen {
                let s = &self.sessions[i];
                r.push((uid, s.user_name.clone(), crate::logind::state::user_object_path(uid)));
                assert(users_of(ss.take(i + 1)) =~= prev.push((uid, s.user_name@)));
            }
            i = i + 1;
        }
        assert(ss.take(self.sessions.len() as int) =~= ss);
        r
    }

    /// `Seat.ActiveSession`: a session on `seat` whose state is `active`.
    pub fn active_session_on(&self, seat: &str) -> (r: Option<&SessionInfo>)
        ensures
            match r {
                Some(s) => self.session_models().contains(s@) && s@.seat == seat@ && s@.state
                    == "active"@,
                None => forall|i: int|
                    0 <= i < self.sessions@.len() ==> !(#[trigger] self.session_models()[i].seat
                        == seat@ && self.session_models()[i].state == "active"@),
            },
    {
        let want = chars_of(seat);
        let active = chars_of("active");
        let mut i: usize = 0;
        while i < self.sessions.len()
            invariant
                i <= self.sessions.len(),
                want@ == seat@,
                active@ == "active"@,
                forall|j: int|
                    0 <= j < i ==> !(#[trigger] self.session_models()[j].seat == seat@
                        && self.session_models()[j].state == "active"@),
            decreases self.sessions.len() - i,
        {
            let s = &self.sessions[i];
            if vec_eq(&chars_of(s.seat.as_str()), &want) && vec_eq(
                &chars_of(s.state.as_str()),
                &active,
            ) {
                assert(self.session_models()[i as int] == s@);
                return Some(s);
            }
            i = i + 1;
        }
        None
    }

    /// `Seat.Sessions`: `(id, object path)` of each session on `seat`.
    pub fn sessions_on(&self, seat: &str) -> (r: Vec<(String, String)>)
        ensures
            r@.len() == on_seat(self.session_models(), seat@).len(),
            forall|i: int|
                0 <= i < r@.len() ==> {
                    let s = #[trigger] on_seat(self.session_models(), seat@)[i];
                    r@[i].0@ == s.id && r@[i].1@ == session_path_spec(s.id)
                },
    {
        let ghost ss = self.session_models();
        let want = chars_of(seat);
        let mut r: Vec<(String, String)> = Vec::new();
        let mut i: usize = 0;
        assert(on_seat(ss.take(0), seat@) =~= Seq::<SessionModel>::empty());
        while i < self.sessions.len()
            invariant
                i <= self.sessions.len(),
                ss == self.session_models(),
                want@ == seat@,
                r@.len() == on_seat(ss.take(i as int), seat@).len(),
                forall|j: int|
                    0 <= j < r@.len() ==> {
                        let s = #[trigger] on_seat(ss.take(i as int), seat@)[j];
                        r@[j].0@ == s.id && r@[j].1@ == session_path_spec(s.id)
                    },
            decreases self.sessions.len() - i,
        {
            proof {
                reveal(Seq::filter);
                assert(ss.take(i + 1).drop_last() =~= ss.take(i as int));
            }
            let s = &self.sessions[i];
            assert(ss[i as int] == s@);
            if vec_eq(&chars_of(s.seat.as_str()), &want) {
                r.push((s.id.clone(), session_object_path(s.id.as_str())));
            }
            i = i + 1;
        }
        assert(ss.take(self.sessions.len() as int) =~= ss);
        r
    }

    /// `Seat.IdleHint`: every session on `seat` is idle.
    pub fn seat_idle_hint(&self, seat: &str) -> (b: bool)
        ensures
            b == all_idle(on_seat(self.session_models(), seat@)),
    {
        let ghost ss = self.session_models();
        let want = chars_of(seat);
        let mut i: usize = 0;
        assert(on_seat(ss.take(0), seat@) =~= Seq::<SessionModel>::empty());
        while i < self.sessions.len()
            invariant
                i <= self.sessions.len(),
                ss == self.session_models(),
                want@ == seat@,
                all_idle(on_seat(ss.take(i as int), seat@)),
            decreases self.sessions.len() - i,
        {
            proof {
                reveal(Seq::filter);
                assert(ss.take(i + 1).drop_last() =~= ss.take(i as int));
            }
            let s = &self.sessions[i];
            assert(ss[i as int] == s@);
            if vec_eq(&chars_of(s.seat.as_str()), &want) && !s.idle_hint {
                proof {
                    lemma_filter_prefix_not_all_idle(ss, seat@, i as int);
                }
                return false;
            }
            i = i + 1;
        }
        assert(ss.take(self.sessions.len() as int) =~= ss);
        true
    }
}

proof fn lemma_filter_prefix_not_all_idle(ss: Seq<SessionModel>, seat: Seq<char>, i: int)
    requires
        0 <= i < ss.len(),
        ss[i].seat == seat,
        !ss[i].idle_hint,
    ensures
        !all_idle(on_seat(ss, seat)),
{
    let f = |s: SessionModel| s.seat == seat;
    assert(ss.contains(ss[i]));
    ss.filter_lemma(f);
    assert(on_seat(ss, seat).contains(ss[i]));
    let k = choose|k: int| 0 <= k < on_seat(ss, seat).len() && on_seat(ss, seat)[k] == ss[i];
    assert(!on_seat(ss, seat)[k].idle_hint);
}

/// The operations reported for an inhibitor mode are named once each, in
/// ascending order, and are exactly those the inhibitors in that mode name.
pub proof fn lemma_mode_operations(ins: Seq<InhibitorModel>, mode: Seq<char>)
    ensures
        crate::text::strictly_sorted(sorted_unique(mode_parts(ins, mode))),
        forall|i: int|
            0 <= i < mode_parts(ins, mode).len() ==> #[trigger] sorted_unique(mode_parts(ins, mode)).contains(
                mode_parts(ins, mode)[i],
            ),
        forall|k: int|
            0 <= k < sorted_unique(mode_parts(ins, mode)).len() ==> #[trigger] mode_parts(ins, mode).contains(
                sorted_unique(mode_parts(ins, mode))[k],
            ),
{
    crate::text::lemma_sorted_unique(mode_parts(ins, mode));
}

/// `ListUsers` names each user once, and every user with a session.
pub proof fn lemma_users_listed_once(ss: Seq<SessionModel>)
    ensures
        forall|i: int, j: int|
            0 <= i < j < users_of(ss).len() ==> (#[trigger] users_of(ss)[i]).0 != (#[trigger] users_of(ss)[j]).0,
        forall|k: int| 0 <= k < ss.len() ==> exists|m: int| 0 <= m < users_of(ss).len() && #[trigger] users_of(ss)[m].0 == (#[trigger] ss[k]).uid,
    decreases ss.len(),
{
    if ss.len() > 0 {
        let d = ss.drop_last();
        lemma_users_listed_once(d);
        let prev = users_of(d);
        assert forall|k: int| 0 <= k < ss.len() implies exists|m: int| 0 <= m < users_of(ss).len() && #[trigger] users_of(ss)[m].0 == (#[trigger] ss[k]).uid by {
            if k < ss.len() - 1 {
                assert(d[k] == ss[k]);
                let m = choose|m: int| 0 <= m < prev.len() && #[trigger] prev[m].0 == d[k].uid;
                assert(users_of(ss)[m] == prev[m]);
            } else if exists|m: int| 0 <= m < prev.len() && #[trigger] prev[m].0 == ss.last().uid {
                let m = choose|m: int| 0 <= m < prev.len() && #[trigger] prev[m].0 == ss.last().uid;
                assert(users_of(ss)[m] == prev[m]);
            } else {
                assert(users_of(ss)[prev.len() as int].0 == ss.last().uid);
            }
        }
    }
}

} // verus!
