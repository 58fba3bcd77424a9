//! What an `org.freedesktop.login1.Session` object reports, and the checks
//! behind its `Activate` and `Terminate` methods.
use vstd::prelude::*;
use crate::logind::manager::no_such_session_text;
use crate::logind::state::{index_of_id, AppState, SessionModel};
use crate::num::dec_digits;
use crate::text::{chars_of, extend_str, string_from, vec_eq};

verus! {

/// The properties of a session object. A session that is gone reports
/// zeros, empty texts and `seat0`.
#[derive(Debug, Clone)]
pub struct SessionProperties {
    pub uid: u32,
    pub name: String,
    /// Creation time, in seconds since the epoch.
    pub timestamp: u64,
    /// Creation time, in microseconds.
    pub timestamp_monotonic: u64,
    pub vtnr: u32,
    pub seat: String,
    pub display: String,
    pub remote: bool,
    pub service: String,
    pub session_type: String,
    pub class: String,
    pub state: String,
    pub active: bool,
    pub idle_hint: bool,
    pub idle_since_hint: u64,
    pub leader: u32,
}

/// The properties of the recorded session `s`, or of a missing one.
pub open spec fn properties_ok(p: SessionProperties, s: Option<SessionModel>) -> bool {
    match s {
        Some(s) => {
            &&& p.uid == s.uid
            &&& p.name@ == s.user_name
            &&& p.timestamp == s.timestamp_usec / 1_000_000
            &&& p.timestamp_monotonic == s.timestamp_usec
            &&& p.vtnr == s.vtnr
            &&& p.seat@ == s.seat
            &&& p.display@ == s.display
            &&& p.remote == s.remote
            &&& p.service@ == s.service
            &&& p.session_type@ == s.session_type
            &&& p.class@ == s.class
            &&& p.state@ == s.state
            &&& p.active == (s.state == "active"@)
            &&& p.idle_hint == s.idle_hint
            &&& p.idle_since_hint == s.idle_since
            &&& p.leader == s.leader_pid
        },
        None => {
            &&& p.uid == 0
            &&& p.name@ == Seq::<char>::empty()
            &&& p.timestamp == 0
            &&& p.timestamp_monotonic == 0
            &&& p.vtnr == 0
            &&& p.seat@ == "seat0"@
            &&& p.display@ == Seq::<char>::empty()
            &&& !p.remote
            &&& p.service@ == Seq::<char>::empty()
            &&& p.session_type@ == Seq::<char>::empty()
            &&& p.class@ == Seq::<char>::empty()
            &&& p.state@ == Seq::<char>::empty()
            &&& !p.active
            &&& !p.idle_hint
            &&& p.idle_since_hint == 0
            &&& p.leader == 0
        },
    }
}

/// The session with id `id`, if recorded.
pub open spec fn session_with_id(ss: Seq<SessionModel>, id: Seq<char>) -> Option<SessionModel> {
    match index_of_id(ss, id) {
        Some(i) => Some(ss[i]),
        None => None,
    }
}

/// The refusal to switch to a session without a VT.
pub open spec fn no_vt_text(id: Seq<char>) -> Seq<char> {
    "session "@ + id + " has no VT (probably remote)"@
}

impl AppState {
    /// The properties the session object `id` reports.
    pub fn session_properties(&self, id: &str) -> (p: SessionProperties)
        ensures
            properties_ok(p, session_with_id(self.session_models(), id@)),
    {
        match self.get_session(id) {
            Some(s) => SessionProperties {
                uid: s.uid,
                name: s.user_name.clone(),
                timestamp: s.timestamp_usec / 1_000_000,
                timestamp_monotonic: s.timestamp_usec,
                vtnr: s.vtnr,
                seat: s.seat.clone(),
                display: s.display.clone(),
                remote: s.remote,
                service: s.service.clone(),
                session_type: s.session_type.clone(),
                class: s.class.clone(),
                state: s.state.clone(),
                active: vec_eq(&chars_of(s.state.as_str()), &chars_of("active")),
                idle_hint: s.idle_hint,
                idle_since_hint: s.idle_since,
                leader: s.leader_pid,
            },
            None => SessionProperties {
                uid: 0,
                name: String::new(),
                timestamp: 0,
                timestamp_monotonic: 0,
                vtnr: 0,
                seat: String::from_str("seat0"),
                display: String::new(),
                remote: false,
                service: String::new(),
                session_type: String::new(),
                class: String::new(),
                state: String::new(),
                active: false,
                idle_hint: false,
                idle_since_hint: 0,
                leader: 0,
            },
        }
    }

    /// The VT that `Activate` switches to: refused for an unknown session
    /// and for one that is not on a VT.
    pub fn vt_to_activate(&self, id: &str) -> (r: Result<u32, String>)
        ensures
            match session_with_id(self.session_models(), id@) {
                None => r matches Err(m) && m@ == no_such_session_text(id@),
                Some(s) => if s.vtnr == 0 {
                    r matches Err(m) && m@ == no_vt_text(id@)
                } else {
                    r == Ok::<u32, String>(s.vtnr)
                },
            },
    {
        match self.get_session(id) {
            None => {
                let mut m = chars_of("no such session: ");
                extend_str(&mut m, id);
                Err(string_from(&m))
            },
            Some(s) => {
                if s.vtnr == 0 {
                    let mut m = chars_of("session ");
                    extend_str(&mut m, id);
                    extend_str(&mut m, " has no VT (probably remote)");
                    Err(string_from(&m))
                } else {
                    Ok(s.vtnr)
                }
            },
        }
    }

    /// The leader that `Terminate` sends `SIGTERM` to: refused for an
    /// unknown session.
    pub fn leader_to_terminate(&self, id: &str) -> (r: Result<u32, String>)
        ensures
            match session_with_id(self.session_models(), id@) {
                None => r matches Err(m) && m@ == no_such_session_text(id@),
                Some(s) => r == Ok::<u32, String>(s.leader_pid),
            },
    {
        match self.get_session(id) {
            None => {
                let mut m = chars_of("no such session: ");
                extend_str(&mut m, id);
                Err(string_from(&m))
            },
            Some(s) => Ok(s.leader_pid),
        }
    }
}

} // verus!
