use writeonce::logind::manager::{join_mode, runtime_path, session_reply, SessionRequest};
use writeonce::logind::state::{
    lookup_username_in, now_usec, parse_ppid, seat_object_path, session_object_path,
    user_object_path, AppState, SessionInfo,
};

fn info(id: &str, uid: u32, seat: &str, state: &str, leader: u32, vtnr: u32) -> SessionInfo {
    SessionInfo {
        id: id.into(),
        uid,
        user_name: "test".into(),
        seat: seat.into(),
        vtnr,
        display: ":0".into(),
        remote: false,
        service: "writeonce-login".into(),
        class: "user".into(),
        session_type: "tty".into(),
        state: state.into(),
        idle_hint: false,
        idle_since: 0,
        leader_pid: leader,
        timestamp_usec: 0,
    }
}

#[test]
fn state_session_lifecycle() {
    let mut st = AppState::new();
    let id = st.allocate_session_id();
    st.insert_session(SessionInfo {
        id: id.clone(),
        uid: 1000,
        user_name: "test".into(),
        seat: "seat0".into(),
        vtnr: 1,
        display: ":0".into(),
        remote: false,
        service: "writeonce-login".into(),
        class: "user".into(),
        session_type: "tty".into(),
        state: "active".into(),
        idle_hint: false,
        idle_since: 0,
        leader_pid: 0,
        timestamp_usec: 0,
    });
    assert_eq!(st.sessions.len(), 1);
    let listed = st.list_sessions_tuples();
    assert_eq!(listed.len(), 1);
    assert_eq!(listed[0].0, id);
    assert_eq!(listed[0].1, 1000);
}

#[test]
fn inhibitor_id_monotonic() {
    let mut st = AppState::new();
    assert_eq!(st.allocate_inhibitor_id(), 1);
    assert_eq!(st.allocate_inhibitor_id(), 2);
    assert_eq!(st.allocate_inhibitor_id(), 3);
}

#[test]
fn session_id_format() {
    let mut st = AppState::new();
    assert_eq!(st.allocate_session_id(), "c1");
    assert_eq!(st.allocate_session_id(), "c2");
}

#[test]
fn insert_replaces_and_remove_forgets() {
    let mut st = AppState::new();
    st.insert_session(info("c1", 1000, "seat0", "active", 10, 1));
    st.insert_session(info("c2", 1001, "seat0", "online", 20, 2));
    st.insert_session(info("c1", 1002, "seat0", "active", 30, 1));
    assert_eq!(st.sessions.len(), 2);
    assert_eq!(st.get_session("c1").unwrap().uid, 1002);
    assert!(st.contains_session("c2"));
    assert!(st.remove_session("c2"));
    assert!(!st.remove_session("c2"));
    assert!(!st.contains_session("c2"));
    assert_eq!(st.position_of("c1"), Some(0));
}

fn request(seat: &str, service: &str, vtnr: u32) -> SessionRequest {
    SessionRequest {
        uid: 1000,
        pid: 4242,
        service: service.into(),
        session_type: String::new(),
        class: String::new(),
        seat_id: seat.into(),
        vtnr,
        display: String::new(),
        remote: false,
    }
}

#[test]
fn create_session_fills_defaults() {
    let mut st = AppState::new();
    let s = st.create_session(request("", "", 2), "alice".into(), 5_000_000);
    assert_eq!(s.id, "c1");
    assert_eq!(s.seat, "seat0");
    assert_eq!(s.service, "writeonce-login");
    assert_eq!(s.class, "user");
    assert_eq!(s.session_type, "tty");
    assert_eq!(s.state, "active");
    assert_eq!(s.leader_pid, 4242);
    let t = st.create_session(request("seat1", "sshd", 0), "bob".into(), 0);
    assert_eq!(t.id, "c2");
    assert_eq!(t.seat, "seat1");
    assert_eq!(t.service, "sshd");
    assert_eq!(st.n_current_sessions(), 2);
    let props = st.session_properties("c1");
    assert_eq!(props.name, "alice");
    assert_eq!(props.timestamp, 5);
    assert!(props.active);
    assert_eq!(st.session_properties("c9").seat, "seat0");
    assert_eq!(st.vt_to_activate("c1"), Ok(2));
    assert_eq!(st.vt_to_activate("c2"), Err("session c2 has no VT (probably remote)".to_string()));
    assert_eq!(st.vt_to_activate("c9"), Err("no such session: c9".to_string()));
    assert_eq!(st.leader_to_terminate("c2"), Ok(4242));
    assert_eq!(st.release_session("c2"), Ok(()));
    assert_eq!(st.release_session("c2"), Err("no such session: c2".to_string()));
}

#[test]
fn idle_hints_and_seats() {
    let mut st = AppState::new();
    assert!(st.idle_hint());
    st.insert_session(info("c1", 1000, "seat0", "active", 10, 1));
    st.insert_session(info("c2", 1000, "seat1", "online", 20, 2));
    assert!(!st.idle_hint());
    assert_eq!(st.set_idle_hint("c1", true, 77), Ok(()));
    assert_eq!(st.get_session("c1").unwrap().idle_since, 77);
    assert!(st.seat_idle_hint("seat0"));
    assert!(!st.seat_idle_hint("seat1"));
    assert_eq!(st.set_idle_hint("c7", true, 1), Err("no such session: c7".to_string()));
    assert_eq!(st.active_session_on("seat0").unwrap().id, "c1");
    assert!(st.active_session_on("seat1").is_none());
    assert_eq!(
        st.sessions_on("seat1"),
        vec![("c2".to_string(), "/org/freedesktop/login1/session/c2".to_string())]
    );
    let users = st.list_users();
    assert_eq!(users.len(), 1);
    assert_eq!(users[0].2, "/org/freedesktop/login1/user/_1000");
}

#[test]
fn inhibitors_join_sorted_and_unique() {
    let mut st = AppState::new();
    assert_eq!(st.inhibit("sleep:shutdown".into(), "a".into(), "x".into(), "block".into(), 0, 1), Ok(1));
    assert_eq!(st.inhibit("idle:sleep".into(), "b".into(), "y".into(), "block".into(), 0, 2), Ok(2));
    assert_eq!(st.inhibit("handle-lid-switch".into(), "c".into(), "z".into(), "delay".into(), 0, 3), Ok(3));
    assert_eq!(
        st.inhibit("sleep".into(), "d".into(), "w".into(), "maybe".into(), 0, 4),
        Err("mode must be 'block' or 'delay', got 'maybe'".to_string())
    );
    assert_eq!(join_mode(&st.inhibitors, "block"), "idle:shutdown:sleep");
    assert_eq!(join_mode(&st.inhibitors, "delay"), "handle-lid-switch");
    st.release_inhibitor(1);
    assert_eq!(join_mode(&st.inhibitors, "block"), "idle:sleep");
    let listed = st.list_inhibitors();
    assert_eq!(listed.len(), 2);
    assert_eq!(listed[0].1, "b");
    assert_eq!(st.allocate_inhibitor_id(), 4);
}

#[test]
fn object_paths() {
    assert_eq!(session_object_path("c3"), "/org/freedesktop/login1/session/c3");
    assert_eq!(seat_object_path("seat0"), "/org/freedesktop/login1/seat/seat0");
    assert_eq!(user_object_path(1000), "/org/freedesktop/login1/user/_1000");
}

#[test]
fn passwd_lookup_and_ppid() {
    let passwd = "root:x:0:0:root:/root:/bin/sh\nalice:x:1000:1000::/home/alice:/bin/bash\n";
    assert_eq!(lookup_username_in(passwd, 1000), "alice");
    assert_eq!(lookup_username_in(passwd, 0), "root");
    assert_eq!(lookup_username_in(passwd, 4242), "4242");
    assert_eq!(parse_ppid("Name:\tbash\nPPid:\t 812\nUid:\t1000\n"), Some(812));
    assert_eq!(parse_ppid("Name:\tbash\n"), None);
    assert_eq!(parse_ppid("PPid:\tx\n"), None);
}

#[test]
fn ancestry_finds_the_nearest_leader() {
    let mut st = AppState::new();
    st.insert_session(info("c1", 1000, "seat0", "active", 500, 1));
    st.insert_session(info("c2", 1000, "seat0", "active", 700, 2));
    assert_eq!(st.find_session_by_ancestry(&vec![900, 700, 500, 1]).unwrap().id, "c2");
    assert_eq!(st.find_session_by_ancestry(&vec![900, 500]).unwrap().id, "c1");
    assert!(st.find_session_by_ancestry(&vec![900, 1, 500]).is_none());
    assert!(st.find_session_by_ancestry(&vec![]).is_none());
}

#[test]
fn clock_reading_is_after_2024() {
    assert!(now_usec() > 1_704_067_200_000_000);
}

#[test]
fn create_session_reply_names_the_new_session() {
    let mut st = AppState::new();
    let s = st.create_session(request("", "", 2), "alice".into(), 0);
    let r = session_reply(&s);
    assert_eq!(r.id, "c1");
    assert_eq!(r.object_path, "/org/freedesktop/login1/session/c1");
    assert_eq!(r.runtime_path, "/run/user/1000");
    assert_eq!(r.uid, 1000);
    assert_eq!(r.seat, "seat0");
    assert_eq!(r.vtnr, 2);
    assert!(!r.existing);
    assert_eq!(runtime_path(0), "/run/user/0");
    assert_eq!(runtime_path(u32::MAX), "/run/user/4294967295");
}
