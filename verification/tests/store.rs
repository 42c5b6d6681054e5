use avatar_backend::{
    debug_info, upload_target, Stage1LoginParams, Stage2LoginParams, State, UserInfo,
};

fn steve() -> UserInfo {
    UserInfo { uuid: 0x8667ba71b85a4004af54457a9734eed7, username: "Steve".to_string() }
}

#[test]
fn default_params_are_empty() {
    assert_eq!(Stage1LoginParams::default().username, "");
    assert_eq!(Stage2LoginParams::default().id, "");
}

#[test]
fn new_store_is_empty() {
    let state = State::new();
    assert_eq!(state.get_pending("deadbeef"), None);
    assert!(state.get_token("deadbeef").is_none());
    assert!(state.pending_ids().is_empty());
    assert!(state.issued_tokens().is_empty());
}

#[test]
fn pending_session_is_found_again() {
    let mut state = State::new();
    state.put_pending("aa".to_string(), "Alice".to_string());
    state.put_pending("bb".to_string(), "Bob".to_string());
    assert_eq!(state.get_pending("aa"), Some(&"Alice".to_string()));
    assert_eq!(state.get_pending("bb"), Some(&"Bob".to_string()));
    assert_eq!(state.get_pending("cc"), None);
    assert_eq!(state.get_pending(""), None);
}

#[test]
fn pending_session_is_overwritten_by_the_same_id() {
    let mut state = State::new();
    state.put_pending("aa".to_string(), "Alice".to_string());
    state.put_pending("bb".to_string(), "Bob".to_string());
    state.put_pending("aa".to_string(), "Carol".to_string());
    assert_eq!(state.get_pending("aa"), Some(&"Carol".to_string()));
    assert_eq!(state.pending_ids(), &vec!["aa".to_string(), "bb".to_string()]);
}

#[test]
fn pending_ids_come_oldest_first() {
    let mut state = State::new();
    state.put_pending("zz".to_string(), "Zoe".to_string());
    state.put_pending("aa".to_string(), "Alice".to_string());
    state.put_pending("mm".to_string(), "Max".to_string());
    assert_eq!(
        state.pending_ids(),
        &vec!["zz".to_string(), "aa".to_string(), "mm".to_string()]
    );
}

#[test]
fn token_is_found_again() {
    let mut state = State::new();
    state.put_token("t1".to_string(), steve());
    let found = state.get_token("t1").unwrap();
    assert_eq!(found.username, "Steve");
    assert_eq!(found.uuid, 0x8667ba71b85a4004af54457a9734eed7);
    assert!(state.get_token("t2").is_none());
}

#[test]
fn tokens_and_sessions_do_not_mix() {
    let mut state = State::new();
    state.put_pending("aa".to_string(), "Alice".to_string());
    state.put_token("bb".to_string(), steve());
    assert!(state.get_token("aa").is_none());
    assert_eq!(state.get_pending("bb"), None);
    assert_eq!(state.issued_tokens(), &vec!["bb".to_string()]);
    assert_eq!(state.pending_ids(), &vec!["aa".to_string()]);
}

#[test]
fn same_identity_can_hold_two_tokens() {
    let mut state = State::new();
    state.put_token("t1".to_string(), steve());
    state.put_token("t2".to_string(), steve());
    assert_eq!(state.get_token("t1").unwrap().username, "Steve");
    assert_eq!(state.get_token("t2").unwrap().username, "Steve");
    assert_eq!(state.issued_tokens().len(), 2);
}

#[test]
fn user_info_clone_keeps_the_fields() {
    let copy = steve().clone();
    assert_eq!(copy.uuid, steve().uuid);
    assert_eq!(copy.username, steve().username);
}

#[test]
fn debug_info_of_an_empty_store() {
    assert_eq!(debug_info(&State::new()), "Server id to username:\nAssigned tokens:\nEnd\n");
}

#[test]
fn debug_info_lists_sessions_then_tokens() {
    let mut state = State::new();
    state.put_pending("aa".to_string(), "Alice".to_string());
    state.put_pending("bb".to_string(), "Bob".to_string());
    state.put_token("t1".to_string(), steve());
    assert_eq!(
        debug_info(&state),
        "Server id to username:\n\
         aa → Alice\n\
         bb → Bob\n\
         Assigned tokens:\n\
         t1 → Steve (8667ba71-b85a-4004-af54-457a9734eed7)\n\
         End\n"
    );
}

#[test]
fn upload_goes_to_the_file_of_the_token_owner() {
    let mut state = State::new();
    state.put_token("t1".to_string(), steve());
    assert_eq!(
        upload_target(&state, "t1"),
        Some("avatars/8667ba71-b85a-4004-af54-457a9734eed7.moon".to_string())
    );
}

#[test]
fn upload_with_an_unknown_token_goes_nowhere() {
    let mut state = State::new();
    state.put_token("t1".to_string(), steve());
    assert_eq!(upload_target(&state, "t2"), None);
    assert_eq!(upload_target(&State::new(), "t1"), None);
}
