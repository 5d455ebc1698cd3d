use dystellar_launcher::json::{parse_json, to_compact_text};
use dystellar_launcher::session::{
    authorize_url, browser_error, check_login_session, connection_error, login_existing_body,
    login_existing_failure, login_existing_outcome, login_poll_path, login_session_body, begin_login,
    poll_outcome, poll_request_error, session_from_json, PollOutcome,
};

const FULL: &str = r#"{"ok": true, "authenticated": true, "uuid": "u", "username": "steve", "minecraft_token": "mc", "access_token": "at", "refresh_token": "rt", "uhs": "h"}"#;

#[test]
fn session_reads_all_six_members() {
    let s = session_from_json(&parse_json(FULL).unwrap()).unwrap();
    assert_eq!(s.get_uuid(), "u");
    assert_eq!(s.get_username(), "steve");
    assert_eq!(s.get_minecraft_token(), "mc");
    assert_eq!(s.get_access_token(), "at");
    assert_eq!(s.get_refresh_token(), "rt");
    assert_eq!(s.uhs, "h");
    let missing = FULL.replace("\"uhs\": \"h\"", "\"uhs\": 3");
    assert!(session_from_json(&parse_json(&missing).unwrap()).is_none());
}

#[test]
fn login_existing_answers() {
    assert!(login_existing_outcome(&parse_json(FULL).unwrap()).is_ok());
    let err = login_existing_outcome(&parse_json("{}").unwrap()).unwrap_err();
    assert_eq!(err, "Failed to process session: Malformed or incomplete data, please contact support.");
    assert_eq!(login_existing_failure("timeout"), "Failed to login: timeout");
    let body = login_existing_body("a", "r");
    assert_eq!(to_compact_text(&body), r#"{"access_token":"a","refresh_token":"r"}"#);
}

#[test]
fn poll_pending_then_logged_in() {
    let pending = parse_json(r#"{"ok": true, "authenticated": false}"#).unwrap();
    assert!(matches!(poll_outcome(&pending), PollOutcome::Pending));
    let no_flag = parse_json(r#"{"ok": true}"#).unwrap();
    assert!(matches!(poll_outcome(&no_flag), PollOutcome::Pending));
    match poll_outcome(&parse_json(FULL).unwrap()) {
        PollOutcome::LoggedIn(s) => assert_eq!(s.username, "steve"),
        other => panic!("unexpected {:?}", other),
    }
}

#[test]
fn poll_failures() {
    match poll_outcome(&parse_json(r#"{"ok": false, "error": "denied"}"#).unwrap()) {
        PollOutcome::Failed(e) => {
            assert_eq!(e.title, "Server Error");
            assert_eq!(e.description, "Login failed: denied. Please contact support.");
        }
        other => panic!("unexpected {:?}", other),
    }
    match poll_outcome(&parse_json(r#"{"authenticated": true}"#).unwrap()) {
        PollOutcome::Failed(e) => assert_eq!(e.description, "Login failed: Cannot provide error message. Please contact support."),
        other => panic!("unexpected {:?}", other),
    }
    match poll_outcome(&parse_json(r#"{"ok": true, "authenticated": true, "uuid": "u"}"#).unwrap()) {
        PollOutcome::Failed(e) => {
            assert_eq!(e.title, "Session Error");
            assert_eq!(e.description, "Data received from server is incomplete. Please contact support.");
        }
        other => panic!("unexpected {:?}", other),
    }
    let e = poll_request_error("dns");
    assert_eq!(e.title, "Fatal Error");
    assert_eq!(e.description, "Failed to check login status: dns \nIs your internet down?");
    let e = browser_error("none");
    assert_eq!((e.title, e.description.as_str()), ("System Error", "Failed to open browser: none"));
}

#[test]
fn login_session_check() {
    assert!(check_login_session(&parse_json(r#"{"ok": true}"#).unwrap()).is_ok());
    let e = check_login_session(&parse_json(r#"{"ok": false}"#).unwrap()).unwrap_err();
    assert_eq!(e.title, "Server Error");
    assert_eq!(e.description, "An unexpected error occured: Unknown Error\nplease try again later.\nSorry for the inconvenience.");
    let e = check_login_session(&parse_json(r#"{"error": "busy"}"#).unwrap()).unwrap_err();
    assert!(e.description.starts_with("An unexpected error occured: busy\n"));
    let c = connection_error();
    assert_eq!(c.title, "Connection Error");
    assert_eq!(to_compact_text(&login_session_body("id")), r#"{"uuid":"id"}"#);
}

#[test]
fn addresses() {
    assert_eq!(
        authorize_url("https://api.example.com", "CID", "st"),
        "https://login.microsoftonline.com/consumers/oauth2/v2.0/authorize?client_id=CID&response_type=code&redirect_uri=https://api.example.com/api/microsoft/callback&scope=XboxLive.signin%20offline_access&state=st"
    );
    assert_eq!(login_poll_path("abc"), "/api/microsoft/login?uuid=abc");
}

#[test]
fn login_ids_are_hyphenated_and_fresh() {
    let (a, body) = begin_login();
    let (b, _) = begin_login();
    assert_ne!(a, b);
    assert_eq!(to_compact_text(&body), format!("{{\"uuid\":\"{}\"}}", a));
    assert_eq!(a.len(), 36);
    assert_eq!(a.as_bytes()[14], b'4');
    assert!(matches!(a.as_bytes()[19], b'8' | b'9' | b'a' | b'b'));
    for (i, c) in a.chars().enumerate() {
        if [8, 13, 18, 23].contains(&i) {
            assert_eq!(c, '-');
        } else {
            assert!(c.is_ascii_hexdigit() && !c.is_ascii_uppercase());
        }
    }
}
