use axactor::{AskError, SpawnError, TellError};

#[test]
fn tell_errors_become_ask_errors() {
    assert_eq!(AskError::from(TellError::Full), AskError::Full);
    assert_eq!(AskError::from(TellError::Closed), AskError::Closed);
}

#[test]
fn ask_errors_are_reported() {
    assert_eq!(AskError::Full.into_response(), (503, "Mailbox full".to_string()));
    assert_eq!(AskError::Closed.into_response(), (503, "Actor closed".to_string()));
    assert_eq!(AskError::Timeout.into_response(), (504, "Request timed out".to_string()));
    assert_eq!(AskError::Canceled.into_response(), (500, "Response canceled".to_string()));
}

#[test]
fn tell_errors_are_reported_as_ask_errors_are() {
    for e in [TellError::Full, TellError::Closed] {
        assert_eq!(e.into_response(), AskError::from(e).into_response());
        assert_eq!(e.into_response().1, e.message());
    }
}

#[test]
fn spawn_errors_have_their_texts() {
    assert_eq!(
        SpawnError::NameTaken("a".to_string()).message(),
        "Actor name already exists: a"
    );
    assert_eq!(
        SpawnError::NotRestartable.message(),
        "spawn(actor, ..) cannot restart; use spawn_with(...) for restart policies"
    );
    assert_eq!(SpawnError::ShuttingDown.message(), "system is shutting down");
}
