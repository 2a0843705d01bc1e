use ecg::channel::{
    select_log_mode, AttachAttempt, AttachDecision, AttachRetry, ChannelError, LogMode,
    LogSetupError, MAX_ATTACH_ATTEMPTS,
};

#[test]
fn attach_succeeds_on_the_tenth_attempt() {
    let mut r = AttachRetry::new();
    for _ in 0..9 {
        assert!(matches!(r.attempt(AttachAttempt::NotInitialized), AttachDecision::Retry));
    }
    assert!(matches!(
        r.attempt(AttachAttempt::Found { has_up_channel: true }),
        AttachDecision::Attached
    ));
}

#[test]
fn attach_gives_up_after_ten_missing_attempts() {
    let mut r = AttachRetry::new();
    let mut last = AttachDecision::Retry;
    for _ in 0..MAX_ATTACH_ATTEMPTS {
        last = r.attempt(AttachAttempt::NotInitialized);
    }
    assert!(matches!(last, AttachDecision::GiveUp(ChannelError::TransportNotFound)));
}

#[test]
fn other_attach_errors_are_not_retried() {
    let mut r = AttachRetry::new();
    match r.attempt(AttachAttempt::Failed(String::from("probe lost"))) {
        AttachDecision::GiveUp(ChannelError::Transport(cause)) => assert_eq!(cause, "probe lost"),
        other => panic!("unexpected decision {:?}", other),
    }
}

#[test]
fn missing_up_channel_fails() {
    let mut r = AttachRetry::new();
    assert!(matches!(
        r.attempt(AttachAttempt::Found { has_up_channel: false }),
        AttachDecision::GiveUp(ChannelError::UpChannelMissing)
    ));
}

#[test]
fn log_mode_follows_the_channel() {
    let frames = String::from("defmt");
    let other = String::from("Terminal");
    assert_eq!(select_log_mode(Some(&frames), true), Ok(LogMode::Frames));
    assert_eq!(
        select_log_mode(Some(&frames), false),
        Err(LogSetupError::MissingFrameTable)
    );
    assert_eq!(select_log_mode(Some(&other), true), Ok(LogMode::Raw));
    assert_eq!(select_log_mode(Some(&other), false), Ok(LogMode::Raw));
    assert_eq!(select_log_mode(None, true), Ok(LogMode::HaltOnly));
}
