use ecg::deploy::{Command, DeployError, Deployment, Phase};

fn order(names: &[&str]) -> Vec<String> {
    names.iter().map(|n| n.to_string()).collect()
}

#[test]
fn build_then_attach_then_flash_then_start() {
    let mut d = Deployment::new(order(&["A", "B", "C"]));
    let mut commands = Vec::new();
    loop {
        let c = d.next_command();
        commands.push(c);
        if c == Command::Monitor || c == Command::Stop {
            break;
        }
        d.record(Ok(()));
    }
    assert_eq!(
        commands,
        vec![
            Command::Build(0),
            Command::Build(1),
            Command::Build(2),
            Command::Attach,
            Command::Flash(0),
            Command::Flash(1),
            Command::Flash(2),
            Command::Start,
            Command::Monitor,
        ]
    );
    assert_eq!(d.phase(), Phase::Running);
    assert!(d.error().is_none());
}

#[test]
fn failed_build_stops_everything_after_it() {
    let mut d = Deployment::new(order(&["A", "B", "C"]));
    assert_eq!(d.next_command(), Command::Build(0));
    d.record(Ok(()));
    assert_eq!(d.next_command(), Command::Build(1));
    d.record(Err(String::from("linker error")));
    assert_eq!(d.next_command(), Command::Stop);
    assert_eq!(d.phase(), Phase::Failed);
    match d.error() {
        Some(DeployError::BuildFailed { image, cause }) => {
            assert_eq!(image, "B");
            assert_eq!(cause, "linker error");
        }
        other => panic!("unexpected error {:?}", other),
    }
    // Later reports change nothing: C is never built, nothing is flashed.
    d.record(Ok(()));
    assert_eq!(d.next_command(), Command::Stop);
    assert_eq!(d.phase(), Phase::Failed);
}

#[test]
fn attach_failure_is_probe_unavailable() {
    let mut d = Deployment::new(order(&["A"]));
    d.record(Ok(()));
    assert_eq!(d.next_command(), Command::Attach);
    d.record(Err(String::from("no probe")));
    assert!(matches!(d.error(), Some(DeployError::ProbeUnavailable { .. })));
    assert_eq!(d.next_command(), Command::Stop);
}

#[test]
fn flash_failure_names_the_image_and_aborts() {
    let mut d = Deployment::new(order(&["A", "B"]));
    d.record(Ok(()));
    d.record(Ok(()));
    d.record(Ok(()));
    assert_eq!(d.next_command(), Command::Flash(0));
    d.record(Err(String::from("write failed")));
    match d.error() {
        Some(DeployError::FlashWriteFailed { image, .. }) => assert_eq!(image, "A"),
        other => panic!("unexpected error {:?}", other),
    }
    assert_eq!(d.next_command(), Command::Stop);
}

#[test]
fn start_failure_is_target_unresponsive() {
    let mut d = Deployment::new(order(&[]));
    assert_eq!(d.next_command(), Command::Attach);
    d.record(Ok(()));
    assert_eq!(d.next_command(), Command::Start);
    d.record(Err(String::from("timeout")));
    assert!(matches!(d.error(), Some(DeployError::TargetUnresponsive { .. })));
}
