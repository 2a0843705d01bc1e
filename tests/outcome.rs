use ecg::outcome::{classify, run_monitor, LoopExit, Monitor, Outcome, PollEvent, Unwind};

use PollEvent::{Cancelled, Polled, ReadFailed};

#[test]
fn cancel_before_halt_is_user_cancelled() {
    let events = vec![
        Polled { halted: false },
        Cancelled,
        Polled { halted: true },
        Polled { halted: true },
    ];
    assert_eq!(run_monitor(&events), Some(LoopExit::Cancelled));
    let mut m = Monitor::new();
    for e in events {
        m.step(e);
    }
    assert!(m.halted_due_to_signal());
    assert_eq!(classify(m.halted_due_to_signal(), false, Unwind::Clean), Outcome::UserCancelled);
}

#[test]
fn touched_canary_without_fault_is_stack_overflow() {
    assert_eq!(classify(false, true, Unwind::Clean), Outcome::StackOverflow);
    assert_eq!(classify(true, true, Unwind::Clean), Outcome::StackOverflow);
}

#[test]
fn verdict_table() {
    assert_eq!(classify(false, false, Unwind::Clean), Outcome::Success);
    assert_eq!(classify(false, false, Unwind::HardFault), Outcome::Fault);
    assert_eq!(classify(true, false, Unwind::HardFault), Outcome::Fault);
    assert_eq!(classify(false, false, Unwind::StackOverflow), Outcome::StackOverflow);
    assert_eq!(classify(true, false, Unwind::Clean), Outcome::UserCancelled);
}

#[test]
fn one_halted_poll_is_not_trusted() {
    let events = vec![Polled { halted: true }, Polled { halted: false }, Polled { halted: true }];
    assert_eq!(run_monitor(&events), None);
}

#[test]
fn two_halted_polls_end_the_loop() {
    let mut m = Monitor::new();
    assert_eq!(m.step(Polled { halted: false }), None);
    assert_eq!(m.step(Polled { halted: true }), None);
    assert_eq!(m.step(Polled { halted: true }), Some(LoopExit::Halted));
    assert!(!m.halted_due_to_signal());
    // A cancellation after the loop ended changes nothing.
    assert_eq!(m.step(Cancelled), Some(LoopExit::Halted));
}

#[test]
fn transport_fault_ends_the_loop() {
    assert_eq!(
        run_monitor(&vec![Polled { halted: false }, ReadFailed, Cancelled]),
        Some(LoopExit::TransportError)
    );
}

#[test]
fn repeated_cancellation_is_one_cancellation() {
    assert_eq!(run_monitor(&vec![Cancelled, Cancelled]), Some(LoopExit::Cancelled));
}

#[test]
fn exit_codes_differ() {
    let all = [Outcome::Success, Outcome::UserCancelled, Outcome::StackOverflow, Outcome::Fault];
    let codes: Vec<u8> = all.iter().map(|o| o.exit_code()).collect();
    assert_eq!(codes, vec![0, 130, 134, 135]);
    assert_eq!(Outcome::Success.summary(), "device halted without error");
    assert_eq!(Outcome::Fault.summary(), "the program hit a hard fault");
}
