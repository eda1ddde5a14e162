use gnos::task_runner::{outcome_of, FailurePolicy, Outcome, SHUTDOWN_STATUS};

fn s(x: &str) -> String {
    String::from(x)
}

#[test]
fn outcomes_by_policy() {
    let ignore: FailurePolicy<u8, u8> = FailurePolicy::IgnoreFailures;
    assert!(matches!(outcome_of(&ignore, None), Outcome::Nothing));
    match outcome_of(&ignore, Some(s("line one\nline two"))) {
        Outcome::Log(lines) => assert_eq!(lines, vec![s("line one"), s("line two")]),
        _ => panic!("expected the error to be logged"),
    }
    let notify: FailurePolicy<u8, u8> = FailurePolicy::NotifyOnFailure(1);
    assert!(matches!(outcome_of(&notify, Some(s("bad"))), Outcome::Notify(m) if m == "bad"));
    assert!(matches!(outcome_of(&notify, None), Outcome::Nothing));
    let on_exit: FailurePolicy<u8, u8> = FailurePolicy::NotifyOnExit(2);
    assert!(matches!(outcome_of(&on_exit, None), Outcome::NotifyExit(None)));
    assert!(matches!(outcome_of(&on_exit, Some(s("x"))), Outcome::NotifyExit(Some(m)) if m == "x"));
    let shutdown: FailurePolicy<u8, u8> = FailurePolicy::ShutdownOnFailure;
    assert!(matches!(outcome_of(&shutdown, Some(s("fatal"))), Outcome::Shutdown(m) if m == "fatal"));
    assert!(matches!(outcome_of(&shutdown, None), Outcome::Nothing));
    assert_eq!(SHUTDOWN_STATUS, 3);
}
