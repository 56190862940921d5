use pyattrs::process_state::{communicate_returncode, reap_step, record_exit, ProcessState, ReapStep};

#[test]
fn poll_asks_the_child_until_an_exit_is_recorded() {
    let mut p = ProcessState { returncode: None, has_child: true };
    assert_eq!(reap_step(&p), ReapStep::AskChild);
    assert_eq!(record_exit(&mut p, Some(3)), 3);
    assert_eq!(reap_step(&p), ReapStep::Recorded(3));
}

#[test]
fn a_signal_records_minus_one() {
    let mut p = ProcessState { returncode: None, has_child: true };
    assert_eq!(record_exit(&mut p, None), -1);
    assert_eq!(p.returncode, Some(-1));
}

#[test]
fn without_a_child_poll_answers_none() {
    let p = ProcessState { returncode: None, has_child: false };
    assert_eq!(reap_step(&p), ReapStep::NoChild);
}

#[test]
fn communicate_gives_up_the_child() {
    let mut p = ProcessState { returncode: None, has_child: true };
    assert_eq!(communicate_returncode(&mut p, Some(Some(Some(0)))), 0);
    assert!(!p.has_child);
    assert_eq!(p.returncode, Some(0));
    assert_eq!(communicate_returncode(&mut p, None), 0);
    let mut q = ProcessState { returncode: None, has_child: true };
    assert_eq!(communicate_returncode(&mut q, Some(None)), -1);
    let mut r = ProcessState { returncode: None, has_child: false };
    assert_eq!(communicate_returncode(&mut r, None), -1);
}
