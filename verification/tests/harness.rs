use theta::{fault_report, header_line, ok_line, start_line, test_runner, Harness, QemuExitCode};
use theta::decimal::usize_to_string;

#[test]
fn decimal_rendering() {
    assert_eq!(usize_to_string(0), "0");
    assert_eq!(usize_to_string(7), "7");
    assert_eq!(usize_to_string(10), "10");
    assert_eq!(usize_to_string(42), "42");
    assert_eq!(usize_to_string(100), "100");
    assert_eq!(usize_to_string(12345), "12345");
    assert_eq!(usize_to_string(usize::MAX), format!("{}", usize::MAX));
}

#[test]
fn exit_codes_on_the_wire() {
    assert_eq!(QemuExitCode::Success.code(), 0x10);
    assert_eq!(QemuExitCode::Failed.code(), 0x11);
    assert_ne!(QemuExitCode::Success, QemuExitCode::Failed);
}

#[test]
fn transcript_lines() {
    assert_eq!(header_line(0), "Running 0 tests\n");
    assert_eq!(header_line(3), "Running 3 tests\n");
    assert_eq!(start_line("trivial_assertion"), "trivial_assertion...\t");
    assert_eq!(ok_line(), "[ok]\n");
}

#[test]
fn zero_probes_reports_zero_and_succeeds() {
    // a run with no probes announces a count of 0 and signals success at once
    let (transcript, code) = test_runner(&Vec::new());
    assert_eq!(transcript, "Running 0 tests\n");
    assert_eq!(code, QemuExitCode::Success);
}

#[test]
fn one_passing_probe_reports_one_ok_line() {
    let (transcript, code) = test_runner(&vec![String::from("trivial_assertion")]);
    assert_eq!(
        transcript,
        "Running 1 tests\ntrivial_assertion...\t[ok]\n"
    );
    assert_eq!(transcript.matches("[ok]").count(), 1);
    assert_eq!(code, QemuExitCode::Success);
}

#[test]
fn three_passing_probes_in_order() {
    let names = vec![
        String::from("first"),
        String::from("second"),
        String::from("third"),
    ];
    let (transcript, code) = test_runner(&names);
    assert_eq!(
        transcript,
        "Running 3 tests\nfirst...\t[ok]\nsecond...\t[ok]\nthird...\t[ok]\n"
    );
    assert_eq!(code, QemuExitCode::Success);
}

#[test]
fn fault_pathway_reports_failure() {
    let (lines, code) = fault_report("panicked at 'assertion failed'");
    assert_eq!(
        lines,
        "[failed]\n\nError: panicked at 'assertion failed'\n\n"
    );
    assert_eq!(code, QemuExitCode::Failed);
}

#[test]
fn failing_probe_ends_the_run_without_success() {
    // drive the harness as the runner does: the first probe faults, so the
    // run diverts to the fault pathway and the second probe never starts
    let names = vec![String::from("bad_probe"), String::from("never_reached")];
    let (mut h, header) = Harness::new(names);
    assert_eq!(header, "Running 2 tests\n");
    let announced = h.start_next();
    assert_eq!(announced, "bad_probe...\t");
    // the probe does not return: the driver reports and signals failure
    let (lines, code) = fault_report("probe provoked an unrecoverable fault");
    assert!(lines.starts_with("[failed]\n"));
    assert_eq!(code, QemuExitCode::Failed);
    // the harness can never issue the success outcome for this run
    assert_eq!(h.outcome(), None);
    assert_eq!(h.remaining(), 2);
}

#[test]
fn probe_surviving_recoverable_exception_counts_as_passed() {
    // a probe that provokes a breakpoint exception and resumes afterwards
    // returns normally; the harness sees an ordinary pass
    let (mut h, header) = Harness::new(vec![String::from("breakpoint_exception")]);
    assert_eq!(header, "Running 1 tests\n");
    let announced = h.start_next();
    assert_eq!(announced, "breakpoint_exception...\t");
    // the probe runs here: it traps, the dispatch table resumes it, it returns
    let ok = h.probe_passed();
    assert_eq!(ok, "[ok]\n");
    assert_eq!(h.outcome(), Some(QemuExitCode::Success));
}

#[test]
fn stack_exhaustion_reaches_the_fault_pathway() {
    // a probe that exhausts the execution stack never returns; the double
    // fault is redirected and the environment ends in the fault pathway
    let (mut h, _header) = Harness::new(vec![String::from("stack_overflow")]);
    let _announced = h.start_next();
    let (lines, code) = fault_report("double fault: stack exhausted");
    assert_eq!(lines, "[failed]\n\nError: double fault: stack exhausted\n\n");
    assert_eq!(code, QemuExitCode::Failed);
    assert_eq!(h.outcome(), None);
}

#[test]
fn stepwise_run_matches_the_whole_run() {
    let names = vec![String::from("alpha"), String::from("beta")];
    let (mut h, header) = Harness::new(names.clone());
    let mut transcript = header;
    while h.remaining() > 0 {
        transcript.push_str(&h.start_next());
        // the probe returns normally
        transcript.push_str(&h.probe_passed());
    }
    assert_eq!(h.outcome(), Some(QemuExitCode::Success));
    let (whole, code) = test_runner(&names);
    assert_eq!(transcript, whole);
    assert_eq!(code, QemuExitCode::Success);
}
