use integration_aggressor::debugger::{
    backtrace_arg_list, backtrace_transcript, crash_arg_list, crash_transcript, output_texts,
    report_file_path, sections_text, CrashJob, HangReport, Output,
};
use integration_aggressor::path::TestPath;

fn test_at(path: &str) -> TestPath {
    TestPath::of(path.to_string())
}

fn output(stdout: &[u8], stderr: &[u8]) -> Output {
    Output {
        stdout: stdout.to_vec(),
        stderr: stderr.to_vec(),
    }
}

#[test]
fn output_that_is_no_text_is_replaced() {
    let (out, err) = output_texts(&output(b"a\xffb", "gr\u{fc}n".as_bytes()));
    assert_eq!(out, "a\u{fffd}b");
    assert_eq!(err, "gr\u{fc}n");
}

#[test]
fn both_outputs_have_headings() {
    assert_eq!(sections_text("o", "e"), "STDOUT:\no\nSTDERR:\ne");
}

#[test]
fn transcripts_hold_output_or_error() {
    let ran = Ok(output(b"out", b"err\xff"));
    let text = "STDOUT:\nout\nSTDERR:\nerr\u{fffd}";
    assert_eq!(backtrace_transcript(&ran), text);
    assert_eq!(crash_transcript(&ran), text);
    let failed = Err("no such file".to_string());
    assert_eq!(
        backtrace_transcript(&failed),
        "Failed to run lldb: no such file"
    );
    assert_eq!(
        crash_transcript(&failed),
        "Failed to run lldb crash: no such file"
    );
}

#[test]
fn the_debugger_attaches_to_a_process() {
    assert_eq!(
        backtrace_arg_list(42, &Some("r/c.core".to_string())),
        vec![
            "-p",
            "42",
            "--batch",
            "-o",
            "thread backtrace all",
            "-o",
            "process save-core r/c.core",
            "-o",
            "quit",
        ]
    );
    assert_eq!(
        backtrace_arg_list(1, &None),
        vec!["-p", "1", "--batch", "-o", "thread backtrace all", "-o", "quit"]
    );
}

#[test]
fn the_debugger_runs_a_binary() {
    assert_eq!(
        crash_arg_list("/t/a", &Some("r/c.core".to_string())),
        vec![
            "--batch",
            "-o",
            "run",
            "-o",
            "thread backtrace all",
            "-o",
            "process save-core r/c.core",
            "-o",
            "quit",
            "--",
            "/t/a",
        ]
    );
    assert_eq!(
        crash_arg_list("/t/a", &None),
        vec!["--batch", "-o", "run", "-o", "thread backtrace all", "-o", "quit", "--", "/t/a"]
    );
}

#[test]
fn report_files_are_named_after_test_and_moment() {
    assert_eq!(
        report_file_path("reports", "hang", "a.__build__", "20240102_030405", "log"),
        "reports/hang_a.__build___20240102_030405.log"
    );
    assert!(report_file_path("r", "hang", "a", "s", "log")
        != report_file_path("r", "hang", "b", "s", "log"));
}

#[test]
fn a_failed_test_is_rerun() {
    let job = CrashJob::plan("lldb", "reports", &test_at("/t/a"), "20240102_030405");
    assert_eq!(job.lldb_path, "lldb");
    assert_eq!(job.report_dir, "reports");
    assert_eq!(job.report_path, "reports/crash_a_20240102_030405.log");
    assert_eq!(
        job.args[6],
        "process save-core reports/core_crash_a_20240102_030405.core"
    );
    assert_eq!(job.args[10], "/t/a");
    assert_eq!(
        job.saved_message,
        "Crash BT for a saved to reports/crash_a_20240102_030405.log \
         (Core: reports/core_crash_a_20240102_030405.core)"
    );
    let nameless = CrashJob::plan("lldb", "r", &test_at("/"), "s");
    assert_eq!(nameless.report_path, "r/crash_unknown_s.log");
}

#[test]
fn a_hang_is_reported() {
    let report = HangReport::compose(
        "r",
        &test_at("/t/a"),
        "s",
        "frames".to_string(),
        &Some("r/a.core".to_string()),
    );
    assert_eq!(report.report_path, "r/hang_a_s.log");
    assert_eq!(report.contents, "frames");
    assert_eq!(
        report.console,
        "\n========================================================\n\
         [CONFIRMED HANG] Test 'a' hung!\n\
         Executable path: /t/a\n\
         Report written to: r/hang_a_s.log\n\
         Core dump written to: r/a.core\n\
         ========================================================\n\n\
         LLDB Thread Backtrace:\nframes\n"
    );
    let without = HangReport::compose("r", &test_at("/t/a"), "s", String::new(), &None);
    assert!(!without.console.contains("Core dump"));
}
