//! The debugger: how it is called, what is made of its output, and where the
//! reports go.

use crate::order::texts;
use crate::path::{name_or, shown_name, TestPath, TestView};
use crate::text::{decimal, decimal_text, optional_text};
use vstd::prelude::*;
use vstd::string::*;
use vstd::utf8::*;

verus! {

/// The text that `String::from_utf8_lossy` makes of some bytes.
pub uninterp spec fn utf8_lossy(bytes: Seq<u8>) -> Seq<char>;

/// `String::from_utf8_lossy` turns bytes into a text, which depends on the
/// bytes alone; bytes that are valid UTF-8 keep their meaning, and what is not
/// valid is replaced. What stands for the invalid parts is left to the name.
#[verifier::external_body]
fn text_of_bytes(bytes: &Vec<u8>) -> (text: String)
    ensures
        text@ == utf8_lossy(bytes@),
        valid_utf8(bytes@) ==> text@ == decode_utf8(bytes@),
{
    String::from_utf8_lossy(bytes).into_owned()
}

/// What a process wrote.
#[derive(Debug)]
pub struct Output {
    pub stdout: Vec<u8>,
    pub stderr: Vec<u8>,
}

/// What a process wrote, as text.
pub fn output_texts(output: &Output) -> (both: (String, String))
    ensures
        both.0@ == utf8_lossy(output.stdout@),
        both.1@ == utf8_lossy(output.stderr@),
        valid_utf8(output.stdout@) ==> both.0@ == decode_utf8(output.stdout@),
        valid_utf8(output.stderr@) ==> both.1@ == decode_utf8(output.stderr@),
{
    (text_of_bytes(&output.stdout), text_of_bytes(&output.stderr))
}

/// Both outputs under their headings.
pub open spec fn sections(stdout: Seq<char>, stderr: Seq<char>) -> Seq<char> {
    "STDOUT:\n"@ + stdout + "\nSTDERR:\n"@ + stderr
}

/// Puts both outputs under their headings.
pub fn sections_text(stdout: &str, stderr: &str) -> (text: String)
    ensures
        text@ == sections(stdout@, stderr@),
{
    "STDOUT:\n".to_owned().concat(stdout).concat("\nSTDERR:\n").concat(stderr)
}

/// What is kept of a call of the debugger: its output, or why it did not run.
pub open spec fn transcript(result: Result<Output, String>, failure: Seq<char>) -> Seq<char> {
    match result {
        Ok(output) => sections(utf8_lossy(output.stdout@), utf8_lossy(output.stderr@)),
        Err(error) => failure + error@,
    }
}

/// Writes down a call of the debugger that was to show the threads of a hung
/// process.
pub fn backtrace_transcript(result: &Result<Output, String>) -> (text: String)
    ensures
        text@ == transcript(*result, "Failed to run lldb: "@),
{
    match result {
        Ok(output) => {
            let (stdout, stderr) = output_texts(output);
            sections_text(stdout.as_str(), stderr.as_str())
        },
        Err(error) => "Failed to run lldb: ".to_owned().concat(error.as_str()),
    }
}

/// Writes down a call of the debugger that was to run a crashing test again.
pub fn crash_transcript(result: &Result<Output, String>) -> (text: String)
    ensures
        text@ == transcript(*result, "Failed to run lldb crash: "@),
{
    match result {
        Ok(output) => {
            let (stdout, stderr) = output_texts(output);
            sections_text(stdout.as_str(), stderr.as_str())
        },
        Err(error) => "Failed to run lldb crash: ".to_owned().concat(error.as_str()),
    }
}

/// The arguments that have the debugger save a core, where one is asked for.
pub open spec fn save_core_args(core_path: Option<Seq<char>>) -> Seq<Seq<char>> {
    match core_path {
        Some(path) => seq!["-o"@, "process save-core "@ + path],
        None => Seq::empty(),
    }
}

/// The arguments that show all threads of a process.
pub open spec fn backtrace_args(pid: u32, core_path: Option<Seq<char>>) -> Seq<Seq<char>> {
    seq!["-p"@, decimal(pid as nat), "--batch"@, "-o"@, "thread backtrace all"@] + save_core_args(
        core_path,
    ) + seq!["-o"@, "quit"@]
}

/// The arguments that run a binary and show all threads where it stops.
pub open spec fn crash_args(binary: Seq<char>, core_path: Option<Seq<char>>) -> Seq<Seq<char>> {
    seq!["--batch"@, "-o"@, "run"@, "-o"@, "thread backtrace all"@] + save_core_args(core_path)
        + seq!["-o"@, "quit"@, "--"@, binary]
}

/// The arguments that show all threads of a process.
pub fn backtrace_arg_list(pid: u32, core_path: &Option<String>) -> (args: Vec<String>)
    ensures
        texts(args@) == backtrace_args(pid, optional_text(*core_path)),
{
    let mut args: Vec<String> = Vec::new();
    args.push("-p".to_owned());
    args.push(decimal_text(pid as u64));
    args.push("--batch".to_owned());
    args.push("-o".to_owned());
    args.push("thread backtrace all".to_owned());
    if let Some(path) = core_path {
        args.push("-o".to_owned());
        args.push("process save-core ".to_owned().concat(path.as_str()));
    }
    args.push("-o".to_owned());
    args.push("quit".to_owned());
    proof {
        assert(texts(args@) =~= backtrace_args(pid, optional_text(*core_path)));
    }
    args
}

/// The arguments that run a binary and show all threads where it stops.
pub fn crash_arg_list(binary: &str, core_path: &Option<String>) -> (args: Vec<String>)
    ensures
        texts(args@) == crash_args(binary@, optional_text(*core_path)),
{
    let mut args: Vec<String> = Vec::new();
    args.push("--batch".to_owned());
    args.push("-o".to_owned());
    args.push("run".to_owned());
    args.push("-o".to_owned());
    args.push("thread backtrace all".to_owned());
    if let Some(path) = core_path {
        args.push("-o".to_owned());
        args.push("process save-core ".to_owned().concat(path.as_str()));
    }
    args.push("-o".to_owned());
    args.push("quit".to_owned());
    args.push("--".to_owned());
    args.push(binary.to_owned());
    proof {
        assert(texts(args@) =~= crash_args(binary@, optional_text(*core_path)));
    }
    args
}

/// A file of the report directory, named after its kind, a test and a moment.
pub open spec fn report_file(
    dir: Seq<char>,
    kind: Seq<char>,
    file_name: Seq<char>,
    stamp: Seq<char>,
    extension: Seq<char>,
) -> Seq<char> {
    dir + "/"@ + kind + "_"@ + file_name + "_"@ + stamp + "."@ + extension
}

/// Names a file of the report directory.
pub fn report_file_path(dir: &str, kind: &str, file_name: &str, stamp: &str, extension: &str) -> (path:
    String)
    ensures
        path@ == report_file(dir@, kind@, file_name@, stamp@, extension@),
{
    dir.to_owned().concat("/").concat(kind).concat("_").concat(file_name).concat("_").concat(
        stamp,
    ).concat(".").concat(extension)
}

/// The debugger's rerun of a test that failed.
#[derive(Debug)]
pub struct CrashJob {
    /// The debugger.
    pub lldb_path: String,
    /// The debugger's arguments.
    pub args: Vec<String>,
    /// The directory of the report.
    pub report_dir: String,
    /// The report.
    pub report_path: String,
    /// What is logged once the report is written.
    pub saved_message: String,
}

impl CrashJob {
    /// The job reruns `test` and files its report under `stamp`.
    pub open spec fn is_for(
        &self,
        lldb_path: Seq<char>,
        report_dir: Seq<char>,
        test: TestView,
        stamp: Seq<char>,
    ) -> bool {
        let file_name = name_or(test, "unknown"@);
        let core = report_file(report_dir, "core_crash"@, file_name, stamp, "core"@);
        let report = report_file(report_dir, "crash"@, file_name, stamp, "log"@);
        &&& self.lldb_path@ == lldb_path
        &&& texts(self.args@) == crash_args(test.path, Some(core))
        &&& self.report_dir@ == report_dir
        &&& self.report_path@ == report
        &&& self.saved_message@ == "Crash BT for "@ + file_name + " saved to "@ + report
            + " (Core: "@ + core + ")"@
    }

    /// Plans the rerun of a test that failed.
    pub fn plan(lldb_path: &str, report_dir: &str, test: &TestPath, stamp: &str) -> (job: CrashJob)
        ensures
            job.is_for(lldb_path@, report_dir@, test@, stamp@),
    {
        let file_name = test.name_or_text("unknown");
        let core = report_file_path(report_dir, "core_crash", file_name.as_str(), stamp, "core");
        let report = report_file_path(report_dir, "crash", file_name.as_str(), stamp, "log");
        let saved_message = "Crash BT for ".to_owned().concat(file_name.as_str()).concat(
            " saved to ",
        ).concat(report.as_str()).concat(" (Core: ").concat(core.as_str()).concat(")");
        let core_path = Some(core);
        CrashJob {
            lldb_path: lldb_path.to_owned(),
            args: crash_arg_list(test.path.as_str(), &core_path),
            report_dir: report_dir.to_owned(),
            report_path: report,
            saved_message,
        }
    }
}

/// What is left to do once a hang is confirmed.
#[derive(Debug)]
pub struct HangReport {
    /// The directory of the report.
    pub report_dir: String,
    /// The report.
    pub report_path: String,
    /// What the report holds.
    pub contents: String,
    /// What is printed.
    pub console: String,
}

/// The line that names the core, where there is one.
pub open spec fn core_line(core_path: Option<Seq<char>>) -> Seq<char> {
    match core_path {
        Some(path) => "Core dump written to: "@ + path + "\n"@,
        None => ""@,
    }
}

/// What is printed of a confirmed hang.
pub open spec fn hang_console(
    test: TestView,
    report_path: Seq<char>,
    backtrace: Seq<char>,
    core_path: Option<Seq<char>>,
) -> Seq<char> {
    "\n========================================================\n"@ + "[CONFIRMED HANG] Test '"@
        + shown_name(test) + "' hung!\n"@ + "Executable path: "@ + test.path
        + "\n"@ + "Report written to: "@ + report_path + "\n"@ + core_line(core_path)
        + "========================================================\n\n"@
        + "LLDB Thread Backtrace:\n"@ + backtrace + "\n"@
}

impl HangReport {
    /// The report of a hang of `test`, filed under `stamp`.
    pub open spec fn is_for(
        &self,
        report_dir: Seq<char>,
        test: TestView,
        stamp: Seq<char>,
        backtrace: Seq<char>,
        core_path: Option<Seq<char>>,
    ) -> bool {
        &&& self.report_dir@ == report_dir
        &&& self.report_path@ == report_file(
            report_dir,
            "hang"@,
            shown_name(test),
            stamp,
            "log"@,
        )
        &&& self.contents@ == backtrace
        &&& self.console@ == hang_console(test, self.report_path@, backtrace, core_path)
    }

    /// Writes the report of a confirmed hang.
    pub fn compose(
        report_dir: &str,
        test: &TestPath,
        stamp: &str,
        backtrace: String,
        core_path: &Option<String>,
    ) -> (report: HangReport)
        ensures
            report.is_for(report_dir@, test@, stamp@, backtrace@, optional_text(*core_path)),
    {
        let file_name = test.shown_text();
        let report_path = report_file_path(report_dir, "hang", file_name.as_str(), stamp, "log");
        let core = match core_path {
            Some(path) => "Core dump written to: ".to_owned().concat(path.as_str()).concat("\n"),
            None => "".to_owned(),
        };
        let console = "\n========================================================\n".to_owned().concat(
            "[CONFIRMED HANG] Test '",
        ).concat(file_name.as_str()).concat("' hung!\n").concat("Executable path: ").concat(
            test.path.as_str(),
        ).concat("\n").concat("Report written to: ").concat(report_path.as_str()).concat(
            "\n",
        ).concat(core.as_str()).concat(
            "========================================================\n\n",
        ).concat("LLDB Thread Backtrace:\n").concat(backtrace.as_str()).concat("\n");
        HangReport { report_dir: report_dir.to_owned(), report_path, contents: backtrace, console }
    }
}

/// Every report and every core lies in the report directory.
pub proof fn law_reports_lie_in_their_directory(
    dir: Seq<char>,
    kind: Seq<char>,
    file_name: Seq<char>,
    stamp: Seq<char>,
    extension: Seq<char>,
)
    ensures
        report_file(dir, kind, file_name, stamp, extension).len() > dir.len(),
        report_file(dir, kind, file_name, stamp, extension).take(dir.len() as int) == dir,
        report_file(dir, kind, file_name, stamp, extension)[dir.len() as int] == '/',
{
    reveal_strlit("/");
    assert(report_file(dir, kind, file_name, stamp, extension).take(dir.len() as int) =~= dir);
}

/// At one moment, reports of the same kind on tests of different names are
/// different files.
pub proof fn law_reports_of_different_tests_differ(
    dir: Seq<char>,
    kind: Seq<char>,
    a: Seq<char>,
    b: Seq<char>,
    stamp: Seq<char>,
    extension: Seq<char>,
)
    requires
        a != b,
    ensures
        report_file(dir, kind, a, stamp, extension) != report_file(dir, kind, b, stamp, extension),
{
    let x = report_file(dir, kind, a, stamp, extension);
    let y = report_file(dir, kind, b, stamp, extension);
    let start = (dir + "/"@ + kind + "_"@).len() as int;
    if x == y {
        let rest = ("_"@ + stamp + "."@ + extension).len();
        assert(x.len() == start + a.len() + rest);
        assert(y.len() == start + b.len() + rest);
        assert(x.subrange(start, start + a.len()) =~= a);
        assert(y.subrange(start, start + b.len()) =~= b);
    }
}

} // verus!
