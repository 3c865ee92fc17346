//! What holds of the debugger's arguments, and of reports.

use crate::debugger::{
    backtrace_args, crash_args, report_file, sections, transcript, utf8_lossy, CrashJob,
    HangReport, Output,
};
use crate::order::texts;
use crate::path::TestView;
use crate::text_laws::{all_digits, law_decimals_are_read_back, number_of};
use vstd::prelude::*;
use vstd::string::*;

verus! {

/// The debugger is attached to the process of the number that it is given, shows
/// all threads, saves a core where one is asked for, and only then quits.
pub proof fn law_the_debugger_attaches(pid: u32, core: Option<Seq<char>>)
    ensures
        ({
            let args = backtrace_args(pid, core);
            let n = args.len() as int;
            &&& n == if core is Some {
                9int
            } else {
                7
            }
            &&& args[0] == "-p"@
            &&& all_digits(args[1])
            &&& number_of(args[1]) == pid
            &&& args[2] == "--batch"@
            &&& args[3] == "-o"@
            &&& args[4] == "thread backtrace all"@
            &&& core matches Some(path) ==> args[5] == "-o"@ && args[6] == "process save-core "@
                + path
            &&& args[n - 2] == "-o"@
            &&& args[n - 1] == "quit"@
        }),
{
    law_decimals_are_read_back(pid as nat);
}

/// The debugger runs the binary that it is given, shows all threads where it
/// stops, saves a core where one is asked for, and only then quits.
pub proof fn law_the_debugger_reruns(binary: Seq<char>, core: Option<Seq<char>>)
    ensures
        ({
            let args = crash_args(binary, core);
            let n = args.len() as int;
            &&& n == if core is Some {
                11int
            } else {
                9
            }
            &&& args[0] == "--batch"@
            &&& args[1] == "-o"@
            &&& args[2] == "run"@
            &&& args[3] == "-o"@
            &&& args[4] == "thread backtrace all"@
            &&& core matches Some(path) ==> args[5] == "-o"@ && args[6] == "process save-core "@
                + path
            &&& args[n - 4] == "-o"@
            &&& args[n - 3] == "quit"@
            &&& args[n - 2] == "--"@
            &&& args[n - 1] == binary
        }),
{
}

/// A transcript holds both outputs, each whole and behind its own heading; where
/// the debugger did not run, it ends with the reason.
pub proof fn law_transcripts_hold_all_output(
    stdout: Seq<char>,
    stderr: Seq<char>,
    output: Output,
    error: String,
    failure: Seq<char>,
)
    ensures
        ({
            let text = sections(stdout, stderr);
            let first = "STDOUT:\n"@.len() as int;
            let second = "\nSTDERR:\n"@.len() as int;
            &&& text.len() == first + stdout.len() + second + stderr.len()
            &&& text.take(first) == "STDOUT:\n"@
            &&& text.subrange(first, first + stdout.len()) == stdout
            &&& text.subrange(first + stdout.len(), first + stdout.len() + second)
                == "\nSTDERR:\n"@
            &&& text.skip(first + stdout.len() + second) == stderr
        }),
        transcript(Ok(output), failure) == sections(
            utf8_lossy(output.stdout@),
            utf8_lossy(output.stderr@),
        ),
        transcript(Err(error), failure).take(failure.len() as int) == failure,
        transcript(Err(error), failure).skip(failure.len() as int) == error@,
{
    let text = sections(stdout, stderr);
    let first = "STDOUT:\n"@.len() as int;
    let second = "\nSTDERR:\n"@.len() as int;
    assert(text.take(first) =~= "STDOUT:\n"@);
    assert(text.subrange(first, first + stdout.len()) =~= stdout);
    assert(text.subrange(first + stdout.len(), first + stdout.len() + second) =~= "\nSTDERR:\n"@);
    assert(text.skip(first + stdout.len() + second) =~= stderr);
    assert(transcript(Err(error), failure).take(failure.len() as int) =~= failure);
    assert(transcript(Err(error), failure).skip(failure.len() as int) =~= error@);
}

/// What a report file is named after can be read off its path, behind the
/// directory.
pub proof fn law_report_files_tell_what_they_are(
    dir: Seq<char>,
    kind: Seq<char>,
    name: Seq<char>,
    stamp: Seq<char>,
    extension: Seq<char>,
)
    ensures
        ({
            let path = report_file(dir, kind, name, stamp, extension);
            let a = (dir.len() + 1) as int;
            let b = (a + kind.len() + 1) as int;
            let c = (b + name.len() + 1) as int;
            let d = (c + stamp.len() + 1) as int;
            &&& path.len() == d + extension.len()
            &&& path.take(a - 1) == dir
            &&& path[a - 1] == '/'
            &&& path.subrange(a, b - 1) == kind
            &&& path[b - 1] == '_'
            &&& path.subrange(b, c - 1) == name
            &&& path[c - 1] == '_'
            &&& path.subrange(c, d - 1) == stamp
            &&& path[d - 1] == '.'
            &&& path.skip(d) == extension
        }),
{
    reveal_strlit("/");
    reveal_strlit("_");
    reveal_strlit(".");
    let path = report_file(dir, kind, name, stamp, extension);
    let a = (dir.len() + 1) as int;
    let b = (a + kind.len() + 1) as int;
    let c = (b + name.len() + 1) as int;
    let d = (c + stamp.len() + 1) as int;
    assert(path.take(a - 1) =~= dir);
    assert(path.subrange(a, b - 1) =~= kind);
    assert(path.subrange(b, c - 1) =~= name);
    assert(path.subrange(c, d - 1) =~= stamp);
    assert(path.skip(d) =~= extension);
}

/// A failed test is rerun by the debugger that is asked for, as the very binary
/// that failed; the report and the core lie in the report directory, are two
/// files, and carry the name of the test and the moment.
pub proof fn law_reruns_are_of_the_failed_test(
    job: CrashJob,
    lldb_path: Seq<char>,
    report_dir: Seq<char>,
    test: TestView,
    stamp: Seq<char>,
    name: Seq<char>,
)
    requires
        job.is_for(lldb_path, report_dir, test, stamp),
        test.file_name == Some(name) || test.file_name is None && name == "unknown"@,
    ensures
        job.lldb_path@ == lldb_path,
        job.report_dir@ == report_dir,
        job.report_path@ == report_dir + "/"@ + "crash"@ + "_"@ + name + "_"@ + stamp + "."@
            + "log"@,
        ({
            let args = texts(job.args@);
            let core = report_dir + "/"@ + "core_crash"@ + "_"@ + name + "_"@ + stamp + "."@
                + "core"@;
            &&& args.len() == 11
            &&& args[10] == test.path
            &&& args[6] == "process save-core "@ + core
            &&& args == crash_args(test.path, Some(core))
            &&& core != job.report_path@
            &&& job.saved_message@ == "Crash BT for "@ + name + " saved to "@ + job.report_path@
                + " (Core: "@ + core + ")"@
        }),
{
    reveal_strlit("core_crash");
    reveal_strlit("crash");
    reveal_strlit("core");
    reveal_strlit("log");
    let core = report_dir + "/"@ + "core_crash"@ + "_"@ + name + "_"@ + stamp + "."@ + "core"@;
    assert(core.len() == job.report_path@.len() + 6);
}

/// The report of a hang lies in the report directory, carries the name of the
/// test that hung and the moment, and holds the backtrace and nothing else; what
/// is printed names the test, its binary, the report, and the core where there
/// is one, and ends with the backtrace.
pub proof fn law_hangs_are_reported_of_the_hung_test(
    report: HangReport,
    report_dir: Seq<char>,
    test: TestView,
    stamp: Seq<char>,
    backtrace: Seq<char>,
    core: Option<Seq<char>>,
    name: Seq<char>,
)
    requires
        report.is_for(report_dir, test, stamp, backtrace, core),
        test.file_name == Some(name) || test.file_name is None && name == test.path,
    ensures
        report.report_dir@ == report_dir,
        report.report_path@ == report_dir + "/"@ + "hang"@ + "_"@ + name + "_"@ + stamp + "."@
            + "log"@,
        report.contents@ == backtrace,
        ({
            let told = "\n========================================================\n"@
                + "[CONFIRMED HANG] Test '"@ + name + "' hung!\n"@ + "Executable path: "@
                + test.path + "\n"@ + "Report written to: "@ + report.report_path@ + "\n"@;
            let end = "========================================================\n\n"@
                + "LLDB Thread Backtrace:\n"@ + backtrace + "\n"@;
            &&& core is None ==> report.console@ == told + end
            &&& core matches Some(path) ==> report.console@ == told + (
            "Core dump written to: "@ + path + "\n"@) + end
        }),
{
    let told = "\n========================================================\n"@
        + "[CONFIRMED HANG] Test '"@ + name + "' hung!\n"@ + "Executable path: "@ + test.path
        + "\n"@ + "Report written to: "@ + report.report_path@ + "\n"@;
    let end = "========================================================\n\n"@
        + "LLDB Thread Backtrace:\n"@ + backtrace + "\n"@;
    if let Some(path) = core {
        assert(report.console@ =~= told + ("Core dump written to: "@ + path + "\n"@) + end);
    } else {
        reveal_strlit("");
        assert(report.console@ =~= told + end);
    }
}

} // verus!
