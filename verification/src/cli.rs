//! The invocation's immutable inputs: the command-line options, the problem
//! metadata with its test cases, the log-level rule, and the preparation of
//! the test-case stack that the workers drain.

use vstd::prelude::*;

use crate::languages::DynLanguage;

verus! {

/// The command-line options of one judging run, as plain values. Reading them
/// from the actual command line happens outside the library.
#[derive(Clone, Debug)]
pub struct Opts {
    /// The path to a YAML file containing the metadata, including time limit,
    /// memory limit, test counts, etc.
    pub metadata: String,
    /// The language that the source code was written in.
    pub language: String,
    /// The path to the file containing source code.
    pub source: String,
    /// The path to the source code of checker.
    pub checker: String,
    /// The language code for compiling the checker.
    pub checker_language: String,
    /// The path to the source code of interactor. Reserved; no interactor
    /// pipeline is implemented.
    pub interactor: Option<String>,
    /// The path to be used as the base path of the test cases files.
    pub testcases: String,
    /// The path to testlib.h.
    pub testlib: String,
    /// The number of sandboxes to be created. The sandbox ID is 0-based.
    pub sandboxes: i32,
    /// The format of the verdict to output.
    pub verdict_format: String,
    /// The file to output the verdict to, standard output when absent.
    pub verdict: Option<String>,
    /// The level of verbosity.
    pub verbosity: i32,
    /// Whether the log should be suppressed. Overrides the verbose option.
    pub quiet: bool,
    /// Socket to announce updates to.
    pub socket: Option<String>,
    /// The YAML file containing definition to different languages.
    pub languages_definition: String,
}

/// One test case: its zero-based id and its input and expected-output files,
/// relative to the testcases root.
#[derive(Clone, Debug)]
pub struct Testcase {
    pub id: usize,
    pub input: String,
    pub output: String,
}

/// The mathematical content of a test case.
pub struct TestcaseView {
    pub id: usize,
    pub input: Seq<char>,
    pub output: Seq<char>,
}

impl View for Testcase {
    type V = TestcaseView;

    open spec fn view(&self) -> TestcaseView {
        TestcaseView { id: self.id, input: self.input@, output: self.output@ }
    }
}

impl Testcase {
    /// A copy of this test case.
    pub fn duplicate(&self) -> (r: Testcase)
        ensures
            r@ == self@,
    {
        Testcase { id: self.id, input: self.input.clone(), output: self.output.clone() }
    }
}

/// The id a test case carries before load-time numbering.
pub fn default_id() -> (r: usize)
    ensures
        r == 0,
{
    0
}

/// The problem's metadata: limits and test cases. Times are in milliseconds,
/// memory in KiB.
#[derive(Clone, Debug)]
pub struct Metadata {
    pub problem_name: String,
    pub time_limit: u64,
    pub memory_limit: u64,
    pub compile_time_limit: u64,
    pub compile_memory_limit: u64,
    pub checker_time_limit: u64,
    pub checker_memory_limit: u64,
    pub testcases: Vec<Testcase>,
}

/// How loud the logger is asked to be.
#[derive(Clone, Copy, Debug, PartialEq, Eq, Structural)]
pub enum LogLevel {
    Off,
    Error,
    Warn,
    Info,
    Debug,
    Trace,
}

/// The log level an invocation asks for: quiet silences everything;
/// otherwise each step of verbosity raises the level, and anything past the
/// known steps falls back to errors only.
pub open spec fn spec_calc_log_level(verbosity: int, quiet: bool) -> LogLevel {
    if quiet {
        LogLevel::Off
    } else if verbosity == 0 {
        LogLevel::Warn
    } else if verbosity == 1 {
        LogLevel::Info
    } else if verbosity == 2 {
        LogLevel::Debug
    } else if verbosity == 3 {
        LogLevel::Trace
    } else {
        LogLevel::Error
    }
}

/// Derive the log level from the verbosity count and the quiet switch.
pub fn calc_log_level(verbosity: i32, quiet: bool) -> (r: LogLevel)
    ensures
        r == spec_calc_log_level(verbosity as int, quiet),
{
    if quiet {
        LogLevel::Off
    } else {
        match verbosity {
            0 => LogLevel::Warn,
            1 => LogLevel::Info,
            2 => LogLevel::Debug,
            3 => LogLevel::Trace,
            _ => LogLevel::Error,
        }
    }
}

/// Number the test cases by their position: the id of the `i`-th case
/// becomes `i`. This is what loading metadata does after parsing.
pub fn assign_testcase_ids(testcases: &mut Vec<Testcase>)
    ensures
        final(testcases)@.len() == old(testcases)@.len(),
        forall|i: int|
            0 <= i < old(testcases)@.len() ==> (#[trigger] final(testcases)@[i])@ == (TestcaseView {
                id: i as usize,
                ..old(testcases)@[i]@
            }),
{
    let n = testcases.len();
    let mut out: Vec<Testcase> = Vec::new();
    let mut i: usize = 0;
    while i < n
        invariant
            0 <= i <= n,
            testcases == old(testcases),
            n == testcases@.len(),
            out@.len() == i,
            forall|j: int|
                0 <= j < i ==> (#[trigger] out@[j])@ == (TestcaseView {
                    id: j as usize,
                    ..old(testcases)@[j]@
                }),
        decreases n - i,
    {
        let mut case = testcases[i].duplicate();
        case.id = i;
        out.push(case);
        i = i + 1;
    }
    *testcases = out;
}

/// The pending-case stack the workers drain: the test cases in reverse
/// order, so that popping yields ascending ids.
pub fn build_testcase_stack(testcases: &Vec<Testcase>) -> (r: Vec<Testcase>)
    ensures
        r@.len() == testcases@.len(),
        forall|i: int|
            0 <= i < testcases@.len() ==> (#[trigger] r@[i])@ == testcases@[testcases@.len() - 1
                - i]@,
{
    let n = testcases.len();
    let mut out: Vec<Testcase> = Vec::new();
    let mut i: usize = 0;
    while i < n
        invariant
            0 <= i <= n,
            n == testcases@.len(),
            out@.len() == i,
            forall|j: int| 0 <= j < i ==> (#[trigger] out@[j])@ == testcases@[n - 1 - j]@,
        decreases n - i,
    {
        out.push(testcases[n - 1 - i].duplicate());
        i = i + 1;
    }
    out
}

/// Find the first catalogue entry with the given language code. An unknown
/// code is a configuration error.
pub fn detect_language(languages: &Vec<DynLanguage>, code: &str) -> (r: Result<DynLanguage, ()>)
    ensures
        match r {
            Ok(l) => exists|i: int|
                0 <= i < languages@.len() && l@ == (#[trigger] languages@[i])@
                    && languages@[i]@.code == code@ && (forall|j: int|
                    0 <= j < i ==> (#[trigger] languages@[j])@.code != code@),
            Err(()) => forall|i: int|
                0 <= i < languages@.len() ==> (#[trigger] languages@[i])@.code != code@,
        },
{
    let code_string = String::from_str(code);
    let n = languages.len();
    let mut i: usize = 0;
    while i < n
        invariant
            0 <= i <= n,
            n == languages@.len(),
            code_string@ == code@,
            forall|j: int| 0 <= j < i ==> (#[trigger] languages@[j])@.code != code@,
        decreases n - i,
    {
        if languages[i].code.eq(&code_string) {
            let found = languages[i].duplicate();
            assert(found@ == languages@[i as int]@);
            return Ok(found);
        }
        i = i + 1;
    }
    Err(())
}

} // verus!
