//! The judge's verdict and its parts.

use vstd::prelude::*;

verus! {

/// How a single test case affects the overall verdict.
#[derive(Clone, Copy, PartialEq, Eq, Structural, Debug)]
pub enum TestPassState {
    /// The test passed.
    Pass,
    /// The test failed.
    Fail,
    /// Informational only; never affects the overall verdict.
    Info,
    /// Failed, but failure alone does not decide the overall verdict.
    Warning,
}

/// The payload displayed for one test case.
#[derive(Clone, PartialEq, Eq, Debug)]
pub enum ResultDisplay {
    Empty,
    Text(String),
    Diff { output: String, expected: String },
    Run { input: Option<String>, output: String, error: String },
}

/// One test case reported by the judge program.
#[derive(Clone, PartialEq, Eq, Debug)]
pub struct TestCase {
    pub name: Option<String>,
    pub pass: TestPassState,
    pub result_display: ResultDisplay,
}

/// The folded result of one judge run: the overall verdict plus the ordered
/// test cases, in the order their records completed in the stream.
#[derive(Clone, PartialEq, Eq, Debug)]
pub struct JudgeResult {
    pub pass: bool,
    pub test_cases: Vec<TestCase>,
}

/// Everything reported back for one execution request.
#[derive(Clone, PartialEq, Eq, Debug)]
pub struct RunLangOutput {
    pub tests: JudgeResult,
    pub stderr: String,
    pub timed_out: bool,
}

/// Mathematical image of [`ResultDisplay`].
pub ghost enum ResultDisplayV {
    Empty,
    Text(Seq<char>),
    Diff { output: Seq<char>, expected: Seq<char> },
    Run { input: Option<Seq<char>>, output: Seq<char>, error: Seq<char> },
}

/// Mathematical image of [`TestCase`].
pub ghost struct TestCaseV {
    pub name: Option<Seq<char>>,
    pub pass: TestPassState,
    pub result_display: ResultDisplayV,
}

/// Mathematical image of [`JudgeResult`].
pub ghost struct JudgeResultV {
    pub pass: bool,
    pub test_cases: Seq<TestCaseV>,
}

impl View for ResultDisplay {
    type V = ResultDisplayV;

    open spec fn view(&self) -> ResultDisplayV {
        match self {
            ResultDisplay::Empty => ResultDisplayV::Empty,
            ResultDisplay::Text(t) => ResultDisplayV::Text(t@),
            ResultDisplay::Diff { output, expected } => ResultDisplayV::Diff {
                output: output@,
                expected: expected@,
            },
            ResultDisplay::Run { input, output, error } => ResultDisplayV::Run {
                input: match input {
                    Some(s) => Some(s@),
                    None => None,
                },
                output: output@,
                error: error@,
            },
        }
    }
}

impl View for TestCase {
    type V = TestCaseV;

    open spec fn view(&self) -> TestCaseV {
        TestCaseV {
            name: match &self.name {
                Some(s) => Some(s@),
                None => None,
            },
            pass: self.pass,
            result_display: self.result_display@,
        }
    }
}

impl View for JudgeResult {
    type V = JudgeResultV;

    open spec fn view(&self) -> JudgeResultV {
        JudgeResultV { pass: self.pass, test_cases: self.test_cases@.map_values(|t: TestCase| t@) }
    }
}

impl JudgeResult {
    /// The state every run starts from: failing, with no test cases yet.
    pub fn empty() -> (r: JudgeResult)
        ensures
            r@ == (JudgeResultV { pass: false, test_cases: Seq::<TestCaseV>::empty() }),
    {
        let r = JudgeResult { pass: false, test_cases: Vec::new() };
        proof {
            assert(r@.test_cases =~= Seq::<TestCaseV>::empty());
        }
        r
    }
}

} // verus!
