//! Tabular presentation of judge results for the front end.

use vstd::prelude::*;

use crate::judge::{
    ResultDisplay, ResultDisplayV, RunLangOutput, TestCase, TestCaseV, TestPassState,
};

verus! {

/// One column of a displayed test case.
#[derive(Clone, PartialEq, Eq, Debug)]
pub struct Column {
    pub title: Option<String>,
    pub content: String,
}

/// Mathematical image of [`Column`].
pub ghost struct ColumnV {
    pub title: Option<Seq<char>>,
    pub content: Seq<char>,
}

impl View for Column {
    type V = ColumnV;

    open spec fn view(&self) -> ColumnV {
        ColumnV {
            title: match &self.title {
                Some(t) => Some(t@),
                None => None,
            },
            content: self.content@,
        }
    }
}

/// One test case as the front end displays it.
#[derive(Clone, PartialEq, Eq, Debug)]
pub struct TestCaseDisplay {
    pub columns: Vec<Column>,
    pub title: Option<String>,
    pub status: TestPassState,
}

/// Mathematical image of [`TestCaseDisplay`].
pub ghost struct TestCaseDisplayV {
    pub columns: Seq<ColumnV>,
    pub title: Option<Seq<char>>,
    pub status: TestPassState,
}

impl View for TestCaseDisplay {
    type V = TestCaseDisplayV;

    open spec fn view(&self) -> TestCaseDisplayV {
        TestCaseDisplayV {
            columns: self.columns@.map_values(|c: Column| c@),
            title: match &self.title {
                Some(t) => Some(t@),
                None => None,
            },
            status: self.status,
        }
    }
}

/// The columns a display payload unfolds to: nothing, one plain text column,
/// output next to expected, or input, output and error.
pub open spec fn spec_columns(d: ResultDisplayV) -> Seq<ColumnV> {
    match d {
        ResultDisplayV::Empty => Seq::empty(),
        ResultDisplayV::Text(t) => seq![ColumnV { title: None, content: t }],
        ResultDisplayV::Diff { output, expected } => seq![
            ColumnV { title: Some("Output"@), content: output },
            ColumnV { title: Some("Expected"@), content: expected },
        ],
        ResultDisplayV::Run { input, output, error } => seq![
            ColumnV {
                title: Some("Input"@),
                content: match input {
                    Some(i) => i,
                    None => Seq::empty(),
                },
            },
            ColumnV { title: Some("Output"@), content: output },
            ColumnV { title: Some("Error"@), content: error },
        ],
    }
}

/// The displayed form of one test case.
pub open spec fn spec_display_of_case(t: TestCaseV) -> TestCaseDisplayV {
    TestCaseDisplayV { columns: spec_columns(t.result_display), title: t.name, status: t.pass }
}

impl TestCaseDisplay {
    /// Unfolds one test case into its display columns, keeping its name as
    /// the title and its pass state as the status.
    pub fn from_test_case(test_case: TestCase) -> (r: TestCaseDisplay)
        ensures
            r@ == spec_display_of_case(test_case@),
    {
        let ghost tv = test_case@;
        let mut columns: Vec<Column> = Vec::new();
        match test_case.result_display {
            ResultDisplay::Empty => {},
            ResultDisplay::Text(e) => {
                columns.push(Column { title: None, content: e });
            },
            ResultDisplay::Diff { output, expected } => {
                columns.push(Column { title: Some("Output".to_owned()), content: output });
                columns.push(Column { title: Some("Expected".to_owned()), content: expected });
            },
            ResultDisplay::Run { input, output, error } => {
                let content = match input {
                    Some(i) => i,
                    None => String::new(),
                };
                columns.push(Column { title: Some("Input".to_owned()), content });
                columns.push(Column { title: Some("Output".to_owned()), content: output });
                columns.push(Column { title: Some("Error".to_owned()), content: error });
            },
        }
        let r = TestCaseDisplay { columns, title: test_case.name, status: test_case.pass };
        proof {
            assert(r@.columns =~= spec_columns(tv.result_display));
        }
        r
    }
}

/// A whole run as the front end displays it.
#[derive(Clone, PartialEq, Eq, Debug)]
pub struct OutputDisplay {
    pub tests: Vec<TestCaseDisplay>,
    pub passed: bool,
    pub timed_out: bool,
    pub judge_error: Option<String>,
}

/// Mathematical image of [`OutputDisplay`].
pub ghost struct OutputDisplayV {
    pub tests: Seq<TestCaseDisplayV>,
    pub passed: bool,
    pub timed_out: bool,
    pub judge_error: Option<Seq<char>>,
}

impl View for OutputDisplay {
    type V = OutputDisplayV;

    open spec fn view(&self) -> OutputDisplayV {
        OutputDisplayV {
            tests: self.tests@.map_values(|t: TestCaseDisplay| t@),
            passed: self.passed,
            timed_out: self.timed_out,
            judge_error: match &self.judge_error {
                Some(e) => Some(e@),
                None => None,
            },
        }
    }
}

impl OutputDisplay {
    /// Unfolds a whole run outcome: every stored test case in order, the
    /// overall verdict and the timed-out flag, and the captured standard
    /// error as the judge error when it is non-empty.
    pub fn from_run_output(value: RunLangOutput) -> (r: OutputDisplay)
        ensures
            r@.tests == value.tests@.test_cases.map_values(|t: TestCaseV| spec_display_of_case(t)),
            r@.passed == value.tests@.pass,
            r@.timed_out == value.timed_out,
            r@.judge_error == if value.stderr@.len() == 0 {
                Option::<Seq<char>>::None
            } else {
                Option::<Seq<char>>::Some(value.stderr@)
            },
    {
        let ghost cases = value.tests@.test_cases;
        let mut tests: Vec<TestCaseDisplay> = Vec::new();
        let mut rest = value.tests.test_cases;
        let n = rest.len();
        proof {
            assert(rest@.map_values(|t: TestCase| t@) == cases);
        }
        let mut i: usize = 0;
        proof {
            assert(rest@.map_values(|t: TestCase| t@) =~= cases.skip(0));
        }
        while i < n
            invariant
                i <= n,
                n == cases.len(),
                rest@.len() == n - i,
                rest@.map_values(|t: TestCase| t@) == cases.skip(i as int),
                tests@.map_values(|t: TestCaseDisplay| t@) == cases.take(i as int).map_values(
                    |t: TestCaseV| spec_display_of_case(t),
                ),
            decreases n - i,
        {
            let ghost prevrest = rest@;
            let tc = rest.remove(0);
            proof {
                assert(prevrest.map_values(|t: TestCase| t@)[0] == prevrest[0]@);
                assert(tc@ == cases.skip(i as int)[0]);
                assert(tc@ == cases[i as int]);
                assert forall|j: int|
                    0 <= j < rest@.len() implies rest@.map_values(|t: TestCase| t@)[j]
                    == #[trigger] cases.skip(i as int + 1)[j] by {
                    assert(rest@[j] == prevrest[j + 1]);
                    assert(prevrest.map_values(|t: TestCase| t@)[j + 1] == prevrest[j + 1]@);
                    assert(cases.skip(i as int)[j + 1] == cases.skip(i as int + 1)[j]);
                }
                assert(rest@.map_values(|t: TestCase| t@) =~= cases.skip(i as int + 1));
            }
            let ghost prevtests = tests@;
            tests.push(TestCaseDisplay::from_test_case(tc));
            proof {
                let lhs = tests@.map_values(|t: TestCaseDisplay| t@);
                let rhs = cases.take(i as int + 1).map_values(
                    |t: TestCaseV| spec_display_of_case(t),
                );
                assert(tests@.len() == prevtests.len() + 1);
                assert(prevtests.map_values(|t: TestCaseDisplay| t@).len() == prevtests.len());
                assert(prevtests.len() == i as int);
                assert(i as int + 1 <= cases.len());
                assert forall|j: int| 0 <= j < lhs.len() implies lhs[j] == rhs[j] by {
                    assert(0 <= j < i as int + 1);
                    assert(lhs[j] == tests@[j]@);
                    assert(rhs[j] == spec_display_of_case(cases.take(i as int + 1)[j]));
                    assert(cases.take(i as int + 1)[j] == cases[j]);
                    if j < i {
                        assert(tests@[j] == prevtests[j]);
                        assert(prevtests.map_values(|t: TestCaseDisplay| t@)[j] == prevtests[j]@);
                        assert(cases.take(i as int)[j] == cases[j]);
                        assert(cases.take(i as int).map_values(
                            |t: TestCaseV| spec_display_of_case(t),
                        )[j] == spec_display_of_case(cases.take(i as int)[j]));
                    } else {
                        assert(tests@[j]@ == spec_display_of_case(cases[i as int]));
                    }
                }
                assert(lhs =~= rhs);
            }
            i = i + 1;
        }
        proof {
            assert(cases.take(n as int) =~= cases);
        }
        let judge_error = if value.stderr.as_str().is_empty() {
            None
        } else {
            Some(value.stderr)
        };
        OutputDisplay { tests, passed: value.tests.pass, timed_out: value.timed_out, judge_error }
    }
}

} // verus!
