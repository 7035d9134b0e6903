//! Challenges: their lifecycle states, validation rules, and the decisions
//! behind creating or editing one.

use vstd::prelude::*;

use crate::display::OutputDisplay;

verus! {

/// Where a challenge stands in its lifecycle.
#[derive(Clone, Copy, PartialEq, Eq, Structural, Debug)]
pub enum ChallengeStatus {
    Draft,
    Private,
    Beta,
    Public,
}

impl Default for ChallengeStatus {
    /// A new challenge starts as a draft.
    fn default() -> (r: ChallengeStatus)
        ensures
            r == ChallengeStatus::Draft,
    {
        ChallengeStatus::Draft
    }
}

/// What kind of scoring a challenge uses.
#[derive(Clone, Copy, PartialEq, Eq, Structural, Debug)]
pub enum ChallengeCategory {
    CodeGolf,
    RestrictedSource,
    Private,
}

/// The author-editable part of a challenge.
#[derive(Clone, Debug)]
pub struct NewChallenge {
    pub description: String,
    pub judge: String,
    pub name: String,
    pub example_code: String,
    pub category: ChallengeCategory,
    pub status: ChallengeStatus,
}

/// Mathematical image of [`NewChallenge`].
pub ghost struct NewChallengeV {
    pub description: Seq<char>,
    pub judge: Seq<char>,
    pub name: Seq<char>,
    pub example_code: Seq<char>,
    pub category: ChallengeCategory,
    pub status: ChallengeStatus,
}

impl View for NewChallenge {
    type V = NewChallengeV;

    open spec fn view(&self) -> NewChallengeV {
        NewChallengeV {
            description: self.description@,
            judge: self.judge@,
            name: self.name@,
            example_code: self.example_code@,
            category: self.category,
            status: self.status,
        }
    }
}

impl PartialEq for NewChallenge {
    fn eq(&self, other: &NewChallenge) -> (r: bool) {
        self.description == other.description && self.judge == other.judge && self.name
            == other.name && self.example_code == other.example_code && self.category
            == other.category && self.status == other.status
    }
}

impl vstd::std_specs::cmp::PartialEqSpecImpl for NewChallenge {
    open spec fn obeys_eq_spec() -> bool {
        true
    }

    open spec fn eq_spec(&self, other: &NewChallenge) -> bool {
        self@ == other@
    }
}

/// One validation finding: the field at fault and the message shown for it.
pub type ValidationError = (String, String);

/// The validation findings for a submitted challenge, in the order the rules
/// are checked: an empty name, an empty description, a status change the
/// author may not make, and a category change on a live challenge.
pub open spec fn spec_validate(
    c: NewChallengeV,
    previous: Option<NewChallengeV>,
    is_admin: bool,
) -> Seq<(Seq<char>, Seq<char>)> {
    let name_errs: Seq<(Seq<char>, Seq<char>)> = if c.name.len() == 0 {
        seq![("name"@, "name can't be empty"@)]
    } else {
        Seq::empty()
    };
    let desc_errs: Seq<(Seq<char>, Seq<char>)> = if c.description.len() == 0 {
        seq![("description"@, "description can not be empty"@)]
    } else {
        Seq::empty()
    };
    let status_errs: Seq<(Seq<char>, Seq<char>)> = if c.status == ChallengeStatus::Public
        && !is_admin && (previous is None || previous->0.status == ChallengeStatus::Public) {
        seq![("status"@, "you can't make a challenge public"@)]
    } else if c.status != ChallengeStatus::Public && !is_admin && (previous matches Some(p)
        && p.status == ChallengeStatus::Public) {
        seq![("status"@, "You can't make a published challenge private again"@)]
    } else {
        Seq::empty()
    };
    let category_errs: Seq<(Seq<char>, Seq<char>)> = if !is_admin && (previous matches Some(p)
        && p.status == ChallengeStatus::Public && p.category != c.category) {
        seq![("category"@, "can't change the category of a live challenge"@)]
    } else {
        Seq::empty()
    };
    name_errs + desc_errs + status_errs + category_errs
}

impl NewChallenge {
    /// Checks a submitted challenge against the rules stated by
    /// [`spec_validate`]. `Ok` exactly when no rule finds fault.
    pub fn validate(&self, previous: Option<&NewChallenge>, is_admin: bool) -> (r: Result<
        (),
        Vec<ValidationError>,
    >)
        ensures
            ({
                let pv = match previous {
                    Some(p) => Some(p@),
                    None => None,
                };
                match r {
                    Ok(()) => spec_validate(self@, pv, is_admin).len() == 0,
                    Err(errors) => errors@.map_values(|e: ValidationError| (e.0@, e.1@))
                        == spec_validate(self@, pv, is_admin) && spec_validate(
                        self@,
                        pv,
                        is_admin,
                    ).len() > 0,
                }
            }),
    {
        let ghost pv: Option<NewChallengeV> = match previous {
            Some(p) => Some(p@),
            None => None,
        };
        let mut errors: Vec<ValidationError> = Vec::new();
        if self.name.as_str().is_empty() {
            errors.push(("name".to_owned(), "name can't be empty".to_owned()));
        }
        if self.description.as_str().is_empty() {
            errors.push(("description".to_owned(), "description can not be empty".to_owned()));
        }
        let prev_public = match previous {
            Some(p) => p.status == ChallengeStatus::Public,
            None => false,
        };
        if self.status == ChallengeStatus::Public && !is_admin && (previous.is_none()
            || prev_public) {
            errors.push(("status".to_owned(), "you can't make a challenge public".to_owned()));
        } else if !(self.status == ChallengeStatus::Public) && !is_admin && prev_public {
            errors.push(
                (
                    "status".to_owned(),
                    "You can't make a published challenge private again".to_owned(),
                ),
            );
        }
        let prev_category_clash = match previous {
            Some(p) => p.status == ChallengeStatus::Public && !(p.category == self.category),
            None => false,
        };
        if !is_admin && prev_category_clash {
            errors.push(
                ("category".to_owned(), "can't change the category of a live challenge".to_owned()),
            );
        }
        proof {
            assert(errors@.map_values(|e: ValidationError| (e.0@, e.1@)) =~= spec_validate(
                self@,
                pv,
                is_admin,
            ));
        }
        if errors.is_empty() {
            Ok(())
        } else {
            Err(errors)
        }
    }
}

/// A stored challenge: the editable part plus its identity and author.
#[derive(Clone, Debug)]
pub struct Challenge {
    pub id: Option<i32>,
    pub challenge: NewChallenge,
    pub author: i32,
}

/// A stored challenge together with its author's display data.
#[derive(Clone, Debug)]
pub struct ChallengeWithAuthorInfo {
    pub challenge: Challenge,
    pub author_name: String,
    pub author_avatar: String,
}

/// A challenge being composed: either an edit of a stored one or a fresh
/// draft.
#[derive(Clone, Debug)]
pub enum NewOrExistingChallenge {
    Existing(ChallengeWithAuthorInfo),
    New(NewChallenge),
}

impl NewOrExistingChallenge {
    /// The editable part, wherever it lives.
    pub fn get_new_challenge<'a>(&'a self) -> (r: &'a NewChallenge)
        ensures
            r@ == (match self {
                NewOrExistingChallenge::Existing(e) => e.challenge.challenge@,
                NewOrExistingChallenge::New(k) => k@,
            }),
    {
        match self {
            NewOrExistingChallenge::Existing(e) => &e.challenge.challenge,
            NewOrExistingChallenge::New(k) => k,
        }
    }
}

impl Default for NewOrExistingChallenge {
    /// Composing starts from a fresh draft.
    fn default() -> (r: NewOrExistingChallenge)
        ensures
            r matches NewOrExistingChallenge::New(c) && c@ == NewChallenge::spec_default(),
    {
        NewOrExistingChallenge::New(NewChallenge::default())
    }
}

/// A challenge bundled with the outcome of its example run and any
/// validation findings, as rendered after a submission.
pub struct ChallengeWithTests {
    pub challenge: NewOrExistingChallenge,
    pub tests: Option<OutputDisplay>,
    pub validation: Option<Vec<ValidationError>>,
}

impl NewChallenge {
    /// The fields a fresh draft starts from: a placeholder description and
    /// judge, empty name and example, restricted-source category, draft
    /// status.
    pub open spec fn spec_default() -> NewChallengeV {
        NewChallengeV {
            description: "Explain in detail how to solve your challenge. Good challenge descriptions include examples and links to relevent resources. Markdown is supported"@,
            judge: "(async function*(context: Context): Challenge {\n  // Single Test\n  yield (await context.run(undefined)).assertEquals('Hello World!');\n\n  // Automatically shuffle and deal test cases over multiple runs\n  yield* context.runTestCases(\n    [\n        [\"Input\", \"Expected Output\"],\n    ]\n  );\n  // For \"Filter\" Style challenges where the goal is to output all inputs that match some condition\n  yield* context.runFilterCases([\n      [\"This should be outputted\", true],\n      [\"This should not be outputted\", false],\n  ]);\n  // Finally, the challenge is passed if no test cases failed\n  return context.noFailures();\n})"@,
            name: Seq::empty(),
            example_code: Seq::empty(),
            category: ChallengeCategory::RestrictedSource,
            status: ChallengeStatus::Draft,
        }
    }
}

impl Default for NewChallenge {
    /// A fresh draft, as [`NewChallenge::spec_default`] states.
    fn default() -> (r: NewChallenge)
        ensures
            r@ == NewChallenge::spec_default(),
    {
        NewChallenge {
            description: "Explain in detail how to solve your challenge. Good challenge descriptions include examples and links to relevent resources. Markdown is supported".to_owned(),
            judge: "(async function*(context: Context): Challenge {\n  // Single Test\n  yield (await context.run(undefined)).assertEquals('Hello World!');\n\n  // Automatically shuffle and deal test cases over multiple runs\n  yield* context.runTestCases(\n    [\n        [\"Input\", \"Expected Output\"],\n    ]\n  );\n  // For \"Filter\" Style challenges where the goal is to output all inputs that match some condition\n  yield* context.runFilterCases([\n      [\"This should be outputted\", true],\n      [\"This should not be outputted\", false],\n  ]);\n  // Finally, the challenge is passed if no test cases failed\n  return context.noFailures();\n})".to_owned(),
            name: String::new(),
            example_code: String::new(),
            category: ChallengeCategory::RestrictedSource,
            status: ChallengeStatus::Draft,
        }
    }
}

// ---------------------------------------------------------------------------
// The decisions behind a challenge submission
// ---------------------------------------------------------------------------

/// What the service does with one challenge submission.
pub enum NewChallengePlan {
    /// The rules found fault: render them back with a client-error status.
    Invalid { errors: Vec<ValidationError> },
    /// The example run failed: render its tests back with a client-error
    /// status.
    TestsFailed,
    /// Store a new challenge; announce it when it goes up public.
    Create { announce: bool },
    /// The submitter may not edit this challenge.
    Forbidden,
    /// Edit a stored challenge: write only when something changed, and
    /// announce only a change that takes it public.
    Update { run_update: bool, announce: bool },
}

/// Decides one challenge submission, in order: validation, the example run,
/// then create or edit.
pub fn plan_new_challenge(
    challenge: &NewChallenge,
    existing: Option<&ChallengeWithAuthorInfo>,
    is_admin: bool,
    account_id: i32,
    tests_pass: bool,
) -> (r: NewChallengePlan)
    ensures
        ({
            let pv = match existing {
                Some(e) => Some(e.challenge.challenge@),
                None => None,
            };
            let errs = spec_validate(challenge@, pv, is_admin);
            match r {
                NewChallengePlan::Invalid { errors } => errs.len() > 0 && errors@.map_values(
                    |e: ValidationError| (e.0@, e.1@),
                ) == errs,
                NewChallengePlan::TestsFailed => errs.len() == 0 && !tests_pass,
                NewChallengePlan::Create { announce } => errs.len() == 0 && tests_pass
                    && existing is None && announce == (challenge@.status
                    == ChallengeStatus::Public),
                NewChallengePlan::Forbidden => errs.len() == 0 && tests_pass && (existing matches
                    Some(e) && !is_admin && e.challenge.author != account_id),
                NewChallengePlan::Update { run_update, announce } => errs.len() == 0 && tests_pass
                    && (existing matches Some(e) && (is_admin || e.challenge.author == account_id)
                    && run_update == (e.challenge.challenge@ != challenge@) && announce == (
                run_update && e.challenge.challenge@.status != ChallengeStatus::Public
                    && challenge@.status == ChallengeStatus::Public)),
            }
        }),
{
    let previous = match existing {
        Some(e) => Some(&e.challenge.challenge),
        None => None,
    };
    match challenge.validate(previous, is_admin) {
        Err(errors) => NewChallengePlan::Invalid { errors },
        Ok(()) => {
            if !tests_pass {
                NewChallengePlan::TestsFailed
            } else {
                match existing {
                    None => NewChallengePlan::Create {
                        announce: challenge.status == ChallengeStatus::Public,
                    },
                    Some(e) => {
                        if !is_admin && e.challenge.author != account_id {
                            NewChallengePlan::Forbidden
                        } else {
                            let run_update = !(e.challenge.challenge == *challenge);
                            let announce = run_update && !(e.challenge.challenge.status
                                == ChallengeStatus::Public) && challenge.status
                                == ChallengeStatus::Public;
                            NewChallengePlan::Update { run_update, announce }
                        }
                    },
                }
            }
        },
    }
}

} // verus!
