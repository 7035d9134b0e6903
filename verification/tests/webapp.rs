//! Tests of the web-application logic: text rendering, validation, scoring,
//! leaderboards, notifications and asset resolution.

use byte_heist::cachemap::CacheMap;
use byte_heist::challenge::{
    plan_new_challenge, Challenge, ChallengeCategory, ChallengeStatus, ChallengeWithAuthorInfo,
    NewChallenge, NewChallengePlan, NewOrExistingChallenge,
};
use byte_heist::discord::{
    format_message, new_challenge_embed, new_golfer_embed, should_announce, should_edit_message,
    webhook_with_embed, LastMessage, ScoreImproved,
};
use byte_heist::display::{OutputDisplay, TestCaseDisplay};
use byte_heist::judge::{JudgeResult, ResultDisplay, RunLangOutput, TestCase, TestPassState};
use byte_heist::ranking::ChallengeLeaderboard;
use byte_heist::run::replace_str;
use byte_heist::slug::Slug;
use byte_heist::solutions::{
    invalidation_action, leaderboard_window, plan_new_solution, plan_status,
    previous_solution_invalid, solution_score, Code, InvalidationAction, LeaderboardEntry,
    RankingMode, SolutionPlan,
};
use byte_heist::text::{escape_html, i32_to_string, i64_to_string, u64_to_string};
use byte_heist::vite::{asset_tags, dev_asset_tags, find_all_imports, ManifestEntry};
use byte_heist::web::{strip_trailing_slashes, wants_json, Account, Error, OauthError};

#[test]
fn decimal_rendering() {
    assert_eq!(u64_to_string(0), "0");
    assert_eq!(u64_to_string(12345), "12345");
    assert_eq!(u64_to_string(u64::MAX), "18446744073709551615");
    assert_eq!(i64_to_string(-1), "-1");
    assert_eq!(i64_to_string(i64::MIN), "-9223372036854775808");
    assert_eq!(i32_to_string(-42), "-42");
    assert_eq!(i32_to_string(7), "7");
}

#[test]
fn html_escaping() {
    assert_eq!(escape_html("a<b>&\"c'/"), "a&lt;b&gt;&amp;&quot;c&#x27;&#x2F;");
    assert_eq!(escape_html("plain"), "plain");
    assert_eq!(escape_html(""), "");
}

#[test]
fn replace_substitutes_every_occurrence() {
    assert_eq!(replace_str("a${X}b${X}", "${X}", "v"), "avbv");
    assert_eq!(replace_str("none", "${X}", "v"), "none");
    assert_eq!(replace_str("aaa", "aa", "b"), "ba");
}

#[test]
fn slugs_come_from_the_slug_crate() {
    assert_eq!(Slug("My Test String!!!1!1").render(), "my-test-string-1-1");
    assert_eq!(Slug("").render(), "");
    assert_eq!(Slug("Hello World").render(), "hello-world");
}

#[test]
fn leaderboard_store_key() {
    let board = ChallengeLeaderboard { challenge_id: 12, language: "python".to_string() };
    assert_eq!(board.get_name(), "challenge_scores\u{0}12\u{0}python");
    let board = ChallengeLeaderboard { challenge_id: -3, language: "tcc".to_string() };
    assert_eq!(board.get_name(), "challenge_scores\u{0}-3\u{0}tcc");
}

#[test]
fn score_counts_windows_line_breaks_once() {
    assert_eq!(solution_score(&"ab".to_string()), 2);
    assert_eq!(solution_score(&"a\r\nb".to_string()), 3);
    assert_eq!(solution_score(&"\r\n\r\n".to_string()), 2);
    assert_eq!(solution_score(&"a\nb".to_string()), 3);
    assert_eq!(solution_score(&"".to_string()), 0);
}

fn code(score: i32, valid: bool) -> Code {
    Code { code: "x".to_string(), score, id: 1, valid, last_improved_date: 0 }
}

#[test]
fn solution_plans() {
    assert_eq!(plan_new_solution(false, None, 5), SolutionPlan::Reject);
    assert_eq!(plan_new_solution(true, None, 5), SolutionPlan::Insert);
    assert_eq!(
        plan_new_solution(true, Some(&code(9, true)), 5),
        SolutionPlan::Replace { refresh_date: true }
    );
    assert_eq!(
        plan_new_solution(true, Some(&code(5, true)), 5),
        SolutionPlan::Replace { refresh_date: false }
    );
    assert_eq!(
        plan_new_solution(true, Some(&code(3, false)), 5),
        SolutionPlan::Replace { refresh_date: true }
    );
    assert_eq!(plan_new_solution(true, Some(&code(3, true)), 5), SolutionPlan::Keep);
    assert_eq!(plan_status(&SolutionPlan::Reject), 400);
    assert_eq!(plan_status(&SolutionPlan::Insert), 201);
    assert_eq!(plan_status(&SolutionPlan::Keep), 200);
    assert!(previous_solution_invalid(false, Some(&code(3, false))));
    assert!(!previous_solution_invalid(true, Some(&code(3, false))));
    assert!(!previous_solution_invalid(false, None));
}

fn entry(id: i32, score: i32) -> LeaderboardEntry {
    LeaderboardEntry {
        id,
        author_id: id,
        author_name: format!("u{}", id),
        author_avatar: String::new(),
        score,
    }
}

#[test]
fn leaderboard_windows() {
    let board: Vec<LeaderboardEntry> = (0..30).map(|i| entry(i, i)).collect();
    let top = leaderboard_window(board.clone(), None, RankingMode::Top);
    assert_eq!(top.len(), 10);
    assert_eq!(top[0].id, 0);
    // a viewer in the middle sees the ten entries ending at their row
    let me = leaderboard_window(board.clone(), Some(25), RankingMode::Me);
    assert_eq!(me.len(), 10);
    assert_eq!(me[0].id, 15);
    assert_eq!(me[9].id, 24);
    // an unknown viewer is treated as the top of the board
    let me = leaderboard_window(board.clone(), Some(99), RankingMode::Me);
    assert_eq!(me[0].id, 0);
    assert_eq!(me.len(), 10);
    // a short board is shown whole
    let short: Vec<LeaderboardEntry> = (0..3).map(|i| entry(i, i)).collect();
    let me = leaderboard_window(short, Some(2), RankingMode::Me);
    assert_eq!(me.len(), 3);
}

fn draft(name: &str, description: &str, status: ChallengeStatus) -> NewChallenge {
    NewChallenge {
        description: description.to_string(),
        judge: "j".to_string(),
        name: name.to_string(),
        example_code: "e".to_string(),
        category: ChallengeCategory::CodeGolf,
        status,
    }
}

#[test]
fn validation_rules() {
    let ok = draft("n", "d", ChallengeStatus::Draft);
    assert!(ok.validate(None, false).is_ok());

    let bad = draft("", "", ChallengeStatus::Public);
    let errors = bad.validate(None, false).unwrap_err();
    assert_eq!(errors.len(), 3);
    assert_eq!(errors[0].0, "name");
    assert_eq!(errors[1].0, "description");
    assert_eq!(errors[2].0, "status");

    // an admin may publish
    assert!(draft("n", "d", ChallengeStatus::Public).validate(None, true).is_ok());

    // taking a published challenge private again
    let public = draft("n", "d", ChallengeStatus::Public);
    let back = draft("n", "d", ChallengeStatus::Draft);
    let errors = back.validate(Some(&public), false).unwrap_err();
    assert_eq!(errors[0].1, "You can't make a published challenge private again");

    // changing the category of a live challenge (the status rule also
    // fires, since a non-admin may not touch a published challenge)
    let mut recat = draft("n", "d", ChallengeStatus::Draft);
    recat.category = ChallengeCategory::RestrictedSource;
    let errors = recat.validate(Some(&public), false).unwrap_err();
    assert_eq!(errors[0].0, "status");
    assert_eq!(errors[1].0, "category");
    assert_eq!(errors[1].1, "can't change the category of a live challenge");
}

#[test]
fn default_challenge_is_a_draft() {
    let d = NewChallenge::default();
    assert_eq!(d.status, ChallengeStatus::Draft);
    assert_eq!(d.category, ChallengeCategory::RestrictedSource);
    assert_eq!(d.name, "");
    assert!(d.description.contains("Markdown is supported"));
    let composed = NewOrExistingChallenge::default();
    assert_eq!(composed.get_new_challenge().status, ChallengeStatus::Draft);
}

fn existing(author: i32, status: ChallengeStatus) -> ChallengeWithAuthorInfo {
    ChallengeWithAuthorInfo {
        challenge: Challenge { id: Some(1), challenge: draft("n", "d", status), author },
        author_name: "a".to_string(),
        author_avatar: String::new(),
    }
}

#[test]
fn challenge_submission_plans() {
    let c = draft("n", "d", ChallengeStatus::Draft);
    // invalid first
    let bad = draft("", "d", ChallengeStatus::Draft);
    assert!(matches!(
        plan_new_challenge(&bad, None, false, 1, true),
        NewChallengePlan::Invalid { .. }
    ));
    // then the example run
    assert!(matches!(
        plan_new_challenge(&c, None, false, 1, false),
        NewChallengePlan::TestsFailed
    ));
    // create, announcing only public challenges
    assert!(matches!(
        plan_new_challenge(&c, None, false, 1, true),
        NewChallengePlan::Create { announce: false }
    ));
    // editing someone else's challenge
    let e = existing(2, ChallengeStatus::Draft);
    assert!(matches!(
        plan_new_challenge(&c, Some(&e), false, 1, true),
        NewChallengePlan::Forbidden
    ));
    // an unchanged edit writes nothing
    let e = existing(1, ChallengeStatus::Draft);
    assert!(matches!(
        plan_new_challenge(&draft("n", "d", ChallengeStatus::Draft), Some(&e), false, 1, true),
        NewChallengePlan::Update { run_update: false, announce: false }
    ));
    // a change that takes the challenge public is announced
    let e = existing(1, ChallengeStatus::Draft);
    let published = draft("n", "d", ChallengeStatus::Public);
    assert!(matches!(
        plan_new_challenge(&published, Some(&e), true, 1, true),
        NewChallengePlan::Update { run_update: true, announce: true }
    ));
}

#[test]
fn test_case_display_columns() {
    let d = TestCaseDisplay::from_test_case(TestCase {
        name: Some("t".to_string()),
        pass: TestPassState::Fail,
        result_display: ResultDisplay::Diff { output: "o".to_string(), expected: "x".to_string() },
    });
    assert_eq!(d.title.as_deref(), Some("t"));
    assert_eq!(d.status, TestPassState::Fail);
    assert_eq!(d.columns.len(), 2);
    assert_eq!(d.columns[0].title.as_deref(), Some("Output"));
    assert_eq!(d.columns[0].content, "o");
    assert_eq!(d.columns[1].title.as_deref(), Some("Expected"));

    let d = TestCaseDisplay::from_test_case(TestCase {
        name: None,
        pass: TestPassState::Pass,
        result_display: ResultDisplay::Run {
            input: None,
            output: "o".to_string(),
            error: "e".to_string(),
        },
    });
    assert_eq!(d.columns.len(), 3);
    assert_eq!(d.columns[0].title.as_deref(), Some("Input"));
    assert_eq!(d.columns[0].content, "");
}

#[test]
fn output_display_from_run() {
    let run = RunLangOutput {
        tests: JudgeResult {
            pass: true,
            test_cases: vec![TestCase {
                name: Some("t".to_string()),
                pass: TestPassState::Pass,
                result_display: ResultDisplay::Empty,
            }],
        },
        stderr: String::new(),
        timed_out: false,
    };
    let d = OutputDisplay::from_run_output(run);
    assert_eq!(d.passed, true);
    assert_eq!(d.timed_out, false);
    assert_eq!(d.judge_error, None);
    assert_eq!(d.tests.len(), 1);

    let noisy = RunLangOutput {
        tests: JudgeResult { pass: false, test_cases: Vec::new() },
        stderr: "boom".to_string(),
        timed_out: true,
    };
    let d = OutputDisplay::from_run_output(noisy);
    assert_eq!(d.judge_error.as_deref(), Some("boom"));
    assert_eq!(d.timed_out, true);
}

#[test]
fn format_negotiation() {
    assert!(wants_json("/user/1.json", None));
    assert!(!wants_json("/user/1", None));
    assert!(wants_json("/user/1", Some(&b"application/json".to_vec())));
    assert!(wants_json("/user/1", Some(&b"Application/JSON".to_vec())));
    assert!(!wants_json("/user/1", Some(&b"text/html".to_vec())));
}

#[test]
fn trailing_slash_redirects() {
    assert_eq!(strip_trailing_slashes("/a/b/"), Some("/a/b".to_string()));
    assert_eq!(strip_trailing_slashes("/a///"), Some("/a".to_string()));
    assert_eq!(strip_trailing_slashes("/a/b"), None);
    assert_eq!(strip_trailing_slashes(""), None);
}

#[test]
fn error_bodies() {
    let (status, body) = Error::NotFound.status_and_body();
    assert_eq!(status, 404);
    assert!(body.contains("Not Found"));
    let (status, body) = Error::Database("x < y".to_string()).status_and_body();
    assert_eq!(status, 500);
    assert!(body.contains("x &lt; y"));
    let (status, body) = Error::PermissionDenied("no <script>".to_string()).status_and_body();
    assert_eq!(status, 403);
    assert!(body.contains("no &lt;script&gt;"));
    let (status, body) = Error::Oauth(OauthError::CsrfValidation).status_and_body();
    assert_eq!(status, 500);
    assert_eq!(body, "CsrfValidation");
    let (status, body) = Error::ServerError.status_and_body();
    assert_eq!(status, 500);
    assert_eq!(body, "");
    let (status, body) = Error::RunLang("a & b".to_string()).status_and_body();
    assert_eq!(status, 500);
    assert!(body.contains("a &amp; b"));
}

#[test]
fn revalidation_actions() {
    assert_eq!(invalidation_action(true), InvalidationAction::MarkValidated);
    assert_eq!(invalidation_action(false), InvalidationAction::Invalidate);
}

#[test]
fn announcement_decisions() {
    // announced only when the solution holds the top of the board
    assert!(should_announce(None, 1, 5));
    let top = entry(1, 5);
    assert!(should_announce(Some(&top), 1, 5));
    assert!(!should_announce(Some(&entry(2, 5)), 1, 5));
    assert!(!should_announce(Some(&entry(1, 4)), 1, 5));
}

fn last_message(author: i32) -> LastMessage {
    LastMessage {
        id: 1,
        language: "python".to_string(),
        challenge_id: 7,
        author_id: author,
        author_name: "alice".to_string(),
        score: 10,
        previous_author_id: Some(3),
        previous_author_name: Some("bob".to_string()),
        previous_author_score: Some(12),
        message_id: 1,
        channel_id: 1,
    }
}

#[test]
fn bot_message_content() {
    let improvement = ScoreImproved {
        challenge_id: 7,
        author: 2,
        language: "python".to_string(),
        score: 9,
    };
    assert!(should_edit_message(Some(&last_message(2)), 2));
    assert!(!should_edit_message(Some(&last_message(1)), 2));
    assert!(!should_edit_message(None, 2));

    // a different author displaces the standing entry
    let embed = format_message(
        &Some(last_message(1)),
        &improvement,
        &"Hello World".to_string(),
        &"carol".to_string(),
        &"https://byte-heist.com".to_string(),
    );
    assert_eq!(embed.title, "Improved score for Hello World");
    assert_eq!(embed.url, "https://byte-heist.com/challenge/7/hello-world/solve/python");
    assert_eq!(embed.fields.len(), 2);
    assert_eq!(embed.fields[0], ("alice".to_string(), "10".to_string()));
    assert_eq!(embed.fields[1], ("carol".to_string(), "9".to_string()));

    // the same author improving keeps the older previous credit
    let embed = format_message(
        &Some(last_message(2)),
        &improvement,
        &"Hello World".to_string(),
        &"carol".to_string(),
        &"https://byte-heist.com".to_string(),
    );
    assert_eq!(embed.fields[0], ("bob".to_string(), "12".to_string()));

    // the first message has one field
    let embed = format_message(
        &None,
        &improvement,
        &"Hello World".to_string(),
        &"carol".to_string(),
        &"https://byte-heist.com".to_string(),
    );
    assert_eq!(embed.fields.len(), 1);
}

#[test]
fn webhook_embeds() {
    let e = new_challenge_embed(
        &"Hello World".to_string(),
        &"d".repeat(150),
        42,
        &"https://byte-heist.com".to_string(),
    );
    assert_eq!(e.title.as_deref(), Some("New Challenge: Hello World"));
    assert_eq!(e.description.as_deref().map(|d| d.len()), Some(100));
    assert_eq!(
        e.url.as_deref(),
        Some("https://byte-heist.com/challenge/42/hello-world/solve")
    );
    assert_eq!(e.color, Some(255));

    let account = Account { id: 9, username: "alice".to_string(), avatar: "av".to_string() };
    let e = new_golfer_embed(&account, &"https://byte-heist.com".to_string());
    assert_eq!(e.title.as_deref(), Some("New Golfer: alice"));
    assert_eq!(e.url.as_deref(), Some("https://byte-heist.com/user/9"));
    assert_eq!(e.color, Some(65280));

    let req = webhook_with_embed(&account.username, &account.avatar, e);
    assert_eq!(req.username.as_deref(), Some("alice"));
    assert_eq!(req.avatar_url.as_deref(), Some("av"));
    assert_eq!(req.embeds.map(|es| es.len()), Some(1));
}

fn manifest_entry(file: &str, css: &[&str], imports: &[&str]) -> ManifestEntry {
    ManifestEntry {
        file: file.to_string(),
        name: None,
        is_entry: true,
        css: css.iter().map(|s| s.to_string()).collect(),
        imports: imports.iter().map(|s| s.to_string()).collect(),
        dynamic_imports: Vec::new(),
    }
}

#[test]
fn manifest_walk_and_tags() {
    let mut manifest: CacheMap<ManifestEntry> = CacheMap::new();
    manifest.fill(&"a.ts".to_string(), manifest_entry("a.js", &["a.css"], &["b.ts"]));
    manifest.fill(&"b.ts".to_string(), manifest_entry("b.js", &[], &[]));
    let (scripts, styles) =
        find_all_imports(&manifest, &vec!["a.ts".to_string()], 16).unwrap();
    assert_eq!(scripts, vec!["a.js".to_string(), "b.js".to_string()]);
    assert_eq!(styles, vec!["a.css".to_string()]);

    // a missing entry resolves to nothing
    assert!(find_all_imports(&manifest, &vec!["zz.ts".to_string()], 16).is_none());

    // a cyclic manifest runs out of fuel instead of running forever
    let mut cyclic: CacheMap<ManifestEntry> = CacheMap::new();
    cyclic.fill(&"a.ts".to_string(), manifest_entry("a.js", &[], &["a.ts"]));
    assert!(find_all_imports(&cyclic, &vec!["a.ts".to_string()], 16).is_none());

    let tags = asset_tags(&scripts, &styles);
    let expected = format!(
        "{}{}{}",
        "<script type=\"module\" src=\"/static/target/a.js\"></script>",
        "<script type=\"module\" src=\"/static/target/b.js\"></script>",
        "<link rel=\"stylesheet\" href=\"/static/target/a.css\">"
    );
    assert_eq!(tags, expected);
    let dev = dev_asset_tags(&vec!["a.ts".to_string()]);
    assert!(dev.starts_with(
        "<script type=\"module\" src=\"http://localhost:5173/static/target/@vite/client\">"
    ));
    assert!(dev.ends_with(
        "<script type=\"module\" src=\"http://localhost:5173/static/target/a.ts\"></script>"
    ));
}
