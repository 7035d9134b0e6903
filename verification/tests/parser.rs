//! Tests of the judge-output protocol parser.

use byte_heist::judge::{JudgeResult, ResultDisplay, TestPassState};
use byte_heist::parse_output::{
    apply_to_judge_result, parse_test_case_line, parse_verdict_line, FinalVerdict, JudgeStream,
};

fn feed_all(chunks: &[&[u8]]) -> JudgeResult {
    let mut stream = JudgeStream::new();
    for c in chunks {
        stream.feed(c);
    }
    stream.finish()
}

#[test]
fn round_trip_single_case_then_verdict() {
    let data = b"{\"name\":\"t1\",\"pass\":\"Pass\",\"resultDisplay\":{\"Text\":\"ok\"}}\n{\"pass\":true}\n";
    let result = feed_all(&[data]);
    assert_eq!(result.pass, true);
    assert_eq!(result.test_cases.len(), 1);
    let tc = &result.test_cases[0];
    assert_eq!(tc.name.as_deref(), Some("t1"));
    assert_eq!(tc.pass, TestPassState::Pass);
    assert_eq!(tc.result_display, ResultDisplay::Text("ok".to_string()));
}

#[test]
fn chunk_boundaries_do_not_matter() {
    let data: &[u8] =
        b"{\"name\":\"t1\",\"pass\":\"Pass\",\"resultDisplay\":{\"Text\":\"ok\"}}\n{\"pass\":true}\n";
    let whole = feed_all(&[data]);
    for cut in 0..data.len() {
        let split = feed_all(&[&data[..cut], &data[cut..]]);
        assert_eq!(split, whole);
    }
}

#[test]
fn fifty_one_cases_clamp_to_fifty_and_fail() {
    let mut stream = JudgeStream::new();
    for i in 0..51 {
        let line = format!(
            "{{\"name\":\"case{}\",\"pass\":\"Pass\",\"resultDisplay\":\"Empty\"}}\n",
            i
        );
        stream.feed(line.as_bytes());
    }
    let result = stream.finish();
    assert_eq!(result.pass, false);
    assert_eq!(result.test_cases.len(), 50);
    assert_eq!(result.test_cases[49].name.as_deref(), Some("case49"));
}

#[test]
fn invalid_line_becomes_debug_message() {
    let result = feed_all(&[b"not json\n"]);
    assert_eq!(result.pass, false);
    assert_eq!(result.test_cases.len(), 1);
    let tc = &result.test_cases[0];
    assert_eq!(tc.name.as_deref(), Some("Judge Debug Message"));
    assert_eq!(tc.pass, TestPassState::Info);
    assert_eq!(tc.result_display, ResultDisplay::Text("not json".to_string()));
}

#[test]
fn empty_lines_are_ignored() {
    let result = feed_all(&[b"\n\n{\"pass\":true}\n\n"]);
    assert_eq!(result.pass, true);
    assert_eq!(result.test_cases.len(), 0);
}

#[test]
fn verdict_last_one_wins() {
    let result = feed_all(&[b"{\"pass\":true}\n{\"pass\":false}\n"]);
    assert_eq!(result.pass, false);
    let result = feed_all(&[b"{\"pass\":false}\n{\"pass\":true}\n"]);
    assert_eq!(result.pass, true);
}

#[test]
fn no_verdict_means_failure() {
    let result = feed_all(&[b"{\"pass\":\"Pass\",\"resultDisplay\":\"Empty\"}\n"]);
    assert_eq!(result.pass, false);
    assert_eq!(result.test_cases.len(), 1);
}

#[test]
fn trailing_line_without_newline_is_not_folded() {
    let result = feed_all(&[b"{\"pass\":true}"]);
    assert_eq!(result.pass, false);
    assert_eq!(result.test_cases.len(), 0);
}

#[test]
fn parse_verdict_line_accepts_whitespace() {
    let v = parse_verdict_line(b"  { \"pass\" : true }  ");
    assert_eq!(v, Some(FinalVerdict { pass: true }));
    let v = parse_verdict_line(b"{\"pass\":false}\r");
    assert_eq!(v, Some(FinalVerdict { pass: false }));
}

#[test]
fn parse_verdict_line_rejects_extras() {
    assert_eq!(parse_verdict_line(b"{\"pass\":true,\"x\":true}"), None);
    assert_eq!(parse_verdict_line(b"{\"pass\":\"true\"}"), None);
    assert_eq!(parse_verdict_line(b"{\"pass\":true} x"), None);
    assert_eq!(parse_verdict_line(b""), None);
}

#[test]
fn test_case_fields_any_order() {
    let tc = parse_test_case_line(
        b"{\"resultDisplay\":\"Empty\",\"name\":\"a\",\"pass\":\"Fail\"}",
    )
    .unwrap();
    assert_eq!(tc.name.as_deref(), Some("a"));
    assert_eq!(tc.pass, TestPassState::Fail);
    assert_eq!(tc.result_display, ResultDisplay::Empty);
}

#[test]
fn test_case_name_is_optional() {
    let tc = parse_test_case_line(b"{\"pass\":\"Warning\",\"resultDisplay\":\"Empty\"}").unwrap();
    assert_eq!(tc.name, None);
    assert_eq!(tc.pass, TestPassState::Warning);
}

#[test]
fn test_case_name_may_be_null() {
    let tc = parse_test_case_line(
        b"{\"name\":null,\"pass\":\"Pass\",\"resultDisplay\":\"Empty\"}",
    )
    .unwrap();
    assert_eq!(tc.name, None);
    // a null name still counts as the key being given once
    assert!(parse_test_case_line(
        b"{\"name\":null,\"name\":\"a\",\"pass\":\"Pass\",\"resultDisplay\":\"Empty\"}"
    )
    .is_none());
}

#[test]
fn test_case_missing_required_fields_rejected() {
    assert!(parse_test_case_line(b"{\"name\":\"a\",\"pass\":\"Pass\"}").is_none());
    assert!(parse_test_case_line(b"{\"name\":\"a\",\"resultDisplay\":\"Empty\"}").is_none());
    assert!(parse_test_case_line(b"{}").is_none());
}

#[test]
fn test_case_duplicate_or_unknown_keys_rejected() {
    assert!(parse_test_case_line(
        b"{\"pass\":\"Pass\",\"pass\":\"Fail\",\"resultDisplay\":\"Empty\"}"
    )
    .is_none());
    assert!(parse_test_case_line(
        b"{\"pass\":\"Pass\",\"resultDisplay\":\"Empty\",\"extra\":\"x\"}"
    )
    .is_none());
}

#[test]
fn display_diff_both_orders() {
    let tc = parse_test_case_line(
        b"{\"pass\":\"Fail\",\"resultDisplay\":{\"Diff\":{\"output\":\"a\",\"expected\":\"b\"}}}",
    )
    .unwrap();
    assert_eq!(
        tc.result_display,
        ResultDisplay::Diff { output: "a".to_string(), expected: "b".to_string() }
    );
    let tc = parse_test_case_line(
        b"{\"pass\":\"Fail\",\"resultDisplay\":{\"Diff\":{\"expected\":\"b\",\"output\":\"a\"}}}",
    )
    .unwrap();
    assert_eq!(
        tc.result_display,
        ResultDisplay::Diff { output: "a".to_string(), expected: "b".to_string() }
    );
}

#[test]
fn display_run_with_and_without_input() {
    let tc = parse_test_case_line(
        b"{\"pass\":\"Pass\",\"resultDisplay\":{\"Run\":{\"input\":\"i\",\"output\":\"o\",\"error\":\"e\"}}}",
    )
    .unwrap();
    assert_eq!(
        tc.result_display,
        ResultDisplay::Run {
            input: Some("i".to_string()),
            output: "o".to_string(),
            error: "e".to_string()
        }
    );
    let tc = parse_test_case_line(
        b"{\"pass\":\"Pass\",\"resultDisplay\":{\"Run\":{\"output\":\"o\",\"error\":\"e\"}}}",
    )
    .unwrap();
    assert_eq!(
        tc.result_display,
        ResultDisplay::Run { input: None, output: "o".to_string(), error: "e".to_string() }
    );
}

#[test]
fn string_escapes_are_decoded() {
    let tc = parse_test_case_line(
        b"{\"pass\":\"Pass\",\"resultDisplay\":{\"Text\":\"a\\n\\t\\\"\\\\b\\/\"}}",
    )
    .unwrap();
    assert_eq!(tc.result_display, ResultDisplay::Text("a\n\t\"\\b/".to_string()));
}

#[test]
fn utf8_content_passes_through() {
    let line = "{\"pass\":\"Pass\",\"resultDisplay\":{\"Text\":\"héllo ☃\"}}".as_bytes();
    let tc = parse_test_case_line(line).unwrap();
    assert_eq!(tc.result_display, ResultDisplay::Text("héllo ☃".to_string()));
}

#[test]
fn long_content_truncated_to_ceiling() {
    let mut line = Vec::new();
    line.extend_from_slice(b"{\"pass\":\"Pass\",\"resultDisplay\":{\"Text\":\"");
    line.extend(std::iter::repeat(b'x').take(12000));
    line.extend_from_slice(b"\"}}");
    let tc = parse_test_case_line(&line).unwrap();
    match tc.result_display {
        ResultDisplay::Text(t) => assert_eq!(t.len(), 10000),
        other => panic!("unexpected display {:?}", other),
    }
}

#[test]
fn serde_json_agrees_on_accepted_lines() {
    // Any line this parser accepts is valid JSON with the same content.
    let line = b"{\"name\":\"t1\",\"pass\":\"Pass\",\"resultDisplay\":{\"Text\":\"ok\"}}";
    let tc = parse_test_case_line(line).unwrap();
    let value: serde_json::Value = serde_json::from_slice(line).unwrap();
    assert_eq!(value.get("name").unwrap().as_str().unwrap(), tc.name.as_deref().unwrap());
    assert_eq!(value.get("pass").unwrap().as_str().unwrap(), "Pass");
    assert_eq!(
        value.get("resultDisplay").unwrap().get("Text").unwrap().as_str().unwrap(),
        "ok"
    );
}

#[test]
fn apply_to_judge_result_counts_debug_lines_against_ceiling() {
    let mut result = JudgeResult::empty();
    let mut overflowed = false;
    for _ in 0..50 {
        apply_to_judge_result(&mut result, &mut overflowed, b"junk");
    }
    assert_eq!(result.test_cases.len(), 50);
    assert!(!overflowed);
    apply_to_judge_result(&mut result, &mut overflowed, b"junk");
    assert_eq!(result.test_cases.len(), 50);
    assert_eq!(result.pass, false);
    assert!(overflowed);
}

#[test]
fn invalid_utf8_degrades_to_replacement_characters() {
    let mut result = JudgeResult::empty();
    let mut overflowed = false;
    apply_to_judge_result(&mut result, &mut overflowed, &[0xff, 0xfe]);
    match &result.test_cases[0].result_display {
        ResultDisplay::Text(t) => assert_eq!(t, "\u{fffd}\u{fffd}"),
        other => panic!("unexpected display {:?}", other),
    }
}

#[test]
fn fifty_one_cases_then_true_verdict_stays_failed() {
    // once the ceiling forced a failure, a later verdict cannot undo it
    let mut stream = JudgeStream::new();
    for i in 0..51 {
        let line = format!(
            "{{\"name\":\"case{}\",\"pass\":\"Pass\",\"resultDisplay\":\"Empty\"}}\n",
            i
        );
        stream.feed(line.as_bytes());
    }
    stream.feed(b"{\"pass\":true}\n");
    let result = stream.finish();
    assert_eq!(result.pass, false);
    assert_eq!(result.test_cases.len(), 50);
}

#[test]
fn exactly_fifty_cases_then_verdict_still_applies() {
    // fifty stored cases do not breach the ceiling; the verdict counts
    let mut stream = JudgeStream::new();
    for i in 0..50 {
        let line = format!(
            "{{\"name\":\"case{}\",\"pass\":\"Pass\",\"resultDisplay\":\"Empty\"}}\n",
            i
        );
        stream.feed(line.as_bytes());
    }
    stream.feed(b"{\"pass\":true}\n");
    let result = stream.finish();
    assert_eq!(result.pass, true);
    assert_eq!(result.test_cases.len(), 50);
}

#[test]
fn unicode_escapes_are_decoded() {
    let tc = parse_test_case_line(
        b"{\"pass\":\"Pass\",\"resultDisplay\":{\"Text\":\"\\u0041\\u00e9\\u2028\"}}",
    )
    .unwrap();
    assert_eq!(tc.result_display, ResultDisplay::Text("A\u{e9}\u{2028}".to_string()));
}

#[test]
fn surrogate_pairs_are_combined() {
    let tc = parse_test_case_line(
        b"{\"pass\":\"Pass\",\"resultDisplay\":{\"Text\":\"\\ud83d\\ude00\"}}",
    )
    .unwrap();
    assert_eq!(tc.result_display, ResultDisplay::Text("\u{1f600}".to_string()));
}

#[test]
fn lone_surrogates_are_rejected() {
    assert!(parse_test_case_line(
        b"{\"pass\":\"Pass\",\"resultDisplay\":{\"Text\":\"\\ud83d\"}}"
    )
    .is_none());
    assert!(parse_test_case_line(
        b"{\"pass\":\"Pass\",\"resultDisplay\":{\"Text\":\"\\ude00\"}}"
    )
    .is_none());
    assert!(parse_test_case_line(
        b"{\"pass\":\"Pass\",\"resultDisplay\":{\"Text\":\"\\uZZZZ\"}}"
    )
    .is_none());
}

#[test]
fn serde_json_agrees_on_unicode_escapes() {
    let line = b"{\"pass\":\"Pass\",\"resultDisplay\":{\"Text\":\"\\u00e9\\ud83d\\ude00\"}}";
    let tc = parse_test_case_line(line).unwrap();
    let value: serde_json::Value = serde_json::from_slice(line).unwrap();
    let expected = value
        .get("resultDisplay")
        .unwrap()
        .get("Text")
        .unwrap()
        .as_str()
        .unwrap()
        .to_string();
    assert_eq!(tc.result_display, ResultDisplay::Text(expected));
}
