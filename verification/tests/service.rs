//! Tests of the provisioning cache and the assembly of one sandboxed run.

use byte_heist::cachemap::CacheMap;
use byte_heist::judge::TestPassState;
use byte_heist::langs::{find_lang, langs};
use byte_heist::parse_output::JudgeStream;
use byte_heist::provision::{
    install_args, list_args, needs_plugin, needs_version, new_cache, note_plugin_installed,
    note_version_installed, plugin_add_args, plugin_list_args, seed_cache, where_args,
};
use byte_heist::run::{
    assemble_output, bwrap_args, install_dir_from_stdout, runner_input_json, versions_from_listing,
    Message, MAX_CONCURRENT_RUNS, RUN_TIMEOUT_SECONDS,
};

#[test]
fn cachemap_fill_and_get() {
    let mut m: CacheMap<u32> = CacheMap::new();
    assert!(m.get(&"a".to_string()).is_none());
    m.fill(&"a".to_string(), 7);
    assert_eq!(m.get(&"a".to_string()), Some(&7));
    assert!(m.get(&"b".to_string()).is_none());
    m.fill(&"b".to_string(), 9);
    assert_eq!(m.get(&"a".to_string()), Some(&7));
    assert_eq!(m.get(&"b".to_string()), Some(&9));
}

#[test]
fn ensure_version_is_idempotent_after_success() {
    let mut cache = new_cache();
    let lang = "python".to_string();
    let version = "3.12.0".to_string();
    // first request: both installs have to run
    assert!(needs_plugin(&cache, &lang));
    note_plugin_installed(&mut cache, &lang);
    assert!(needs_version(&cache, &lang, &version));
    note_version_installed(&mut cache, &lang, &version);
    // re-running ensure_version after a success performs no install
    assert!(!needs_plugin(&cache, &lang));
    assert!(!needs_version(&cache, &lang, &version));
    // other pairs are untouched
    assert!(needs_version(&cache, &lang, &"3.11.0".to_string()));
    assert!(needs_plugin(&cache, &"rust".to_string()));
}

#[test]
fn failed_install_leaves_the_pair_open_for_retry() {
    let mut cache = new_cache();
    let lang = "python".to_string();
    // a failed install records nothing, so the decision does not change
    assert!(needs_plugin(&cache, &lang));
    assert!(needs_plugin(&cache, &lang));
    note_plugin_installed(&mut cache, &lang);
    assert!(!needs_plugin(&cache, &lang));
}

#[test]
fn seeded_cache_knows_the_listing() {
    let pairs = vec![
        ("nodejs".to_string(), vec!["22.9.0".to_string(), "18.0.0".to_string()]),
        ("python".to_string(), vec!["3.12.0".to_string()]),
        ("python".to_string(), vec!["3.11.0".to_string()]),
    ];
    let cache = seed_cache(&pairs);
    assert!(!needs_version(&cache, &"nodejs".to_string(), &"22.9.0".to_string()));
    assert!(!needs_version(&cache, &"nodejs".to_string(), &"18.0.0".to_string()));
    assert!(!needs_version(&cache, &"python".to_string(), &"3.12.0".to_string()));
    assert!(!needs_version(&cache, &"python".to_string(), &"3.11.0".to_string()));
    assert!(needs_version(&cache, &"python".to_string(), &"3.10.0".to_string()));
    assert!(needs_plugin(&cache, &"rust".to_string()));
}

#[test]
fn toolchain_manager_argument_lists() {
    let catalog = langs();
    let py = find_lang(&catalog, &"python".to_string()).unwrap();
    assert_eq!(
        plugin_add_args(py),
        vec![
            "plugin".to_string(),
            "add".to_string(),
            "python".to_string(),
            "https://github.com/asdf-community/asdf-python.git".to_string()
        ]
    );
    assert_eq!(
        install_args(py, &"3.12.0".to_string()),
        vec!["install".to_string(), "python".to_string(), "3.12.0".to_string()]
    );
    assert_eq!(
        where_args(py, &"3.12.0".to_string()),
        vec!["where".to_string(), "python".to_string(), "3.12.0".to_string()]
    );
    assert_eq!(
        list_args(&"python".to_string()),
        vec!["list".to_string(), "python".to_string()]
    );
    assert_eq!(plugin_list_args(), vec!["plugin".to_string(), "list".to_string()]);
}

#[test]
fn catalog_contents() {
    let catalog = langs();
    assert_eq!(catalog.len(), 7);
    let deno = find_lang(&catalog, &"deno".to_string()).unwrap();
    assert_eq!(deno.latest_version, "2.0.6");
    assert_eq!(deno.display_name, "JavaScript (Deno)");
    assert!(find_lang(&catalog, &"cobol".to_string()).is_none());
}

#[test]
fn bwrap_invocation_shape() {
    let catalog = langs();
    let deno = find_lang(&catalog, &"deno".to_string()).unwrap();
    let args = bwrap_args(
        &"/opt/py".to_string(),
        &"/opt/deno".to_string(),
        deno,
    );
    // fixed head
    assert_eq!(args[0], "--die-with-parent");
    // the two resolved install roots at their fixed mount points
    let lang_at = args.iter().position(|a| a == "/opt/py").unwrap();
    assert_eq!(args[lang_at - 1], "--ro-bind");
    assert_eq!(args[lang_at + 1], "/lang");
    let judge_at = args.iter().position(|a| a == "/opt/deno").unwrap();
    assert_eq!(args[judge_at + 1], "/judge");
    // namespace isolation
    assert!(args.iter().any(|a| a == "--unshare-all"));
    assert!(args.iter().any(|a| a == "--new-session"));
    // the environment allow-list of the judge runtime
    let env_at = args.iter().position(|a| a == "NO_COLOR").unwrap();
    assert_eq!(args[env_at - 1], "--setenv");
    assert_eq!(args[env_at + 1], "1");
    // the entry point with placeholders filled in
    assert_eq!(args[args.len() - 5], "/judge/bin/deno");
    assert_eq!(args[args.len() - 1], "/scripts/runner.ts");
}

#[test]
fn runner_input_is_json_with_the_request_inside() {
    let catalog = langs();
    let py = find_lang(&catalog, &"python".to_string()).unwrap();
    let bytes = runner_input_json(py, &"print(1)".to_string(), &"judge \"code\"".to_string());
    let value: serde_json::Value = serde_json::from_slice(&bytes).unwrap();
    assert_eq!(value.get("code").unwrap().as_str().unwrap(), "print(1)");
    assert_eq!(value.get("judge").unwrap().as_str().unwrap(), "judge \"code\"");
    let lang = value.get("lang").unwrap();
    assert_eq!(lang.get("pluginName").unwrap().as_str().unwrap(), "python");
    assert_eq!(lang.get("latestVersion").unwrap().as_str().unwrap(), "3.12.0");
    let env = lang.get("env").unwrap().as_array().unwrap();
    assert_eq!(env[0].as_array().unwrap()[0].as_str().unwrap(), "LD_LIBRARY_PATH");
    assert_eq!(env[0].as_array().unwrap()[1].as_str().unwrap(), "/lang/lib");
}

#[test]
fn install_dir_is_trimmed_stdout() {
    assert_eq!(install_dir_from_stdout(b"  /opt/tool/python/3.12.0\n"), "/opt/tool/python/3.12.0");
    assert_eq!(install_dir_from_stdout(b"\r\n"), "");
    assert_eq!(install_dir_from_stdout(&[0xff, b'\n']), "\u{fffd}");
}

#[test]
fn versions_listing_is_split_and_trimmed() {
    let out = versions_from_listing(b"  3.11.0\n  3.12.0\n\n");
    assert_eq!(out, vec!["3.11.0".to_string(), "3.12.0".to_string()]);
    let out = versions_from_listing(b"one\ntwo");
    assert_eq!(out, vec!["one".to_string(), "two".to_string()]);
    let out = versions_from_listing(b"");
    assert!(out.is_empty());
}

#[test]
fn run_limits_are_fixed() {
    assert_eq!(RUN_TIMEOUT_SECONDS, 3);
    assert_eq!(MAX_CONCURRENT_RUNS, 4);
}

#[test]
fn trivial_judge_run_passes_without_timeout() {
    // the decision path of one whole request, with the outside world played
    // by fixed values: a trivial judge that prints a passing verdict
    let catalog = langs();
    let message = Message {
        lang: "python".to_string(),
        version: "3.12.0".to_string(),
        code: "print(1)".to_string(),
        judge: "trivial".to_string(),
    };
    // the request validates: the language exists, as does the judge runtime
    let lang = find_lang(&catalog, &message.lang).unwrap();
    let judge_lang = find_lang(&catalog, &"deno".to_string()).unwrap();
    // provisioning: the installs run once and are recorded
    let mut cache = new_cache();
    for (l, v) in [
        (judge_lang.plugin_name.clone(), judge_lang.latest_version.clone()),
        (lang.plugin_name.clone(), message.version.clone()),
    ] {
        if needs_plugin(&cache, &l) {
            note_plugin_installed(&mut cache, &l);
        }
        if needs_version(&cache, &l, &v) {
            note_version_installed(&mut cache, &l, &v);
        }
    }
    assert!(!needs_version(&cache, &message.lang, &message.version));
    // the sandbox invocation and the descriptor are put together
    let args = bwrap_args(&"/opt/py".to_string(), &"/opt/deno".to_string(), judge_lang);
    assert!(args.iter().any(|a| a == "--unshare-all"));
    let descriptor = runner_input_json(lang, &message.code, &message.judge);
    assert!(serde_json::from_slice::<serde_json::Value>(&descriptor).is_ok());
    // the child prints one passing verdict and exits before the deadline
    let mut stream = JudgeStream::new();
    stream.feed(b"{\"pass\":true}\n");
    let tests = stream.finish();
    let output = assemble_output(tests, Vec::new(), false);
    assert_eq!(output.tests.pass, true);
    assert_eq!(output.timed_out, false);
    assert_eq!(output.stderr, "");
}

#[test]
fn timed_out_run_reports_failure_without_a_verdict() {
    // the child was killed at the deadline before any verdict record
    let mut stream = JudgeStream::new();
    stream.feed(b"{\"name\":\"t\",\"pass\":\"Pass\",\"resultDisplay\":\"Empty\"}\n");
    let tests = stream.finish();
    let output = assemble_output(tests, b"killed".to_vec(), true);
    assert_eq!(output.timed_out, true);
    assert_eq!(output.tests.pass, false);
    assert_eq!(output.stderr, "killed");
}

#[test]
fn stderr_is_truncated_to_its_cap() {
    let mut stream = JudgeStream::new();
    stream.feed(b"{\"pass\":true}\n");
    let tests = stream.finish();
    let long: Vec<u8> = std::iter::repeat(b'e').take(1500).collect();
    let output = assemble_output(tests, long, false);
    assert_eq!(output.stderr.len(), 1000);
    assert_eq!(output.tests.pass, true);
}

#[test]
fn judge_debug_state_is_info() {
    assert_ne!(TestPassState::Info, TestPassState::Pass);
}
