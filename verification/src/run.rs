//! Construction of one sandboxed judge run.
//!
//! A run spawns the sandbox helper with a fixed, minimal set of mounts and
//! namespace flags, the two resolved toolchain install roots bound read-only
//! at fixed in-sandbox paths, an explicit environment allow-list, and the
//! judge runtime's run command as the entry point. The run parameters are not
//! command-line arguments: they are one serialized descriptor written to the
//! child's standard input. This module builds all of that; the surrounding
//! application only spawns the process and moves the bytes.

use vstd::prelude::*;

use crate::judge::{JudgeResult, RunLangOutput};
use crate::langs::{Lang, LangV};
use vstd::string::StringSliceAdditionalSpecFns;

verus! {

// ---------------------------------------------------------------------------
// Placeholder substitution
// ---------------------------------------------------------------------------

/// `s` with every occurrence of `pat` replaced by `rep`, scanning left to
/// right without overlap, as `str::replace` does.
pub open spec fn spec_replace(s: Seq<char>, pat: Seq<char>, rep: Seq<char>) -> Seq<char>
    decreases s.len(),
{
    if s.len() == 0 {
        s
    } else if 0 < pat.len() <= s.len() && s.take(pat.len() as int) == pat {
        rep + spec_replace(s.skip(pat.len() as int), pat, rep)
    } else {
        seq![s[0]] + spec_replace(s.drop_first(), pat, rep)
    }
}

fn has_pat_at(s: &str, pat: &str, i: usize) -> (r: bool)
    requires
        i + pat@.len() <= s@.len(),
    ensures
        r == (s@.subrange(i as int, i + pat@.len()) == pat@),
{
    let n = s.unicode_len();
    let m = pat.unicode_len();
    let mut j: usize = 0;
    while j < m
        invariant
            j <= m,
            n == s@.len(),
            m == pat@.len(),
            i + m <= n,
            forall|k: int| 0 <= k < j ==> s@[i + k] == pat@[k],
        decreases m - j,
    {
        if s.get_char(i + j) != pat.get_char(j) {
            proof {
                assert(s@.subrange(i as int, i + pat@.len())[j as int] == s@[i + j]);
            }
            return false;
        }
        j = j + 1;
    }
    proof {
        assert(s@.subrange(i as int, i + pat@.len()) =~= pat@);
    }
    true
}

/// Replaces every occurrence of `pat` in `s` by `rep`, left to right.
pub fn replace_str(s: &str, pat: &str, rep: &str) -> (r: String)
    requires
        pat@.len() > 0,
    ensures
        r@ == spec_replace(s@, pat@, rep@),
{
    let n = s.unicode_len();
    let m = pat.unicode_len();
    let mut out = String::new();
    let mut i: usize = 0;
    proof {
        assert(s@.skip(0) =~= s@);
    }
    while i < n
        invariant
            i <= n,
            n == s@.len(),
            m == pat@.len(),
            pat@.len() > 0,
            spec_replace(s@, pat@, rep@) == out@ + spec_replace(s@.skip(i as int), pat@, rep@),
        decreases n - i,
    {
        let ghost pre = out@;
        let ghost rest = s@.skip(i as int);
        proof {
            assert(rest[0] == s@[i as int]);
            assert(rest.drop_first() =~= s@.skip(i as int + 1));
            if i + m <= n {
                assert(rest.take(m as int) =~= s@.subrange(i as int, i as int + m));
                assert(rest.skip(m as int) =~= s@.skip(i as int + m));
            }
        }
        if m <= n - i && has_pat_at(s, pat, i) {
            out.append(rep);
            proof {
                assert(out@ + spec_replace(s@.skip(i as int + m), pat@, rep@) =~= pre + (rep@
                    + spec_replace(s@.skip(i as int + m), pat@, rep@)));
            }
            i = i + m;
        } else {
            let piece = s.substring_char(i, i + 1);
            out.append(piece);
            proof {
                assert(piece@ =~= seq![s@[i as int]]);
                assert(out@ + spec_replace(s@.skip(i as int + 1), pat@, rep@) =~= pre + (seq![
                    s@[i as int]] + spec_replace(s@.skip(i as int + 1), pat@, rep@)));
            }
            i = i + 1;
        }
    }
    proof {
        assert(s@.skip(n as int) =~= Seq::<char>::empty());
        assert(out@ + Seq::<char>::empty() =~= out@);
    }
    out
}


// ---------------------------------------------------------------------------
// One execution request
// ---------------------------------------------------------------------------

/// One inbound execution request: which language and version to run the
/// candidate code on, and the judge program that drives it.
#[derive(Clone, PartialEq, Eq, Debug)]
pub struct Message {
    pub lang: String,
    pub version: String,
    pub code: String,
    pub judge: String,
}

/// Mathematical image of [`Message`].
pub ghost struct MessageV {
    pub lang: Seq<char>,
    pub version: Seq<char>,
    pub code: Seq<char>,
    pub judge: Seq<char>,
}

impl View for Message {
    type V = MessageV;

    open spec fn view(&self) -> MessageV {
        MessageV {
            lang: self.lang@,
            version: self.version@,
            code: self.code@,
            judge: self.judge@,
        }
    }
}

// ---------------------------------------------------------------------------
// The sandbox invocation
// ---------------------------------------------------------------------------

/// The `--setenv` flags for the judge runtime's environment allow-list, in
/// catalog order.
pub open spec fn spec_env_flags(env: Seq<(Seq<char>, Seq<char>)>) -> Seq<Seq<char>>
    decreases env.len(),
{
    if env.len() == 0 {
        Seq::empty()
    } else {
        seq!["--setenv"@, env[0].0, env[0].1] + spec_env_flags(env.drop_first())
    }
}

proof fn lemma_env_flags_snoc(env: Seq<(Seq<char>, Seq<char>)>, i: int)
    requires
        0 <= i < env.len(),
    ensures
        spec_env_flags(env.take(i + 1)) == spec_env_flags(env.take(i)) + seq![
            "--setenv"@,
            env[i].0,
            env[i].1,
        ],
    decreases i,
{
    if i == 0 {
        assert(env.take(1) =~= seq![env[0]]);
        assert(env.take(1).drop_first() =~= Seq::<(Seq<char>, Seq<char>)>::empty());
        assert(env.take(0) =~= Seq::<(Seq<char>, Seq<char>)>::empty());
        assert(spec_env_flags(env.take(1)) == seq!["--setenv"@, env.take(1)[0].0, env.take(1)[0].1]
            + spec_env_flags(env.take(1).drop_first()));
        assert(spec_env_flags(env.take(1)) =~= seq!["--setenv"@, env[0].0, env[0].1]);
        assert(spec_env_flags(env.take(0)) + seq!["--setenv"@, env[0].0, env[0].1] =~= seq![
            "--setenv"@,
            env[0].0,
            env[0].1,
        ]);
    } else {
        let d = env.drop_first();
        lemma_env_flags_snoc(d, i - 1);
        assert(env.take(i + 1).drop_first() =~= d.take(i));
        assert(env.take(i).drop_first() =~= d.take(i - 1));
        assert(d[i - 1] == env[i]);
        assert(spec_env_flags(env.take(i + 1)) == seq!["--setenv"@, env[0].0, env[0].1]
            + spec_env_flags(d.take(i)));
        assert(spec_env_flags(env.take(i)) == seq!["--setenv"@, env[0].0, env[0].1]
            + spec_env_flags(d.take(i - 1)));
        assert((seq!["--setenv"@, env[0].0, env[0].1] + spec_env_flags(d.take(i - 1))) + seq![
            "--setenv"@,
            env[i].0,
            env[i].1,
        ] =~= seq!["--setenv"@, env[0].0, env[0].1] + (spec_env_flags(d.take(i - 1)) + seq![
            "--setenv"@,
            env[i].0,
            env[i].1,
        ]));
    }
}

/// The in-sandbox mount point of the candidate language's toolchain.
pub open spec fn spec_lang_mount() -> Seq<char> {
    "/lang"@
}

/// The in-sandbox mount point of the judge runtime's toolchain.
pub open spec fn spec_judge_mount() -> Seq<char> {
    "/judge"@
}

/// The in-sandbox path of the fixed judge-driver script.
pub open spec fn spec_runner_script() -> Seq<char> {
    "/scripts/runner.ts"@
}

/// One element of the judge runtime's run command with the placeholders
/// filled in: the runtime's own location first, then the driver script.
pub open spec fn spec_substitute(c: Seq<char>) -> Seq<char> {
    spec_replace(
        spec_replace(c, "${LANG_LOCATION}"@, spec_judge_mount()),
        "${FILE_LOCATION}"@,
        spec_runner_script(),
    )
}

/// The judge runtime's run command with the placeholders filled in.
pub open spec fn spec_substituted_run_command(cmds: Seq<Seq<char>>) -> Seq<Seq<char>> {
    cmds.map_values(|c: Seq<char>| spec_substitute(c))
}

/// The fixed head of every sandbox invocation: read-only binds of the
/// minimal host directories, private temporary and home directories, and a
/// fixed HOME.
pub open spec fn spec_bwrap_prefix() -> Seq<Seq<char>> {
    seq!["--die-with-parent"@, "--ro-bind"@, "/bin"@, "/bin"@, "--chdir"@, "/"@, "--ro-bind"@, "/lib64"@, "/lib64"@, "--ro-bind"@, "/usr"@, "/usr"@, "--ro-bind"@, "/lib"@, "/lib"@, "--ro-bind"@, "/etc"@, "/etc"@, "--ro-bind"@, "/etc/alternatives"@, "/etc/alternatives"@, "--tmpfs"@, "/tmp"@, "--tmpfs"@, "/home/yq"@, "--setenv"@, "HOME"@, "/home/yq"@]
}

/// The whole argument list of one sandbox invocation: the fixed head, the
/// two resolved toolchain roots bound at their fixed mount points, the
/// read-only script directory, full namespace isolation, the environment
/// allow-list of the judge runtime, and its run command as the entry point.
pub open spec fn spec_bwrap_args(
    code_dir: Seq<char>,
    judge_dir: Seq<char>,
    judge_lang: LangV,
) -> Seq<Seq<char>> {
    spec_bwrap_prefix() + seq![
        "--ro-bind"@,
        code_dir,
        spec_lang_mount(),
        "--ro-bind"@,
        judge_dir,
        spec_judge_mount(),
        "--ro-bind"@,
        "/scripts"@,
        "/scripts"@,
        "--unshare-all"@,
        "--new-session"@,
    ] + spec_env_flags(judge_lang.env) + spec_substituted_run_command(judge_lang.run_command)
}

/// Builds the sandbox helper's argument list for one run.
pub fn bwrap_args(code_dir: &String, judge_dir: &String, judge_lang: &Lang) -> (r: Vec<String>)
    ensures
        r@.map_values(|s: String| s@) == spec_bwrap_args(code_dir@, judge_dir@, judge_lang@),
{
    let mut r: Vec<String> = Vec::new();
    r.push("--die-with-parent".to_owned());
    r.push("--ro-bind".to_owned());
    r.push("/bin".to_owned());
    r.push("/bin".to_owned());
    r.push("--chdir".to_owned());
    r.push("/".to_owned());
    r.push("--ro-bind".to_owned());
    r.push("/lib64".to_owned());
    r.push("/lib64".to_owned());
    r.push("--ro-bind".to_owned());
    r.push("/usr".to_owned());
    r.push("/usr".to_owned());
    r.push("--ro-bind".to_owned());
    r.push("/lib".to_owned());
    r.push("/lib".to_owned());
    r.push("--ro-bind".to_owned());
    r.push("/etc".to_owned());
    r.push("/etc".to_owned());
    r.push("--ro-bind".to_owned());
    r.push("/etc/alternatives".to_owned());
    r.push("/etc/alternatives".to_owned());
    r.push("--tmpfs".to_owned());
    r.push("/tmp".to_owned());
    r.push("--tmpfs".to_owned());
    r.push("/home/yq".to_owned());
    r.push("--setenv".to_owned());
    r.push("HOME".to_owned());
    r.push("/home/yq".to_owned());
    r.push("--ro-bind".to_owned());
    r.push(code_dir.clone());
    r.push("/lang".to_owned());
    r.push("--ro-bind".to_owned());
    r.push(judge_dir.clone());
    r.push("/judge".to_owned());
    r.push("--ro-bind".to_owned());
    r.push("/scripts".to_owned());
    r.push("/scripts".to_owned());
    r.push("--unshare-all".to_owned());
    r.push("--new-session".to_owned());
    let ghost head = spec_bwrap_prefix() + seq![
        "--ro-bind"@,
        code_dir@,
        spec_lang_mount(),
        "--ro-bind"@,
        judge_dir@,
        spec_judge_mount(),
        "--ro-bind"@,
        "/scripts"@,
        "/scripts"@,
        "--unshare-all"@,
        "--new-session"@,
    ];
    proof {
        assert(r@.map_values(|s: String| s@) =~= head);
        assert(judge_lang@.env.take(0) =~= Seq::<(Seq<char>, Seq<char>)>::empty());
        assert(head + spec_env_flags(judge_lang@.env.take(0)) =~= head);
    }
    let ghost envv = judge_lang@.env;
    let en = judge_lang.env.len();
    let mut i: usize = 0;
    while i < en
        invariant
            i <= en,
            en == judge_lang.env@.len(),
            envv == judge_lang@.env,
            r@.map_values(|s: String| s@) == head + spec_env_flags(envv.take(i as int)),
        decreases en - i,
    {
        let ghost pre = r@.map_values(|s: String| s@);
        r.push("--setenv".to_owned());
        r.push(judge_lang.env[i].0.clone());
        r.push(judge_lang.env[i].1.clone());
        proof {
            lemma_env_flags_snoc(envv, i as int);
            assert(envv[i as int] == (judge_lang.env@[i as int].0@, judge_lang.env@[i as int].1@));
            assert(r@.map_values(|s: String| s@) =~= pre + seq![
                "--setenv"@,
                envv[i as int].0,
                envv[i as int].1,
            ]);
            assert(pre + seq!["--setenv"@, envv[i as int].0, envv[i as int].1] =~= head
                + spec_env_flags(envv.take(i as int + 1)));
        }
        i = i + 1;
    }
    let ghost head2 = head + spec_env_flags(envv);
    proof {
        assert(envv.take(en as int) =~= envv);
        assert(spec_substituted_run_command(judge_lang@.run_command.take(0)) =~= Seq::<
            Seq<char>,
        >::empty());
        assert(head2 + spec_substituted_run_command(judge_lang@.run_command.take(0)) =~= head2);
    }
    let ghost cmds = judge_lang@.run_command;
    let cn = judge_lang.run_command.len();
    let mut j: usize = 0;
    while j < cn
        invariant
            j <= cn,
            cn == judge_lang.run_command@.len(),
            cmds == judge_lang@.run_command,
            r@.map_values(|s: String| s@) == head2 + spec_substituted_run_command(
                cmds.take(j as int),
            ),
        decreases cn - j,
    {
        let ghost pre = r@.map_values(|s: String| s@);
        proof {
            reveal_strlit("${LANG_LOCATION}");
            reveal_strlit("${FILE_LOCATION}");
        }
        let one = replace_str(
            replace_str(judge_lang.run_command[j].as_str(), "${LANG_LOCATION}", "/judge").as_str(),
            "${FILE_LOCATION}",
            "/scripts/runner.ts",
        );
        r.push(one);
        proof {
            assert(cmds[j as int] == judge_lang.run_command@[j as int]@);
            assert(spec_substituted_run_command(cmds.take(j as int + 1))
                =~= spec_substituted_run_command(cmds.take(j as int)).push(
                spec_substitute(cmds[j as int]),
            ));
            assert(r@.map_values(|s: String| s@) =~= pre + seq![spec_substitute(cmds[j as int])]);
            assert(pre + seq![spec_substitute(cmds[j as int])] =~= head2
                + spec_substituted_run_command(cmds.take(j as int + 1)));
        }
        j = j + 1;
    }
    proof {
        assert(cmds.take(cn as int) =~= cmds);
    }
    r
}


// ---------------------------------------------------------------------------
// The run descriptor written to the child's standard input
// ---------------------------------------------------------------------------

/// The lower-case hex digit for `n` (`n < 16`).
pub open spec fn spec_hex_digit(n: u8) -> u8 {
    if n < 10 {
        (('0' as u8) + n) as u8
    } else {
        (('a' as u8) + (n - 10)) as u8
    }
}

/// How one byte of string content is written inside a JSON string: the named
/// short escapes, `\u00..` for the remaining control bytes, and every other
/// byte verbatim.
pub open spec fn spec_escape_byte(x: u8) -> Seq<u8> {
    if x == ('"' as u8) {
        seq![('\\' as u8), ('"' as u8)]
    } else if x == ('\\' as u8) {
        seq![('\\' as u8), ('\\' as u8)]
    } else if x == ('\n' as u8) {
        seq![('\\' as u8), ('n' as u8)]
    } else if x == ('\r' as u8) {
        seq![('\\' as u8), ('r' as u8)]
    } else if x == ('\t' as u8) {
        seq![('\\' as u8), ('t' as u8)]
    } else if x == 8u8 {
        seq![('\\' as u8), ('b' as u8)]
    } else if x == 12u8 {
        seq![('\\' as u8), ('f' as u8)]
    } else if x < 0x20 {
        seq![('\\' as u8), ('u' as u8), ('0' as u8), ('0' as u8), spec_hex_digit(x / 16), spec_hex_digit(x % 16)]
    } else {
        seq![x]
    }
}

/// The escaped form of a whole byte sequence.
pub open spec fn spec_escape_bytes(b: Seq<u8>) -> Seq<u8>
    decreases b.len(),
{
    if b.len() == 0 {
        Seq::empty()
    } else {
        spec_escape_bytes(b.drop_last()) + spec_escape_byte(b.last())
    }
}

/// The UTF-8 bytes of a piece of text.
pub open spec fn lit_bytes(s: Seq<char>) -> Seq<u8> {
    vstd::utf8::encode_utf8(s)
}

/// A JSON string literal holding `s`.
pub open spec fn spec_json_string(s: Seq<char>) -> Seq<u8> {
    (seq![('"' as u8)] + spec_escape_bytes(lit_bytes(s))) + seq![('"' as u8)]
}

/// The comma-joined JSON strings of `xs`.
pub open spec fn spec_join_strings(xs: Seq<Seq<char>>) -> Seq<u8>
    decreases xs.len(),
{
    if xs.len() == 0 {
        Seq::empty()
    } else if xs.len() == 1 {
        spec_json_string(xs.last())
    } else {
        (spec_join_strings(xs.drop_last()) + seq![(',' as u8)]) + spec_json_string(xs.last())
    }
}

/// A JSON array of strings.
pub open spec fn spec_json_str_array(xs: Seq<Seq<char>>) -> Seq<u8> {
    (seq![('[' as u8)] + spec_join_strings(xs)) + seq![(']' as u8)]
}

/// A string pair as a two-element JSON array.
pub open spec fn spec_json_pair(p: (Seq<char>, Seq<char>)) -> Seq<u8> {
    (((seq![('[' as u8)] + spec_json_string(p.0)) + seq![(',' as u8)]) + spec_json_string(p.1))
        + seq![(']' as u8)]
}

/// The comma-joined pairs of `ps`.
pub open spec fn spec_join_pairs(ps: Seq<(Seq<char>, Seq<char>)>) -> Seq<u8>
    decreases ps.len(),
{
    if ps.len() == 0 {
        Seq::empty()
    } else if ps.len() == 1 {
        spec_json_pair(ps.last())
    } else {
        (spec_join_pairs(ps.drop_last()) + seq![(',' as u8)]) + spec_json_pair(ps.last())
    }
}

/// A JSON array of string pairs.
pub open spec fn spec_json_pair_array(ps: Seq<(Seq<char>, Seq<char>)>) -> Seq<u8> {
    (seq![('[' as u8)] + spec_join_pairs(ps)) + seq![(']' as u8)]
}

/// The JSON object describing one catalog entry, fields in declaration
/// order, keys in camel case.
pub open spec fn spec_lang_json(l: LangV) -> Seq<u8> {
    lit_bytes("{\"pluginName\":"@) + spec_json_string(l.plugin_name) + lit_bytes(
        ",\"displayName\":"@,
    ) + spec_json_string(l.display_name) + lit_bytes(",\"compileCommand\":"@)
        + spec_json_str_array(l.compile_command) + lit_bytes(",\"runCommand\":"@)
        + spec_json_str_array(l.run_command) + lit_bytes(",\"plugin\":"@) + spec_json_string(
        l.plugin,
    ) + lit_bytes(",\"env\":"@) + spec_json_pair_array(l.env) + lit_bytes(",\"installEnv\":"@)
        + spec_json_pair_array(l.install_env) + lit_bytes(",\"latestVersion\":"@)
        + spec_json_string(l.latest_version) + lit_bytes(",\"icon\":"@) + spec_json_string(l.icon)
        + lit_bytes("}"@)
}

/// The run descriptor: the candidate language's catalog entry, the candidate
/// source, and the judge source, as one JSON object.
pub open spec fn spec_runner_input_json(l: LangV, code: Seq<char>, judge: Seq<char>) -> Seq<u8> {
    lit_bytes("{\"lang\":"@) + spec_lang_json(l) + lit_bytes(",\"code\":"@) + spec_json_string(
        code,
    ) + lit_bytes(",\"judge\":"@) + spec_json_string(judge) + lit_bytes("}"@)
}

fn hex_digit(n: u8) -> (r: u8)
    requires
        n < 16,
    ensures
        r == spec_hex_digit(n),
{
    if n < 10 {
        ('0' as u8) + n
    } else {
        ('a' as u8) + (n - 10)
    }
}

fn push_bytes(out: &mut Vec<u8>, s: &str)
    ensures
        final(out)@ == old(out)@ + s.spec_bytes(),
{
    let b = s.as_bytes();
    let n = b.len();
    let mut i: usize = 0;
    proof {
        assert(old(out)@ + b@.take(0) =~= old(out)@);
    }
    while i < n
        invariant
            i <= n,
            n == b@.len(),
            b@ == s.spec_bytes(),
            out@ == old(out)@ + b@.take(i as int),
        decreases n - i,
    {
        out.push(b[i]);
        proof {
            assert(out@ =~= old(out)@ + b@.take(i as int + 1));
        }
        i = i + 1;
    }
    proof {
        assert(b@.take(n as int) =~= b@);
    }
}

fn push_escaped(out: &mut Vec<u8>, b: &[u8])
    ensures
        final(out)@ == old(out)@ + spec_escape_bytes(b@),
{
    let n = b.len();
    let mut i: usize = 0;
    proof {
        assert(b@.take(0) =~= Seq::<u8>::empty());
        assert(old(out)@ + spec_escape_bytes(b@.take(0)) =~= old(out)@);
    }
    while i < n
        invariant
            i <= n,
            n == b@.len(),
            out@ == old(out)@ + spec_escape_bytes(b@.take(i as int)),
        decreases n - i,
    {
        let ghost pre = out@;
        let x = b[i];
        if x == ('"' as u8) {
            out.push('\\' as u8);
            out.push('"' as u8);
        } else if x == ('\\' as u8) {
            out.push('\\' as u8);
            out.push('\\' as u8);
        } else if x == ('\n' as u8) {
            out.push('\\' as u8);
            out.push('n' as u8);
        } else if x == ('\r' as u8) {
            out.push('\\' as u8);
            out.push('r' as u8);
        } else if x == ('\t' as u8) {
            out.push('\\' as u8);
            out.push('t' as u8);
        } else if x == 8u8 {
            out.push('\\' as u8);
            out.push('b' as u8);
        } else if x == 12u8 {
            out.push('\\' as u8);
            out.push('f' as u8);
        } else if x < 0x20 {
            out.push('\\' as u8);
            out.push('u' as u8);
            out.push('0' as u8);
            out.push('0' as u8);
            out.push(hex_digit(x / 16));
            out.push(hex_digit(x % 16));
        } else {
            out.push(x);
        }
        proof {
            assert(out@ =~= pre + spec_escape_byte(x));
            let t = b@.take(i as int + 1);
            assert(t.drop_last() =~= b@.take(i as int));
            assert(t.last() == x);
            assert(out@ =~= old(out)@ + spec_escape_bytes(b@.take(i as int + 1)));
        }
        i = i + 1;
    }
    proof {
        assert(b@.take(n as int) =~= b@);
    }
}

fn push_json_string(out: &mut Vec<u8>, s: &String)
    ensures
        final(out)@ == old(out)@ + spec_json_string(s@),
{
    out.push('"' as u8);
    push_escaped(out, s.as_str().as_bytes());
    out.push('"' as u8);
    proof {
        assert(final(out)@ =~= old(out)@ + spec_json_string(s@));
    }
}

fn push_json_str_array(out: &mut Vec<u8>, xs: &Vec<String>)
    ensures
        final(out)@ == old(out)@ + spec_json_str_array(xs@.map_values(|s: String| s@)),
{
    let ghost xsv = xs@.map_values(|s: String| s@);
    out.push('[' as u8);
    let n = xs.len();
    let mut i: usize = 0;
    proof {
        assert(xsv.take(0) =~= Seq::<Seq<char>>::empty());
        assert(out@ =~= (old(out)@ + seq![('[' as u8)]) + spec_join_strings(xsv.take(0)));
    }
    while i < n
        invariant
            i <= n,
            n == xs@.len(),
            xsv == xs@.map_values(|s: String| s@),
            out@ == (old(out)@ + seq![('[' as u8)]) + spec_join_strings(xsv.take(i as int)),
        decreases n - i,
    {
        let ghost pre = out@;
        if i > 0 {
            out.push(',' as u8);
        }
        push_json_string(out, &xs[i]);
        proof {
            let t = xsv.take(i as int + 1);
            assert(t.drop_last() =~= xsv.take(i as int));
            assert(t.last() == xsv[i as int]);
            assert(xsv[i as int] == xs@[i as int]@);
            if i == 0 {
                assert(out@ =~= pre + spec_json_string(xsv[i as int]));
                assert(spec_join_strings(t) == spec_json_string(t.last()));
            } else {
                assert(out@ =~= (pre + seq![(',' as u8)]) + spec_json_string(xsv[i as int]));
            }
            assert(out@ =~= (old(out)@ + seq![('[' as u8)]) + spec_join_strings(
                xsv.take(i as int + 1),
            ));
        }
        i = i + 1;
    }
    out.push(']' as u8);
    proof {
        assert(xsv.take(n as int) =~= xsv);
        assert(final(out)@ =~= old(out)@ + spec_json_str_array(xsv));
    }
}

fn push_json_pair_array(out: &mut Vec<u8>, ps: &Vec<(String, String)>)
    ensures
        final(out)@ == old(out)@ + spec_json_pair_array(
            ps@.map_values(|p: (String, String)| (p.0@, p.1@)),
        ),
{
    let ghost psv = ps@.map_values(|p: (String, String)| (p.0@, p.1@));
    out.push('[' as u8);
    let n = ps.len();
    let mut i: usize = 0;
    proof {
        assert(psv.take(0) =~= Seq::<(Seq<char>, Seq<char>)>::empty());
        assert(out@ =~= (old(out)@ + seq![('[' as u8)]) + spec_join_pairs(psv.take(0)));
    }
    while i < n
        invariant
            i <= n,
            n == ps@.len(),
            psv == ps@.map_values(|p: (String, String)| (p.0@, p.1@)),
            out@ == (old(out)@ + seq![('[' as u8)]) + spec_join_pairs(psv.take(i as int)),
        decreases n - i,
    {
        let ghost pre = out@;
        if i > 0 {
            out.push(',' as u8);
        }
        out.push('[' as u8);
        push_json_string(out, &ps[i].0);
        out.push(',' as u8);
        push_json_string(out, &ps[i].1);
        out.push(']' as u8);
        proof {
            let t = psv.take(i as int + 1);
            assert(t.drop_last() =~= psv.take(i as int));
            assert(t.last() == psv[i as int]);
            assert(psv[i as int] == (ps@[i as int].0@, ps@[i as int].1@));
            if i == 0 {
                assert(out@ =~= pre + spec_json_pair(psv[i as int]));
                assert(spec_join_pairs(t) == spec_json_pair(t.last()));
            } else {
                assert(out@ =~= (pre + seq![(',' as u8)]) + spec_json_pair(psv[i as int]));
            }
            assert(out@ =~= (old(out)@ + seq![('[' as u8)]) + spec_join_pairs(
                psv.take(i as int + 1),
            ));
        }
        i = i + 1;
    }
    out.push(']' as u8);
    proof {
        assert(psv.take(n as int) =~= psv);
        assert(final(out)@ =~= old(out)@ + spec_json_pair_array(psv));
    }
}


#[verifier::rlimit(80)]
#[verifier::spinoff_prover]
fn push_lang_json(out: &mut Vec<u8>, lang: &Lang)
    ensures
        final(out)@ == old(out)@ + spec_lang_json(lang@),
{
    push_bytes(out, "{\"pluginName\":");
    proof {
        assert(out@ =~= old(out)@ + (lit_bytes("{\"pluginName\":"@)));
    }
    push_json_string(out, &lang.plugin_name);
    proof {
        assert(out@ =~= old(out)@ + (lit_bytes("{\"pluginName\":"@) + spec_json_string(lang@.plugin_name)));
    }
    push_bytes(out, ",\"displayName\":");
    proof {
        assert(out@ =~= old(out)@ + (lit_bytes("{\"pluginName\":"@) + spec_json_string(lang@.plugin_name) + lit_bytes(",\"displayName\":"@)));
    }
    push_json_string(out, &lang.display_name);
    proof {
        assert(out@ =~= old(out)@ + (lit_bytes("{\"pluginName\":"@) + spec_json_string(lang@.plugin_name) + lit_bytes(",\"displayName\":"@) + spec_json_string(lang@.display_name)));
    }
    push_bytes(out, ",\"compileCommand\":");
    proof {
        assert(out@ =~= old(out)@ + (lit_bytes("{\"pluginName\":"@) + spec_json_string(lang@.plugin_name) + lit_bytes(",\"displayName\":"@) + spec_json_string(lang@.display_name) + lit_bytes(",\"compileCommand\":"@)));
    }
    push_json_str_array(out, &lang.compile_command);
    proof {
        assert(out@ =~= old(out)@ + (lit_bytes("{\"pluginName\":"@) + spec_json_string(lang@.plugin_name) + lit_bytes(",\"displayName\":"@) + spec_json_string(lang@.display_name) + lit_bytes(",\"compileCommand\":"@) + spec_json_str_array(lang@.compile_command)));
    }
    push_bytes(out, ",\"runCommand\":");
    proof {
        assert(out@ =~= old(out)@ + (lit_bytes("{\"pluginName\":"@) + spec_json_string(lang@.plugin_name) + lit_bytes(",\"displayName\":"@) + spec_json_string(lang@.display_name) + lit_bytes(",\"compileCommand\":"@) + spec_json_str_array(lang@.compile_command) + lit_bytes(",\"runCommand\":"@)));
    }
    push_json_str_array(out, &lang.run_command);
    proof {
        assert(out@ =~= old(out)@ + (lit_bytes("{\"pluginName\":"@) + spec_json_string(lang@.plugin_name) + lit_bytes(",\"displayName\":"@) + spec_json_string(lang@.display_name) + lit_bytes(",\"compileCommand\":"@) + spec_json_str_array(lang@.compile_command) + lit_bytes(",\"runCommand\":"@) + spec_json_str_array(lang@.run_command)));
    }
    push_bytes(out, ",\"plugin\":");
    proof {
        assert(out@ =~= old(out)@ + (lit_bytes("{\"pluginName\":"@) + spec_json_string(lang@.plugin_name) + lit_bytes(",\"displayName\":"@) + spec_json_string(lang@.display_name) + lit_bytes(",\"compileCommand\":"@) + spec_json_str_array(lang@.compile_command) + lit_bytes(",\"runCommand\":"@) + spec_json_str_array(lang@.run_command) + lit_bytes(",\"plugin\":"@)));
    }
    push_json_string(out, &lang.plugin);
    proof {
        assert(out@ =~= old(out)@ + (lit_bytes("{\"pluginName\":"@) + spec_json_string(lang@.plugin_name) + lit_bytes(",\"displayName\":"@) + spec_json_string(lang@.display_name) + lit_bytes(",\"compileCommand\":"@) + spec_json_str_array(lang@.compile_command) + lit_bytes(",\"runCommand\":"@) + spec_json_str_array(lang@.run_command) + lit_bytes(",\"plugin\":"@) + spec_json_string(lang@.plugin)));
    }
    push_bytes(out, ",\"env\":");
    proof {
        assert(out@ =~= old(out)@ + (lit_bytes("{\"pluginName\":"@) + spec_json_string(lang@.plugin_name) + lit_bytes(",\"displayName\":"@) + spec_json_string(lang@.display_name) + lit_bytes(",\"compileCommand\":"@) + spec_json_str_array(lang@.compile_command) + lit_bytes(",\"runCommand\":"@) + spec_json_str_array(lang@.run_command) + lit_bytes(",\"plugin\":"@) + spec_json_string(lang@.plugin) + lit_bytes(",\"env\":"@)));
    }
    push_json_pair_array(out, &lang.env);
    proof {
        assert(out@ =~= old(out)@ + (lit_bytes("{\"pluginName\":"@) + spec_json_string(lang@.plugin_name) + lit_bytes(",\"displayName\":"@) + spec_json_string(lang@.display_name) + lit_bytes(",\"compileCommand\":"@) + spec_json_str_array(lang@.compile_command) + lit_bytes(",\"runCommand\":"@) + spec_json_str_array(lang@.run_command) + lit_bytes(",\"plugin\":"@) + spec_json_string(lang@.plugin) + lit_bytes(",\"env\":"@) + spec_json_pair_array(lang@.env)));
    }
    push_bytes(out, ",\"installEnv\":");
    proof {
        assert(out@ =~= old(out)@ + (lit_bytes("{\"pluginName\":"@) + spec_json_string(lang@.plugin_name) + lit_bytes(",\"displayName\":"@) + spec_json_string(lang@.display_name) + lit_bytes(",\"compileCommand\":"@) + spec_json_str_array(lang@.compile_command) + lit_bytes(",\"runCommand\":"@) + spec_json_str_array(lang@.run_command) + lit_bytes(",\"plugin\":"@) + spec_json_string(lang@.plugin) + lit_bytes(",\"env\":"@) + spec_json_pair_array(lang@.env) + lit_bytes(",\"installEnv\":"@)));
    }
    push_json_pair_array(out, &lang.install_env);
    proof {
        assert(out@ =~= old(out)@ + (lit_bytes("{\"pluginName\":"@) + spec_json_string(lang@.plugin_name) + lit_bytes(",\"displayName\":"@) + spec_json_string(lang@.display_name) + lit_bytes(",\"compileCommand\":"@) + spec_json_str_array(lang@.compile_command) + lit_bytes(",\"runCommand\":"@) + spec_json_str_array(lang@.run_command) + lit_bytes(",\"plugin\":"@) + spec_json_string(lang@.plugin) + lit_bytes(",\"env\":"@) + spec_json_pair_array(lang@.env) + lit_bytes(",\"installEnv\":"@) + spec_json_pair_array(lang@.install_env)));
    }
    push_bytes(out, ",\"latestVersion\":");
    proof {
        assert(out@ =~= old(out)@ + (lit_bytes("{\"pluginName\":"@) + spec_json_string(lang@.plugin_name) + lit_bytes(",\"displayName\":"@) + spec_json_string(lang@.display_name) + lit_bytes(",\"compileCommand\":"@) + spec_json_str_array(lang@.compile_command) + lit_bytes(",\"runCommand\":"@) + spec_json_str_array(lang@.run_command) + lit_bytes(",\"plugin\":"@) + spec_json_string(lang@.plugin) + lit_bytes(",\"env\":"@) + spec_json_pair_array(lang@.env) + lit_bytes(",\"installEnv\":"@) + spec_json_pair_array(lang@.install_env) + lit_bytes(",\"latestVersion\":"@)));
    }
    push_json_string(out, &lang.latest_version);
    proof {
        assert(out@ =~= old(out)@ + (lit_bytes("{\"pluginName\":"@) + spec_json_string(lang@.plugin_name) + lit_bytes(",\"displayName\":"@) + spec_json_string(lang@.display_name) + lit_bytes(",\"compileCommand\":"@) + spec_json_str_array(lang@.compile_command) + lit_bytes(",\"runCommand\":"@) + spec_json_str_array(lang@.run_command) + lit_bytes(",\"plugin\":"@) + spec_json_string(lang@.plugin) + lit_bytes(",\"env\":"@) + spec_json_pair_array(lang@.env) + lit_bytes(",\"installEnv\":"@) + spec_json_pair_array(lang@.install_env) + lit_bytes(",\"latestVersion\":"@) + spec_json_string(lang@.latest_version)));
    }
    push_bytes(out, ",\"icon\":");
    proof {
        assert(out@ =~= old(out)@ + (lit_bytes("{\"pluginName\":"@) + spec_json_string(lang@.plugin_name) + lit_bytes(",\"displayName\":"@) + spec_json_string(lang@.display_name) + lit_bytes(",\"compileCommand\":"@) + spec_json_str_array(lang@.compile_command) + lit_bytes(",\"runCommand\":"@) + spec_json_str_array(lang@.run_command) + lit_bytes(",\"plugin\":"@) + spec_json_string(lang@.plugin) + lit_bytes(",\"env\":"@) + spec_json_pair_array(lang@.env) + lit_bytes(",\"installEnv\":"@) + spec_json_pair_array(lang@.install_env) + lit_bytes(",\"latestVersion\":"@) + spec_json_string(lang@.latest_version) + lit_bytes(",\"icon\":"@)));
    }
    push_json_string(out, &lang.icon);
    proof {
        assert(out@ =~= old(out)@ + (lit_bytes("{\"pluginName\":"@) + spec_json_string(lang@.plugin_name) + lit_bytes(",\"displayName\":"@) + spec_json_string(lang@.display_name) + lit_bytes(",\"compileCommand\":"@) + spec_json_str_array(lang@.compile_command) + lit_bytes(",\"runCommand\":"@) + spec_json_str_array(lang@.run_command) + lit_bytes(",\"plugin\":"@) + spec_json_string(lang@.plugin) + lit_bytes(",\"env\":"@) + spec_json_pair_array(lang@.env) + lit_bytes(",\"installEnv\":"@) + spec_json_pair_array(lang@.install_env) + lit_bytes(",\"latestVersion\":"@) + spec_json_string(lang@.latest_version) + lit_bytes(",\"icon\":"@) + spec_json_string(lang@.icon)));
    }
    push_bytes(out, "}");
    proof {
        assert(out@ =~= old(out)@ + (lit_bytes("{\"pluginName\":"@) + spec_json_string(lang@.plugin_name) + lit_bytes(",\"displayName\":"@) + spec_json_string(lang@.display_name) + lit_bytes(",\"compileCommand\":"@) + spec_json_str_array(lang@.compile_command) + lit_bytes(",\"runCommand\":"@) + spec_json_str_array(lang@.run_command) + lit_bytes(",\"plugin\":"@) + spec_json_string(lang@.plugin) + lit_bytes(",\"env\":"@) + spec_json_pair_array(lang@.env) + lit_bytes(",\"installEnv\":"@) + spec_json_pair_array(lang@.install_env) + lit_bytes(",\"latestVersion\":"@) + spec_json_string(lang@.latest_version) + lit_bytes(",\"icon\":"@) + spec_json_string(lang@.icon) + lit_bytes("}"@)));
    }
}

/// Serializes the run descriptor handed to the sandboxed judge driver.
pub fn runner_input_json(lang: &Lang, code: &String, judge: &String) -> (r: Vec<u8>)
    ensures
        r@ == spec_runner_input_json(lang@, code@, judge@),
{
    let mut out: Vec<u8> = Vec::new();
    proof {
        assert(out@ =~= Seq::<u8>::empty());
    }
    push_bytes(&mut out, "{\"lang\":");
    proof {
        assert(out@ =~= Seq::<u8>::empty() + (lit_bytes("{\"lang\":"@)));
    }
    push_lang_json(&mut out, lang);
    proof {
        assert(out@ =~= Seq::<u8>::empty() + (lit_bytes("{\"lang\":"@) + spec_lang_json(lang@)));
    }
    push_bytes(&mut out, ",\"code\":");
    proof {
        assert(out@ =~= Seq::<u8>::empty() + (lit_bytes("{\"lang\":"@) + spec_lang_json(lang@) + lit_bytes(",\"code\":"@)));
    }
    push_json_string(&mut out, code);
    proof {
        assert(out@ =~= Seq::<u8>::empty() + (lit_bytes("{\"lang\":"@) + spec_lang_json(lang@) + lit_bytes(",\"code\":"@) + spec_json_string(code@)));
    }
    push_bytes(&mut out, ",\"judge\":");
    proof {
        assert(out@ =~= Seq::<u8>::empty() + (lit_bytes("{\"lang\":"@) + spec_lang_json(lang@) + lit_bytes(",\"code\":"@) + spec_json_string(code@) + lit_bytes(",\"judge\":"@)));
    }
    push_json_string(&mut out, judge);
    proof {
        assert(out@ =~= Seq::<u8>::empty() + (lit_bytes("{\"lang\":"@) + spec_lang_json(lang@) + lit_bytes(",\"code\":"@) + spec_json_string(code@) + lit_bytes(",\"judge\":"@) + spec_json_string(judge@)));
    }
    push_bytes(&mut out, "}");
    proof {
        assert(out@ =~= Seq::<u8>::empty() + (lit_bytes("{\"lang\":"@) + spec_lang_json(lang@) + lit_bytes(",\"code\":"@) + spec_json_string(code@) + lit_bytes(",\"judge\":"@) + spec_json_string(judge@) + lit_bytes("}"@)));
    }
    proof {
        assert(Seq::<u8>::empty() + spec_runner_input_json(lang@, code@, judge@)
            =~= spec_runner_input_json(lang@, code@, judge@));
    }
    out
}


// ---------------------------------------------------------------------------
// Run limits and outcome assembly
// ---------------------------------------------------------------------------

/// Wall-clock deadline for one sandboxed run, in seconds. When it fires the
/// child is killed and the run is reported as timed out.
pub const RUN_TIMEOUT_SECONDS: u64 = 3;

/// How many sandboxed runs may execute at once, process-wide.
pub const MAX_CONCURRENT_RUNS: usize = 4;

/// The stored standard error of a run: truncated to
/// [`crate::MAX_STDERR_LENGTH`] bytes, then decoded.
pub open spec fn spec_stderr_view(b: Seq<u8>) -> Seq<char> {
    crate::text::lossy_decode(
        if b.len() <= crate::MAX_STDERR_LENGTH {
            b
        } else {
            b.take(crate::MAX_STDERR_LENGTH as int)
        },
    )
}

/// Puts the outcome of one run together: the folded judge result, the
/// truncated standard error, and whether the deadline fired.
pub fn assemble_output(tests: JudgeResult, stderr_bytes: Vec<u8>, timed_out: bool) -> (r:
    RunLangOutput)
    ensures
        r.tests@ == tests@,
        r.timed_out == timed_out,
        r.stderr@ == spec_stderr_view(stderr_bytes@),
{
    let mut sb = stderr_bytes;
    if sb.len() > crate::MAX_STDERR_LENGTH {
        sb.truncate(crate::MAX_STDERR_LENGTH);
    }
    RunLangOutput { tests, stderr: crate::text::bytes_to_string_lossy(sb.as_slice()), timed_out }
}

// ---------------------------------------------------------------------------
// Reading the toolchain manager's answers
// ---------------------------------------------------------------------------

/// Whitespace stripped from the manager's output: blank, tab, carriage
/// return, line feed.
pub open spec fn spec_is_trim_ws(b: u8) -> bool {
    b == (' ' as u8) || b == ('\t' as u8) || b == ('\r' as u8) || b == ('\n' as u8)
}

pub open spec fn spec_trim_front(b: Seq<u8>) -> Seq<u8>
    decreases b.len(),
{
    if b.len() > 0 && spec_is_trim_ws(b[0]) {
        spec_trim_front(b.drop_first())
    } else {
        b
    }
}

pub open spec fn spec_trim_back(b: Seq<u8>) -> Seq<u8>
    decreases b.len(),
{
    if b.len() > 0 && spec_is_trim_ws(b.last()) {
        spec_trim_back(b.drop_last())
    } else {
        b
    }
}

/// `b` with leading and trailing whitespace removed.
pub open spec fn spec_trim(b: Seq<u8>) -> Seq<u8> {
    spec_trim_back(spec_trim_front(b))
}

fn trim_range(b: &[u8]) -> (r: (usize, usize))
    ensures
        r.0 <= r.1 <= b@.len(),
        b@.subrange(r.0 as int, r.1 as int) == spec_trim(b@),
{
    let n = b.len();
    let mut lo: usize = 0;
    proof {
        assert(b@.skip(0) =~= b@);
    }
    while lo < n && (b[lo] == (' ' as u8) || b[lo] == ('\t' as u8) || b[lo] == ('\r' as u8) || b[lo]
        == ('\n' as u8))
        invariant
            lo <= n,
            n == b@.len(),
            spec_trim_front(b@) == spec_trim_front(b@.skip(lo as int)),
        decreases n - lo,
    {
        proof {
            assert(b@.skip(lo as int)[0] == b@[lo as int]);
            assert(b@.skip(lo as int).drop_first() =~= b@.skip(lo as int + 1));
        }
        lo = lo + 1;
    }
    proof {
        if lo < n {
            assert(!spec_is_trim_ws(b@.skip(lo as int)[0]));
        }
        assert(spec_trim_front(b@) == b@.skip(lo as int));
    }
    let mut hi: usize = n;
    proof {
        assert(b@.skip(lo as int) =~= b@.subrange(lo as int, n as int));
    }
    while hi > lo && (b[hi - 1] == (' ' as u8) || b[hi - 1] == ('\t' as u8) || b[hi - 1] == ('\r'
        as u8) || b[hi - 1] == ('\n' as u8))
        invariant
            lo <= hi <= n,
            n == b@.len(),
            spec_trim_back(b@.subrange(lo as int, n as int)) == spec_trim_back(
                b@.subrange(lo as int, hi as int),
            ),
        decreases hi,
    {
        proof {
            let cur = b@.subrange(lo as int, hi as int);
            assert(cur.last() == b@[hi - 1]);
            assert(cur.drop_last() =~= b@.subrange(lo as int, hi as int - 1));
        }
        hi = hi - 1;
    }
    proof {
        let cur = b@.subrange(lo as int, hi as int);
        if hi > lo {
            assert(cur.last() == b@[hi - 1]);
            assert(!spec_is_trim_ws(cur.last()));
        }
        assert(spec_trim_back(b@.subrange(lo as int, n as int)) == cur);
    }
    (lo, hi)
}

fn copy_range(b: &[u8], lo: usize, hi: usize) -> (r: Vec<u8>)
    requires
        lo <= hi <= b@.len(),
    ensures
        r@ == b@.subrange(lo as int, hi as int),
{
    let mut out: Vec<u8> = Vec::new();
    let mut i = lo;
    proof {
        assert(out@ =~= b@.subrange(lo as int, lo as int));
    }
    while i < hi
        invariant
            lo <= i <= hi <= b@.len(),
            out@ == b@.subrange(lo as int, i as int),
        decreases hi - i,
    {
        out.push(b[i]);
        proof {
            assert(out@ =~= b@.subrange(lo as int, i as int + 1));
        }
        i = i + 1;
    }
    out
}

/// The install root reported by the locate query: its standard output with
/// surrounding whitespace stripped, as text.
pub fn install_dir_from_stdout(b: &[u8]) -> (r: String)
    ensures
        r@ == crate::text::lossy_decode(spec_trim(b@)),
{
    let (lo, hi) = trim_range(b);
    let t = copy_range(b, lo, hi);
    crate::text::bytes_to_string_lossy(t.as_slice())
}

// ---------------------------------------------------------------------------
// Reading installed-version listings
// ---------------------------------------------------------------------------

/// The trimmed, non-empty lines of `b` (with `cur` the partial line read so
/// far), decoded to text. The final line counts whether or not a line feed
/// ends it.
pub open spec fn spec_clean_lines(b: Seq<u8>, cur: Seq<u8>) -> Seq<Seq<char>>
    decreases b.len(),
{
    if b.len() == 0 {
        if spec_trim(cur).len() > 0 {
            seq![crate::text::lossy_decode(spec_trim(cur))]
        } else {
            Seq::empty()
        }
    } else if b[0] == ('\n' as u8) {
        (if spec_trim(cur).len() > 0 {
            seq![crate::text::lossy_decode(spec_trim(cur))]
        } else {
            Seq::empty()
        }) + spec_clean_lines(b.drop_first(), Seq::empty())
    } else {
        spec_clean_lines(b.drop_first(), cur.push(b[0]))
    }
}

/// The installed versions named in one `list` answer: its trimmed, non-empty
/// lines.
pub open spec fn spec_versions_of_listing(b: Seq<u8>) -> Seq<Seq<char>> {
    spec_clean_lines(b, Seq::empty())
}

fn trimmed_line(cur: &Vec<u8>) -> (r: Option<String>)
    ensures
        match r {
            Some(s) => spec_trim(cur@).len() > 0 && s@ == crate::text::lossy_decode(
                spec_trim(cur@),
            ),
            None => spec_trim(cur@).len() == 0,
        },
{
    let (lo, hi) = trim_range(cur.as_slice());
    if lo == hi {
        None
    } else {
        let t = copy_range(cur.as_slice(), lo, hi);
        Some(crate::text::bytes_to_string_lossy(t.as_slice()))
    }
}

/// Reads a version listing: one version per line, surrounding whitespace
/// dropped, blank lines skipped.
pub fn versions_from_listing(b: &[u8]) -> (r: Vec<String>)
    ensures
        r@.map_values(|s: String| s@) == spec_versions_of_listing(b@),
{
    let n = b.len();
    let mut out: Vec<String> = Vec::new();
    let mut cur: Vec<u8> = Vec::new();
    let mut i: usize = 0;
    proof {
        assert(b@.skip(0) =~= b@);
        assert(out@.map_values(|s: String| s@) =~= Seq::<Seq<char>>::empty());
        assert(cur@ =~= Seq::<u8>::empty());
    }
    while i < n
        invariant
            i <= n,
            n == b@.len(),
            spec_versions_of_listing(b@) == out@.map_values(|s: String| s@) + spec_clean_lines(
                b@.skip(i as int),
                cur@,
            ),
        decreases n - i,
    {
        let ghost outv = out@.map_values(|s: String| s@);
        let ghost rest = b@.skip(i as int);
        let ghost curv = cur@;
        proof {
            assert(rest[0] == b@[i as int]);
            assert(rest.drop_first() =~= b@.skip(i as int + 1));
        }
        if b[i] == ('\n' as u8) {
            match trimmed_line(&cur) {
                Some(s) => {
                    out.push(s);
                    proof {
                        assert(out@.map_values(|s2: String| s2@) =~= outv.push(
                            crate::text::lossy_decode(spec_trim(curv)),
                        ));
                        assert(outv + (seq![crate::text::lossy_decode(spec_trim(curv))]
                            + spec_clean_lines(b@.skip(i as int + 1), Seq::empty())) =~= outv.push(
                            crate::text::lossy_decode(spec_trim(curv)),
                        ) + spec_clean_lines(b@.skip(i as int + 1), Seq::empty()));
                    }
                },
                None => {
                    proof {
                        assert(Seq::<Seq<char>>::empty() + spec_clean_lines(
                            b@.skip(i as int + 1),
                            Seq::empty(),
                        ) =~= spec_clean_lines(b@.skip(i as int + 1), Seq::empty()));
                    }
                },
            }
            cur.clear();
            proof {
                assert(cur@ =~= Seq::<u8>::empty());
            }
        } else {
            cur.push(b[i]);
        }
        i = i + 1;
    }
    match trimmed_line(&cur) {
        Some(s) => {
            let ghost outv = out@.map_values(|s2: String| s2@);
            out.push(s);
            proof {
                assert(b@.skip(n as int) =~= Seq::<u8>::empty());
                assert(out@.map_values(|s2: String| s2@) =~= outv + spec_clean_lines(
                    b@.skip(n as int),
                    cur@,
                ));
            }
        },
        None => {
            proof {
                assert(b@.skip(n as int) =~= Seq::<u8>::empty());
                assert(out@.map_values(|s2: String| s2@) + spec_clean_lines(b@.skip(n as int), cur@)
                    =~= out@.map_values(|s2: String| s2@));
            }
        },
    }
    out
}


/// Whitespace inside one listing line.
pub open spec fn spec_is_token_ws(c: char) -> bool {
    c == ' ' || c == '\t' || c == '\r'
}

/// The leading run of non-whitespace characters.
pub open spec fn spec_first_token(s: Seq<char>) -> Seq<char>
    decreases s.len(),
{
    if s.len() > 0 && !spec_is_token_ws(s[0]) {
        seq![s[0]] + spec_first_token(s.drop_first())
    } else {
        Seq::empty()
    }
}

/// The first whitespace-separated token of a listing line: for the plugin
/// listing, the plugin's name.
pub fn first_token(s: &str) -> (r: String)
    ensures
        r@ == spec_first_token(s@),
{
    let n = s.unicode_len();
    let mut i: usize = 0;
    while i < n && !(s.get_char(i) == ' ' || s.get_char(i) == '\t' || s.get_char(i) == '\r')
        invariant
            i <= n,
            n == s@.len(),
            forall|k: int| 0 <= k < i ==> !spec_is_token_ws(s@[k]),
        decreases n - i,
    {
        i = i + 1;
    }
    let t = s.substring_char(0, i);
    proof {
        assert(t@ =~= s@.take(i as int));
        lemma_first_token_take(s@, i as int);
    }
    t.to_owned()
}

proof fn lemma_first_token_take(s: Seq<char>, i: int)
    requires
        0 <= i <= s.len(),
        forall|k: int| 0 <= k < i ==> !spec_is_token_ws(s[k]),
        i < s.len() ==> spec_is_token_ws(s[i]),
    ensures
        spec_first_token(s) == s.take(i),
    decreases s.len(),
{
    if i == 0 {
        assert(s.take(0) =~= Seq::<char>::empty());
    } else {
        assert(!spec_is_token_ws(s[0]));
        lemma_first_token_take(s.drop_first(), i - 1);
        assert(s.drop_first().take(i - 1) =~= s.take(i).drop_first());
        assert(seq![s[0]] + s.take(i).drop_first() =~= s.take(i));
    }
}

} // verus!
