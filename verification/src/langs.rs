//! The static catalog of supported languages.
//!
//! One immutable entry per language identifier, loaded once at service start
//! and looked up for every request. The judge programs themselves run on the
//! pinned judge runtime, which is one of these entries as well.

use vstd::prelude::*;

verus! {

/// One language of the catalog: how to install it, how to run it, and how to
/// present it. Command argument lists may hold the placeholders
/// `${LANG_LOCATION}`, `${FILE_LOCATION}` and `${OUTPUT_LOCATION}`, filled in
/// when a run is put together.
#[derive(Clone, PartialEq, Eq, Debug)]
pub struct Lang {
    pub plugin_name: String,
    pub display_name: String,
    pub compile_command: Vec<String>,
    pub run_command: Vec<String>,
    pub plugin: String,
    pub env: Vec<(String, String)>,
    pub install_env: Vec<(String, String)>,
    pub latest_version: String,
    pub icon: String,
}

/// Mathematical image of [`Lang`].
pub ghost struct LangV {
    pub plugin_name: Seq<char>,
    pub display_name: Seq<char>,
    pub compile_command: Seq<Seq<char>>,
    pub run_command: Seq<Seq<char>>,
    pub plugin: Seq<char>,
    pub env: Seq<(Seq<char>, Seq<char>)>,
    pub install_env: Seq<(Seq<char>, Seq<char>)>,
    pub latest_version: Seq<char>,
    pub icon: Seq<char>,
}

impl View for Lang {
    type V = LangV;

    open spec fn view(&self) -> LangV {
        LangV {
            plugin_name: self.plugin_name@,
            display_name: self.display_name@,
            compile_command: self.compile_command@.map_values(|s: String| s@),
            run_command: self.run_command@.map_values(|s: String| s@),
            plugin: self.plugin@,
            env: self.env@.map_values(|p: (String, String)| (p.0@, p.1@)),
            install_env: self.install_env@.map_values(|p: (String, String)| (p.0@, p.1@)),
            latest_version: self.latest_version@,
            icon: self.icon@,
        }
    }
}

/// Catalog entry for JavaScript (NodeJS).
pub open spec fn spec_lang_nodejs() -> LangV {
    LangV {
        plugin_name: "nodejs"@,
        display_name: "JavaScript (NodeJS)"@,
        compile_command: Seq::empty(),
        run_command: seq!["${LANG_LOCATION}/bin/node"@, "${FILE_LOCATION}"@],
        plugin: "https://github.com/asdf-vm/asdf-nodejs.git"@,
        env: Seq::empty(),
        install_env: Seq::empty(),
        latest_version: "22.9.0"@,
        icon: "nodejs.svg"@,
    }
}

/// Catalog entry for JavaScript (Deno).
pub open spec fn spec_lang_deno() -> LangV {
    LangV {
        plugin_name: "deno"@,
        display_name: "JavaScript (Deno)"@,
        compile_command: Seq::empty(),
        run_command: seq!["${LANG_LOCATION}/bin/deno"@, "--allow-write=/tmp"@, "--allow-run"@, "--allow-read"@, "${FILE_LOCATION}"@],
        plugin: "https://github.com/asdf-community/asdf-deno.git"@,
        env: seq![("RUST_BACKTRACE"@, "1"@), ("NO_COLOR"@, "1"@)],
        install_env: Seq::empty(),
        latest_version: "2.0.6"@,
        icon: "deno.svg"@,
    }
}

/// Catalog entry for Python.
pub open spec fn spec_lang_python() -> LangV {
    LangV {
        plugin_name: "python"@,
        display_name: "Python"@,
        compile_command: Seq::empty(),
        run_command: seq!["${LANG_LOCATION}/bin/python"@, "${FILE_LOCATION}"@],
        plugin: "https://github.com/asdf-community/asdf-python.git"@,
        env: seq![("LD_LIBRARY_PATH"@, "/lang/lib"@)],
        install_env: Seq::empty(),
        latest_version: "3.12.0"@,
        icon: "python.svg"@,
    }
}

/// Catalog entry for Rust.
pub open spec fn spec_lang_rust() -> LangV {
    LangV {
        plugin_name: "rust"@,
        display_name: "Rust"@,
        compile_command: seq!["${LANG_LOCATION}/bin/rustc"@, "${FILE_LOCATION}"@, "-o"@, "${OUTPUT_LOCATION}"@],
        run_command: seq!["${OUTPUT_LOCATION}"@],
        plugin: "https://github.com/asdf-community/asdf-rust.git"@,
        env: seq![("LD_LIBRARY_PATH"@, "/lang/lib:/lib"@), ("PATH"@, "/usr/bin:/bin"@)],
        install_env: seq![("RUST_WITHOUT"@, "rust-docs,rust-docs-json-preview,cargo,rustfmt-preview,rls-preview,rust-analyzer-preview,llvm-tools-preview,clippy-preview,rust-analysis-x86_64-unknown-linux-gnu,llvm-bitcode-linker-preview"@)],
        latest_version: "1.82.0"@,
        icon: "rust.svg"@,
    }
}

/// Catalog entry for Vyxal.
pub open spec fn spec_lang_vyxal() -> LangV {
    LangV {
        plugin_name: "vyxal"@,
        display_name: "Vyxal"@,
        compile_command: Seq::empty(),
        run_command: seq!["${LANG_LOCATION}/bin/vyxal2"@, "${FILE_LOCATION}"@, "'□'"@],
        plugin: "https://github.com/lyxal/vyxasdf.git"@,
        env: Seq::empty(),
        install_env: Seq::empty(),
        latest_version: "2.22.4.3"@,
        icon: "vyxal.svg"@,
    }
}

/// Catalog entry for APL (TinyAPL).
pub open spec fn spec_lang_tinyapl() -> LangV {
    LangV {
        plugin_name: "tinyapl"@,
        display_name: "APL (TinyAPL)"@,
        compile_command: Seq::empty(),
        run_command: seq!["${LANG_LOCATION}/bin/tinyapl"@, "${FILE_LOCATION}"@],
        plugin: "https://github.com/RubenVerg/asdf-tinyapl.git"@,
        env: Seq::empty(),
        install_env: Seq::empty(),
        latest_version: "0.11.1.0"@,
        icon: "tinyapl.svg"@,
    }
}

/// Catalog entry for C (tcc).
pub open spec fn spec_lang_tcc() -> LangV {
    LangV {
        plugin_name: "tcc"@,
        display_name: "C (tcc)"@,
        compile_command: Seq::empty(),
        run_command: seq!["${LANG_LOCATION}/bin/tcc"@, "-run"@, "-B"@, "${LANG_LOCATION}/lib/tcc"@, "${FILE_LOCATION}"@],
        plugin: "https://github.com/mousetail/asdf-plugin-tcc.git"@,
        env: seq![("C_INCLUDE_PATH"@, "{LANG_LOCATION}/include"@), ("LIBRARY_PATH"@, "${LANG_LOCATION}/lib"@)],
        install_env: Seq::empty(),
        latest_version: "0.9.27"@,
        icon: "c.svg"@,
    }
}

/// The whole catalog, in presentation order.
pub open spec fn spec_langs() -> Seq<LangV> {
    seq![spec_lang_nodejs(), spec_lang_deno(), spec_lang_python(), spec_lang_rust(), spec_lang_vyxal(), spec_lang_tinyapl(), spec_lang_tcc()]
}

fn lang_nodejs() -> (l: Lang)
    ensures
        l@ == spec_lang_nodejs(),
{
    let mut compile_command: Vec<String> = Vec::new();
    
    let mut run_command: Vec<String> = Vec::new();
    run_command.push("${LANG_LOCATION}/bin/node".to_owned());
    run_command.push("${FILE_LOCATION}".to_owned());
    let mut env: Vec<(String, String)> = Vec::new();
    
    let mut install_env: Vec<(String, String)> = Vec::new();
    
    let l = Lang {
        plugin_name: "nodejs".to_owned(),
        display_name: "JavaScript (NodeJS)".to_owned(),
        compile_command,
        run_command,
        plugin: "https://github.com/asdf-vm/asdf-nodejs.git".to_owned(),
        env,
        install_env,
        latest_version: "22.9.0".to_owned(),
        icon: "nodejs.svg".to_owned(),
    };
    proof {
        assert(l@.compile_command =~= spec_lang_nodejs().compile_command);
        assert(l@.run_command =~= spec_lang_nodejs().run_command);
        assert(l@.env =~= spec_lang_nodejs().env);
        assert(l@.install_env =~= spec_lang_nodejs().install_env);
    }
    l
}

fn lang_deno() -> (l: Lang)
    ensures
        l@ == spec_lang_deno(),
{
    let mut compile_command: Vec<String> = Vec::new();
    
    let mut run_command: Vec<String> = Vec::new();
    run_command.push("${LANG_LOCATION}/bin/deno".to_owned());
    run_command.push("--allow-write=/tmp".to_owned());
    run_command.push("--allow-run".to_owned());
    run_command.push("--allow-read".to_owned());
    run_command.push("${FILE_LOCATION}".to_owned());
    let mut env: Vec<(String, String)> = Vec::new();
    env.push(("RUST_BACKTRACE".to_owned(), "1".to_owned()));
    env.push(("NO_COLOR".to_owned(), "1".to_owned()));
    let mut install_env: Vec<(String, String)> = Vec::new();
    
    let l = Lang {
        plugin_name: "deno".to_owned(),
        display_name: "JavaScript (Deno)".to_owned(),
        compile_command,
        run_command,
        plugin: "https://github.com/asdf-community/asdf-deno.git".to_owned(),
        env,
        install_env,
        latest_version: "2.0.6".to_owned(),
        icon: "deno.svg".to_owned(),
    };
    proof {
        assert(l@.compile_command =~= spec_lang_deno().compile_command);
        assert(l@.run_command =~= spec_lang_deno().run_command);
        assert(l@.env =~= spec_lang_deno().env);
        assert(l@.install_env =~= spec_lang_deno().install_env);
    }
    l
}

fn lang_python() -> (l: Lang)
    ensures
        l@ == spec_lang_python(),
{
    let mut compile_command: Vec<String> = Vec::new();
    
    let mut run_command: Vec<String> = Vec::new();
    run_command.push("${LANG_LOCATION}/bin/python".to_owned());
    run_command.push("${FILE_LOCATION}".to_owned());
    let mut env: Vec<(String, String)> = Vec::new();
    env.push(("LD_LIBRARY_PATH".to_owned(), "/lang/lib".to_owned()));
    let mut install_env: Vec<(String, String)> = Vec::new();
    
    let l = Lang {
        plugin_name: "python".to_owned(),
        display_name: "Python".to_owned(),
        compile_command,
        run_command,
        plugin: "https://github.com/asdf-community/asdf-python.git".to_owned(),
        env,
        install_env,
        latest_version: "3.12.0".to_owned(),
        icon: "python.svg".to_owned(),
    };
    proof {
        assert(l@.compile_command =~= spec_lang_python().compile_command);
        assert(l@.run_command =~= spec_lang_python().run_command);
        assert(l@.env =~= spec_lang_python().env);
        assert(l@.install_env =~= spec_lang_python().install_env);
    }
    l
}

fn lang_rust() -> (l: Lang)
    ensures
        l@ == spec_lang_rust(),
{
    let mut compile_command: Vec<String> = Vec::new();
    compile_command.push("${LANG_LOCATION}/bin/rustc".to_owned());
    compile_command.push("${FILE_LOCATION}".to_owned());
    compile_command.push("-o".to_owned());
    compile_command.push("${OUTPUT_LOCATION}".to_owned());
    let mut run_command: Vec<String> = Vec::new();
    run_command.push("${OUTPUT_LOCATION}".to_owned());
    let mut env: Vec<(String, String)> = Vec::new();
    env.push(("LD_LIBRARY_PATH".to_owned(), "/lang/lib:/lib".to_owned()));
    env.push(("PATH".to_owned(), "/usr/bin:/bin".to_owned()));
    let mut install_env: Vec<(String, String)> = Vec::new();
    install_env.push(("RUST_WITHOUT".to_owned(), "rust-docs,rust-docs-json-preview,cargo,rustfmt-preview,rls-preview,rust-analyzer-preview,llvm-tools-preview,clippy-preview,rust-analysis-x86_64-unknown-linux-gnu,llvm-bitcode-linker-preview".to_owned()));
    let l = Lang {
        plugin_name: "rust".to_owned(),
        display_name: "Rust".to_owned(),
        compile_command,
        run_command,
        plugin: "https://github.com/asdf-community/asdf-rust.git".to_owned(),
        env,
        install_env,
        latest_version: "1.82.0".to_owned(),
        icon: "rust.svg".to_owned(),
    };
    proof {
        assert(l@.compile_command =~= spec_lang_rust().compile_command);
        assert(l@.run_command =~= spec_lang_rust().run_command);
        assert(l@.env =~= spec_lang_rust().env);
        assert(l@.install_env =~= spec_lang_rust().install_env);
    }
    l
}

fn lang_vyxal() -> (l: Lang)
    ensures
        l@ == spec_lang_vyxal(),
{
    let mut compile_command: Vec<String> = Vec::new();
    
    let mut run_command: Vec<String> = Vec::new();
    run_command.push("${LANG_LOCATION}/bin/vyxal2".to_owned());
    run_command.push("${FILE_LOCATION}".to_owned());
    run_command.push("'□'".to_owned());
    let mut env: Vec<(String, String)> = Vec::new();
    
    let mut install_env: Vec<(String, String)> = Vec::new();
    
    let l = Lang {
        plugin_name: "vyxal".to_owned(),
        display_name: "Vyxal".to_owned(),
        compile_command,
        run_command,
        plugin: "https://github.com/lyxal/vyxasdf.git".to_owned(),
        env,
        install_env,
        latest_version: "2.22.4.3".to_owned(),
        icon: "vyxal.svg".to_owned(),
    };
    proof {
        assert(l@.compile_command =~= spec_lang_vyxal().compile_command);
        assert(l@.run_command =~= spec_lang_vyxal().run_command);
        assert(l@.env =~= spec_lang_vyxal().env);
        assert(l@.install_env =~= spec_lang_vyxal().install_env);
    }
    l
}

fn lang_tinyapl() -> (l: Lang)
    ensures
        l@ == spec_lang_tinyapl(),
{
    let mut compile_command: Vec<String> = Vec::new();
    
    let mut run_command: Vec<String> = Vec::new();
    run_command.push("${LANG_LOCATION}/bin/tinyapl".to_owned());
    run_command.push("${FILE_LOCATION}".to_owned());
    let mut env: Vec<(String, String)> = Vec::new();
    
    let mut install_env: Vec<(String, String)> = Vec::new();
    
    let l = Lang {
        plugin_name: "tinyapl".to_owned(),
        display_name: "APL (TinyAPL)".to_owned(),
        compile_command,
        run_command,
        plugin: "https://github.com/RubenVerg/asdf-tinyapl.git".to_owned(),
        env,
        install_env,
        latest_version: "0.11.1.0".to_owned(),
        icon: "tinyapl.svg".to_owned(),
    };
    proof {
        assert(l@.compile_command =~= spec_lang_tinyapl().compile_command);
        assert(l@.run_command =~= spec_lang_tinyapl().run_command);
        assert(l@.env =~= spec_lang_tinyapl().env);
        assert(l@.install_env =~= spec_lang_tinyapl().install_env);
    }
    l
}

fn lang_tcc() -> (l: Lang)
    ensures
        l@ == spec_lang_tcc(),
{
    let mut compile_command: Vec<String> = Vec::new();
    
    let mut run_command: Vec<String> = Vec::new();
    run_command.push("${LANG_LOCATION}/bin/tcc".to_owned());
    run_command.push("-run".to_owned());
    run_command.push("-B".to_owned());
    run_command.push("${LANG_LOCATION}/lib/tcc".to_owned());
    run_command.push("${FILE_LOCATION}".to_owned());
    let mut env: Vec<(String, String)> = Vec::new();
    env.push(("C_INCLUDE_PATH".to_owned(), "{LANG_LOCATION}/include".to_owned()));
    env.push(("LIBRARY_PATH".to_owned(), "${LANG_LOCATION}/lib".to_owned()));
    let mut install_env: Vec<(String, String)> = Vec::new();
    
    let l = Lang {
        plugin_name: "tcc".to_owned(),
        display_name: "C (tcc)".to_owned(),
        compile_command,
        run_command,
        plugin: "https://github.com/mousetail/asdf-plugin-tcc.git".to_owned(),
        env,
        install_env,
        latest_version: "0.9.27".to_owned(),
        icon: "c.svg".to_owned(),
    };
    proof {
        assert(l@.compile_command =~= spec_lang_tcc().compile_command);
        assert(l@.run_command =~= spec_lang_tcc().run_command);
        assert(l@.env =~= spec_lang_tcc().env);
        assert(l@.install_env =~= spec_lang_tcc().install_env);
    }
    l
}

/// Builds the catalog. Every call yields the same entries, stated by
/// [`spec_langs`].
pub fn langs() -> (r: Vec<Lang>)
    ensures
        r@.map_values(|l: Lang| l@) == spec_langs(),
{
    let mut v: Vec<Lang> = Vec::new();
    v.push(lang_nodejs());
    v.push(lang_deno());
    v.push(lang_python());
    v.push(lang_rust());
    v.push(lang_vyxal());
    v.push(lang_tinyapl());
    v.push(lang_tcc());
    proof {
        assert(v@.map_values(|l: Lang| l@) =~= spec_langs());
    }
    v
}

/// The first catalog entry whose identifier is `name`.
pub open spec fn spec_find_lang(ls: Seq<LangV>, name: Seq<char>) -> Option<LangV>
    decreases ls.len(),
{
    if ls.len() == 0 {
        None
    } else if ls[0].plugin_name == name {
        Some(ls[0])
    } else {
        spec_find_lang(ls.drop_first(), name)
    }
}

/// Looks a language up by its identifier.
pub fn find_lang<'a>(langs: &'a Vec<Lang>, name: &String) -> (r: Option<&'a Lang>)
    ensures
        match r {
            Some(l) => spec_find_lang(langs@.map_values(|x: Lang| x@), name@) == Some(l@),
            None => spec_find_lang(langs@.map_values(|x: Lang| x@), name@) is None,
        },
{
    let ghost all = langs@.map_values(|x: Lang| x@);
    let n = langs.len();
    let mut i: usize = 0;
    proof {
        assert(all.skip(0) =~= all);
    }
    while i < n
        invariant
            n == langs@.len(),
            i <= n,
            all == langs@.map_values(|x: Lang| x@),
            spec_find_lang(all, name@) == spec_find_lang(all.skip(i as int), name@),
        decreases n - i,
    {
        proof {
            assert(all.skip(i as int)[0] == langs@[i as int]@);
            assert(all.skip(i as int).drop_first() =~= all.skip(i as int + 1));
        }
        if langs[i].plugin_name == *name {
            return Some(&langs[i]);
        }
        i = i + 1;
    }
    proof {
        assert(all.skip(n as int) =~= Seq::<LangV>::empty());
    }
    None
}

} // verus!
