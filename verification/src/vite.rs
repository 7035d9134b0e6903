//! The built-asset manifest: resolving a page's modules to the script and
//! stylesheet files they need, and rendering the tags that load them.

use vstd::prelude::*;

use crate::cachemap::CacheMap;
use crate::text::{escape_html, spec_escape_html};

verus! {

/// One entry of the build manifest.
#[derive(Clone, PartialEq, Eq, Debug)]
pub struct ManifestEntry {
    pub file: String,
    pub name: Option<String>,
    pub is_entry: bool,
    pub css: Vec<String>,
    pub imports: Vec<String>,
    pub dynamic_imports: Vec<String>,
}

fn clone_string(s: &String) -> (r: String)
    ensures
        r@ == s@,
{
    s.clone()
}

fn extend_clones(dst: &mut Vec<String>, src: &Vec<String>)
    ensures
        final(dst)@.map_values(|s: String| s@) == old(dst)@.map_values(|s: String| s@)
            + src@.map_values(|s: String| s@),
{
    let ghost base = dst@.map_values(|s: String| s@);
    let ghost srcv = src@.map_values(|s: String| s@);
    let n = src.len();
    let mut i: usize = 0;
    proof {
        assert(base + srcv.take(0) =~= base);
    }
    while i < n
        invariant
            i <= n,
            n == src@.len(),
            base == old(dst)@.map_values(|s: String| s@),
            srcv == src@.map_values(|s: String| s@),
            dst@.map_values(|s: String| s@) == base + srcv.take(i as int),
        decreases n - i,
    {
        let ghost prevd = dst@;
        dst.push(clone_string(&src[i]));
        proof {
            assert(srcv[i as int] == src@[i as int]@);
            let lhs = dst@.map_values(|s: String| s@);
            let rhs = base + srcv.take(i as int + 1);
            assert(prevd.map_values(|s: String| s@).len() == prevd.len());
            assert forall|k: int| 0 <= k < lhs.len() implies lhs[k] == rhs[k] by {
                assert(lhs[k] == dst@[k]@);
                if k < prevd.len() {
                    assert(dst@[k] == prevd[k]);
                    assert(prevd.map_values(|s: String| s@)[k] == prevd[k]@);
                    if k >= base.len() {
                        assert((base + srcv.take(i as int))[k] == srcv.take(i as int)[k - base.len()]);
                    }
                } else {
                    assert(dst@[k]@ == srcv[i as int]);
                }
            }
            assert(lhs =~= rhs);
        }
        i = i + 1;
    }
    proof {
        assert(srcv.take(n as int) =~= srcv);
    }
}

/// Walks the manifest from the given stack of module names: each step pops a
/// module, records its built file, collects its stylesheets, and queues its
/// imports. A missing entry or an import chain longer than the fuel yields
/// nothing.
pub open spec fn spec_walk(
    m: &CacheMap<ManifestEntry>,
    stack: Seq<Seq<char>>,
    scripts: Seq<Seq<char>>,
    styles: Seq<Seq<char>>,
    fuel: nat,
) -> Option<(Seq<Seq<char>>, Seq<Seq<char>>)>
    decreases fuel,
{
    if stack.len() == 0 {
        Some((scripts, styles))
    } else if fuel == 0 {
        None
    } else {
        let f = stack.last();
        if m.spec_contains(f) {
            let e = m.spec_value(f);
            spec_walk(
                m,
                stack.drop_last() + e.imports@.map_values(|s: String| s@),
                scripts.push(e.file@),
                styles + e.css@.map_values(|s: String| s@),
                (fuel - 1) as nat,
            )
        } else {
            None
        }
    }
}

/// Resolves the given modules against the manifest, as [`spec_walk`]
/// states. `fuel` bounds the number of entries walked, so a cyclic manifest
/// ends in `None` instead of not ending.
pub fn find_all_imports(
    manifest: &CacheMap<ManifestEntry>,
    files: &Vec<String>,
    fuel: usize,
) -> (r: Option<(Vec<String>, Vec<String>)>)
    requires
        manifest.wf(),
    ensures
        ({
            let init_stack = files@.map_values(|s: String| s@);
            let w = spec_walk(manifest, init_stack, Seq::empty(), Seq::empty(), fuel as nat);
            match r {
                Some(t) => w == Some(
                    (
                        t.0@.map_values(|s: String| s@),
                        t.1@.map_values(|s: String| s@),
                    ),
                ),
                None => w is None,
            }
        }),
{
    let ghost init_stack = files@.map_values(|s: String| s@);
    let mut stack = clone_vec(files);
    let mut scripts: Vec<String> = Vec::new();
    let mut styles: Vec<String> = Vec::new();
    let mut fuel_left = fuel;
    proof {
        assert(scripts@.map_values(|s: String| s@) =~= Seq::<Seq<char>>::empty());
        assert(styles@.map_values(|s: String| s@) =~= Seq::<Seq<char>>::empty());
    }
    loop
        invariant
            manifest.wf(),
            fuel_left <= fuel,
            init_stack == files@.map_values(|s: String| s@),
            spec_walk(manifest, init_stack, Seq::empty(), Seq::empty(), fuel as nat) == spec_walk(
                manifest,
                stack@.map_values(|s: String| s@),
                scripts@.map_values(|s: String| s@),
                styles@.map_values(|s: String| s@),
                fuel_left as nat,
            ),
        decreases fuel_left,
    {
        let ghost stv = stack@.map_values(|s: String| s@);
        let ghost scv = scripts@.map_values(|s: String| s@);
        let ghost csv = styles@.map_values(|s: String| s@);
        if stack.len() == 0 {
            return Some((scripts, styles));
        }
        if fuel_left == 0 {
            return None;
        }
        let ghost prevstack = stack@;
        let f = stack.pop().unwrap();
        proof {
            assert(prevstack.map_values(|s: String| s@).last() == prevstack.last()@);
            assert(f@ == stv.last());
            assert(stack@.map_values(|s: String| s@) =~= stv.drop_last());
        }
        match manifest.get(&f) {
            None => {
                return None;
            },
            Some(e) => {
                let entry_file = clone_string(&e.file);
                let ghost ev = manifest.spec_value(f@);
                scripts.push(entry_file);
                proof {
                    assert(scripts@.map_values(|s: String| s@) =~= scv.push(ev.file@));
                }
                let css = clone_vec(&e.css);
                let imports = clone_vec(&e.imports);
                extend_clones(&mut styles, &css);
                extend_clones(&mut stack, &imports);
                proof {
                    assert(css@.map_values(|s: String| s@) =~= ev.css@.map_values(
                        |s: String| s@,
                    ));
                    assert(imports@.map_values(|s: String| s@) =~= ev.imports@.map_values(
                        |s: String| s@,
                    ));
                }
                fuel_left = fuel_left - 1;
            },
        }
    }
}

fn clone_vec(src: &Vec<String>) -> (r: Vec<String>)
    ensures
        r@.map_values(|s: String| s@) == src@.map_values(|s: String| s@),
{
    let mut r: Vec<String> = Vec::new();
    proof {
        assert(r@.map_values(|s: String| s@) =~= Seq::<Seq<char>>::empty());
        assert(Seq::<Seq<char>>::empty() + src@.map_values(|s: String| s@) =~= src@.map_values(
            |s: String| s@,
        ));
    }
    extend_clones(&mut r, src);
    r
}

// ---------------------------------------------------------------------------
// Tag rendering
// ---------------------------------------------------------------------------

/// The tag loading one built script.
pub open spec fn spec_script_tag(f: Seq<char>) -> Seq<char> {
    "<script type=\"module\" src=\"/static/target/"@ + spec_escape_html(f) + "\"></script>"@
}

/// The tag loading one built stylesheet.
pub open spec fn spec_link_tag(f: Seq<char>) -> Seq<char> {
    "<link rel=\"stylesheet\" href=\"/static/target/"@ + spec_escape_html(f) + "\">"@
}

/// The concatenated script tags of `fs`.
pub open spec fn spec_script_tags(fs: Seq<Seq<char>>) -> Seq<char>
    decreases fs.len(),
{
    if fs.len() == 0 {
        Seq::empty()
    } else {
        spec_script_tags(fs.drop_last()) + spec_script_tag(fs.last())
    }
}

/// The concatenated stylesheet tags of `fs`.
pub open spec fn spec_link_tags(fs: Seq<Seq<char>>) -> Seq<char>
    decreases fs.len(),
{
    if fs.len() == 0 {
        Seq::empty()
    } else {
        spec_link_tags(fs.drop_last()) + spec_link_tag(fs.last())
    }
}

/// Renders the tags that load the resolved assets: all script tags, then
/// all stylesheet tags.
pub fn asset_tags(scripts: &Vec<String>, styles: &Vec<String>) -> (r: String)
    ensures
        r@ == spec_script_tags(scripts@.map_values(|s: String| s@)) + spec_link_tags(
            styles@.map_values(|s: String| s@),
        ),
{
    let ghost scv = scripts@.map_values(|s: String| s@);
    let ghost csv = styles@.map_values(|s: String| s@);
    let mut out = String::new();
    let n = scripts.len();
    let mut i: usize = 0;
    proof {
        assert(out@ =~= spec_script_tags(scv.take(0)));
    }
    while i < n
        invariant
            i <= n,
            n == scripts@.len(),
            scv == scripts@.map_values(|s: String| s@),
            out@ == spec_script_tags(scv.take(i as int)),
        decreases n - i,
    {
        let ghost pre = out@;
        out.append("<script type=\"module\" src=\"/static/target/");
        let esc = escape_html(scripts[i].as_str());
        out.append(esc.as_str());
        out.append("\"></script>");
        proof {
            assert(scv[i as int] == scripts@[i as int]@);
            assert(out@ =~= pre + spec_script_tag(scv[i as int]));
            let t = scv.take(i as int + 1);
            assert(t.drop_last() =~= scv.take(i as int));
            assert(t.last() == scv[i as int]);
        }
        i = i + 1;
    }
    proof {
        assert(scv.take(n as int) =~= scv);
    }
    let ghost head = out@;
    let m = styles.len();
    let mut j: usize = 0;
    proof {
        assert(head + spec_link_tags(csv.take(0)) =~= head);
    }
    while j < m
        invariant
            j <= m,
            m == styles@.len(),
            csv == styles@.map_values(|s: String| s@),
            out@ == head + spec_link_tags(csv.take(j as int)),
        decreases m - j,
    {
        let ghost pre = out@;
        out.append("<link rel=\"stylesheet\" href=\"/static/target/");
        let esc = escape_html(styles[j].as_str());
        out.append(esc.as_str());
        out.append("\">");
        proof {
            assert(csv[j as int] == styles@[j as int]@);
            assert(out@ =~= pre + spec_link_tag(csv[j as int]));
            let t = csv.take(j as int + 1);
            assert(t.drop_last() =~= csv.take(j as int));
            assert(t.last() == csv[j as int]);
            assert(pre + spec_link_tag(csv[j as int]) =~= head + (spec_link_tags(
                csv.take(j as int),
            ) + spec_link_tag(csv[j as int])));
        }
        j = j + 1;
    }
    proof {
        assert(csv.take(m as int) =~= csv);
    }
    out
}

/// The tag loading one module straight from the development server.
pub open spec fn spec_dev_script_tag(f: Seq<char>) -> Seq<char> {
    "<script type=\"module\" src=\"http://localhost:5173/static/target/"@ + spec_escape_html(f)
        + "\"></script>"@
}

/// The concatenated development-server tags of `fs`.
pub open spec fn spec_dev_script_tags(fs: Seq<Seq<char>>) -> Seq<char>
    decreases fs.len(),
{
    if fs.len() == 0 {
        Seq::empty()
    } else {
        spec_dev_script_tags(fs.drop_last()) + spec_dev_script_tag(fs.last())
    }
}

/// Renders the tags used against the development server: its client first,
/// then one tag per requested module, unresolved.
pub fn dev_asset_tags(modules: &Vec<String>) -> (r: String)
    ensures
        r@ == "<script type=\"module\" src=\"http://localhost:5173/static/target/@vite/client\"></script>"@
            + spec_dev_script_tags(modules@.map_values(|s: String| s@)),
{
    let ghost mv = modules@.map_values(|s: String| s@);
    let mut out = String::new();
    out.append(
        "<script type=\"module\" src=\"http://localhost:5173/static/target/@vite/client\"></script>",
    );
    let ghost head = out@;
    let n = modules.len();
    let mut i: usize = 0;
    proof {
        assert(head + spec_dev_script_tags(mv.take(0)) =~= head);
    }
    while i < n
        invariant
            i <= n,
            n == modules@.len(),
            mv == modules@.map_values(|s: String| s@),
            out@ == head + spec_dev_script_tags(mv.take(i as int)),
        decreases n - i,
    {
        let ghost pre = out@;
        out.append("<script type=\"module\" src=\"http://localhost:5173/static/target/");
        let esc = escape_html(modules[i].as_str());
        out.append(esc.as_str());
        out.append("\"></script>");
        proof {
            assert(mv[i as int] == modules@[i as int]@);
            assert(out@ =~= pre + spec_dev_script_tag(mv[i as int]));
            let t = mv.take(i as int + 1);
            assert(t.drop_last() =~= mv.take(i as int));
            assert(t.last() == mv[i as int]);
            assert(pre + spec_dev_script_tag(mv[i as int]) =~= head + (spec_dev_script_tags(
                mv.take(i as int),
            ) + spec_dev_script_tag(mv[i as int])));
        }
        i = i + 1;
    }
    proof {
        assert(mv.take(n as int) =~= mv);
    }
    out
}

} // verus!
