//! The decisions of the plugin build tool: fuzzy plugin-name matching, how
//! command-line arguments split between the tool and cargo, TOML quoting, and
//! the text of the Cargo manifest generated for an `snb.toml` plugin.
use vstd::prelude::*;

use crate::config::{entries_view, find_entry, find_key, toml_table_entries, toml_table_strings};
use crate::sql::{join, string_views};
use crate::text::{chars_are, chars_eq, chars_of, owned, push_chars, push_str, str_eq};

verus! {

/// `s` with every `-` replaced by `_`.
pub open spec fn normalized(s: Seq<char>) -> Seq<char> {
    s.map_values(|c: char| if c == '-' { '_' } else { c })
}

/// Whether `s` starts with `p` and what follows it is `r`.
pub open spec fn strips_to(s: Seq<char>, p: Seq<char>, r: Seq<char>) -> bool {
    p.len() <= s.len() && s.take(p.len() as int) == p && s.skip(p.len() as int) == r
}

/// Whether `s` without one of the conventional plugin prefixes
/// (`snb_adapter_`, `snb_database_`, `snb_plugin_`, `snb_`) is `r`.
pub open spec fn prefix_strips_to(s: Seq<char>, r: Seq<char>) -> bool {
    ||| strips_to(s, "snb_adapter_"@, r)
    ||| strips_to(s, "snb_database_"@, r)
    ||| strips_to(s, "snb_plugin_"@, r)
    ||| strips_to(s, "snb_"@, r)
}

/// `s` without the suffix `x`, if it ends with it.
pub open spec fn without_suffix(s: Seq<char>, x: Seq<char>) -> Option<Seq<char>> {
    if x.len() <= s.len() && s.skip(s.len() - x.len()) == x {
        Some(s.take(s.len() - x.len()))
    } else {
        None
    }
}

/// The suffix rule for one suffix `x`: the directory name without it is the
/// request (as is, or both normalized), or the request without it is the
/// directory name.
pub open spec fn suffix_matches(dir: Seq<char>, req: Seq<char>, x: Seq<char>) -> bool {
    ||| (match without_suffix(dir, x) {
        Some(b) => b == req || normalized(b) == normalized(req),
        None => false,
    })
    ||| without_suffix(req, x) == Some(dir)
}

/// Whether a requested plugin name designates the plugin directory `dir`:
/// the same name; the name without a conventional prefix; the same up to
/// `-`/`_`; prefix stripped from either side after normalizing; or the same
/// up to a `_rs`/`-rs` suffix.
pub open spec fn plugin_name_match(dir: Seq<char>, req: Seq<char>) -> bool {
    ||| dir == req
    ||| prefix_strips_to(dir, req)
    ||| normalized(dir) == normalized(req)
    ||| prefix_strips_to(normalized(dir), normalized(req))
    ||| prefix_strips_to(normalized(req), normalized(dir))
    ||| suffix_matches(dir, req, "_rs"@)
    ||| suffix_matches(dir, req, "-rs"@)
}

/// Whether `s[a..b]` equals `t`.
fn range_is(s: &Vec<char>, a: usize, b: usize, t: &Vec<char>) -> (r: bool)
    requires
        a <= b <= s@.len(),
    ensures
        r == (s@.subrange(a as int, b as int) == t@),
{
    if b - a != t.len() {
        return false;
    }
    let mut i: usize = 0;
    while i < t.len()
        invariant
            a <= b <= s@.len(),
            b - a == t@.len(),
            i <= t@.len(),
            forall|j: int| 0 <= j < i ==> s@[a + j] == t@[j],
        decreases t.len() - i,
    {
        if s[a + i] != t[i] {
            assert(s@.subrange(a as int, b as int)[i as int] != t@[i as int]);
            return false;
        }
        i = i + 1;
    }
    assert(s@.subrange(a as int, b as int) =~= t@);
    true
}

/// Whether `s` starts with `p` and the rest is `r`.
fn strips_to_exec(s: &Vec<char>, p: &str, r: &Vec<char>) -> (b: bool)
    ensures
        b == strips_to(s@, p@, r@),
{
    let pc = chars_of(p);
    if pc.len() > s.len() {
        return false;
    }
    let head = range_is(s, 0, pc.len(), &pc);
    assert(s@.subrange(0, pc@.len() as int) == s@.take(pc@.len() as int));
    if !head {
        return false;
    }
    let tail = range_is(s, pc.len(), s.len(), r);
    assert(s@.subrange(pc@.len() as int, s@.len() as int) == s@.skip(pc@.len() as int));
    tail
}

fn prefix_strips_exec(s: &Vec<char>, r: &Vec<char>) -> (b: bool)
    ensures
        b == prefix_strips_to(s@, r@),
{
    strips_to_exec(s, "snb_adapter_", r) || strips_to_exec(s, "snb_database_", r) || strips_to_exec(
        s,
        "snb_plugin_",
        r,
    ) || strips_to_exec(s, "snb_", r)
}

/// `s` with every `-` replaced by `_`.
fn normalize(s: &Vec<char>) -> (v: Vec<char>)
    ensures
        v@ == normalized(s@),
{
    let mut v: Vec<char> = Vec::new();
    let mut i: usize = 0;
    while i < s.len()
        invariant
            i <= s@.len(),
            v@ == normalized(s@.take(i as int)),
        decreases s.len() - i,
    {
        let c = s[i];
        v.push(if c == '-' { '_' } else { c });
        assert(s@.take(i as int + 1) =~= s@.take(i as int).push(c));
        assert(normalized(s@.take(i as int + 1)) =~= normalized(s@.take(i as int)).push(
            if c == '-' { '_' } else { c },
        ));
        i = i + 1;
    }
    assert(s@.take(i as int) =~= s@);
    v
}

/// `s` without the suffix `x`, if it ends with it.
fn strip_suffix(s: &Vec<char>, x: &str) -> (r: Option<Vec<char>>)
    ensures
        match without_suffix(s@, x@) {
            Some(b) => r matches Some(v) && v@ == b,
            None => r is None,
        },
{
    let xc = chars_of(x);
    if xc.len() > s.len() {
        return None;
    }
    let k = s.len() - xc.len();
    let tail = range_is(s, k, s.len(), &xc);
    assert(s@.subrange(k as int, s@.len() as int) == s@.skip(k as int));
    if !tail {
        return None;
    }
    let mut v: Vec<char> = Vec::new();
    let mut i: usize = 0;
    while i < k
        invariant
            k <= s@.len(),
            i <= k,
            v@ == s@.take(i as int),
        decreases k - i,
    {
        v.push(s[i]);
        assert(s@.take(i as int + 1) =~= s@.take(i as int).push(s@[i as int]));
        i = i + 1;
    }
    Some(v)
}

fn suffix_matches_exec(dir: &Vec<char>, req: &Vec<char>, x: &str) -> (b: bool)
    ensures
        b == suffix_matches(dir@, req@, x@),
{
    match strip_suffix(dir, x) {
        Some(base) => {
            if chars_eq(&base, req) {
                return true;
            }
            let nb = normalize(&base);
            let nr = normalize(req);
            if chars_eq(&nb, &nr) {
                return true;
            }
        },
        None => {},
    }
    match strip_suffix(req, x) {
        Some(base) => chars_eq(&base, dir),
        None => false,
    }
}

/// Whether the requested name designates the plugin directory `dir_name`
/// (see [`plugin_name_match`]).
pub fn plugin_name_matches(dir_name: &str, requested: &str) -> (r: bool)
    ensures
        r == plugin_name_match(dir_name@, requested@),
{
    let d = chars_of(dir_name);
    let q = chars_of(requested);
    if chars_eq(&d, &q) {
        return true;
    }
    if prefix_strips_exec(&d, &q) {
        return true;
    }
    let nd = normalize(&d);
    let nq = normalize(&q);
    if chars_eq(&nd, &nq) {
        return true;
    }
    if prefix_strips_exec(&nd, &nq) || prefix_strips_exec(&nq, &nd) {
        return true;
    }
    suffix_matches_exec(&d, &q, "_rs") || suffix_matches_exec(&d, &q, "-rs")
}

/// Whether a requested name designates a plugin: by its directory name, or,
/// for a plugin built from `snb.toml` sources, by its package name.
pub fn plugin_matches(name: &str, package_name: Option<&str>, requested: &str) -> (r: bool)
    ensures
        r == (plugin_name_match(name@, requested@) || (package_name matches Some(p) && plugin_name_match(
            p@,
            requested@,
        ))),
{
    if plugin_name_matches(name, requested) {
        return true;
    }
    match package_name {
        Some(p) => plugin_name_matches(p, requested),
        None => false,
    }
}

} // verus!

verus! {

/// Whether an argument is a flag for cargo rather than a plugin name.
pub fn looks_like_cargo_build_arg(arg: &str) -> (r: bool)
    ensures
        r == (arg@.len() > 0 && arg@[0] == '-'),
{
    let cs = chars_of(arg);
    cs.len() > 0 && cs[0] == '-'
}

/// Whether an argument asks for help: `-h`, `--help` or `help`.
pub fn is_help_arg(arg: &str) -> (r: bool)
    ensures
        r == (arg@ == "-h"@ || arg@ == "--help"@ || arg@ == "help"@),
{
    str_eq(arg, "-h") || str_eq(arg, "--help") || str_eq(arg, "help")
}

/// Copies of `args[from..]`.
fn tail_copy(args: &Vec<String>, from: usize) -> (r: Vec<String>)
    requires
        from <= args@.len(),
    ensures
        string_views(r@) == string_views(args@).skip(from as int),
{
    let mut r: Vec<String> = Vec::new();
    let mut i = from;
    while i < args.len()
        invariant
            from <= i <= args@.len(),
            string_views(r@) == string_views(args@).subrange(from as int, i as int),
        decreases args.len() - i,
    {
        let ghost r0 = r@;
        r.push(args[i].clone());
        assert(string_views(r@) =~= string_views(r0).push(args@[i as int]@));
        assert(string_views(args@).subrange(from as int, i as int + 1) =~= string_views(args@).subrange(
            from as int,
            i as int,
        ).push(args@[i as int]@));
        i = i + 1;
    }
    assert(string_views(args@).subrange(from as int, i as int) =~= string_views(args@).skip(from as int));
    r
}

/// Splits the arguments of `build-plugin`: a first argument that is not a
/// flag names the plugin, everything after it goes to cargo; otherwise all
/// of them go to cargo.
pub fn split_build_plugin_args(args: &Vec<String>) -> (r: (Option<&String>, Vec<String>))
    ensures
        args@.len() > 0 && !(args@[0]@.len() > 0 && args@[0]@[0] == '-') ==> r.0 == Some(&args@[0])
            && string_views(r.1@) == string_views(args@).skip(1),
        !(args@.len() > 0 && !(args@[0]@.len() > 0 && args@[0]@[0] == '-')) ==> r.0 is None && string_views(
            r.1@,
        ) == string_views(args@),
{
    if args.len() > 0 && !looks_like_cargo_build_arg(args[0].as_str()) {
        (Some(&args[0]), tail_copy(args, 1))
    } else {
        let all = tail_copy(args, 0);
        assert(string_views(args@).skip(0) =~= string_views(args@));
        (None, all)
    }
}

/// Whether an argument selects cargo targets itself.
pub open spec fn is_target_selection(a: Seq<char>) -> bool {
    ||| a == "--lib"@
    ||| a == "--bins"@
    ||| a == "--examples"@
    ||| a == "--tests"@
    ||| a == "--benches"@
    ||| a == "--all-targets"@
    ||| a == "--bin"@
    ||| a == "--example"@
    ||| a == "--test"@
    ||| a == "--bench"@
}

fn is_target_selection_exec(a: &str) -> (r: bool)
    ensures
        r == is_target_selection(a@),
{
    str_eq(a, "--lib") || str_eq(a, "--bins") || str_eq(a, "--examples") || str_eq(a, "--tests") || str_eq(
        a,
        "--benches",
    ) || str_eq(a, "--all-targets") || str_eq(a, "--bin") || str_eq(a, "--example") || str_eq(a, "--test")
        || str_eq(a, "--bench")
}

/// Whether any argument selects cargo targets.
pub fn has_target_selection_arg(args: &Vec<String>) -> (r: bool)
    ensures
        r == exists|i: int| 0 <= i < args@.len() && is_target_selection(#[trigger] args@[i]@),
{
    let mut i: usize = 0;
    while i < args.len()
        invariant
            i <= args@.len(),
            forall|j: int| 0 <= j < i ==> !is_target_selection(#[trigger] args@[j]@),
        decreases args.len() - i,
    {
        if is_target_selection_exec(args[i].as_str()) {
            return true;
        }
        i = i + 1;
    }
    false
}

/// Whether an argument sets cargo's target directory.
pub open spec fn is_target_dir(a: Seq<char>) -> bool {
    a == "--target-dir"@ || (a.len() >= 13 && a.take(13) == "--target-dir="@)
}

/// Whether any argument sets cargo's target directory.
pub fn has_target_dir_arg(args: &Vec<String>) -> (r: bool)
    ensures
        r == exists|i: int| 0 <= i < args@.len() && is_target_dir(#[trigger] args@[i]@),
{
    proof {
        reveal_strlit("--target-dir=");
    }
    let prefix = chars_of("--target-dir=");
    let mut i: usize = 0;
    while i < args.len()
        invariant
            i <= args@.len(),
            prefix@ == "--target-dir="@,
            prefix@.len() == 13,
            forall|j: int| 0 <= j < i ==> !is_target_dir(#[trigger] args@[j]@),
        decreases args.len() - i,
    {
        let a = chars_of(args[i].as_str());
        if str_eq(args[i].as_str(), "--target-dir") {
            return true;
        }
        if a.len() >= 13 && range_is(&a, 0, 13, &prefix) {
            assert(a@.subrange(0, 13) == a@.take(13));
            return true;
        }
        assert(a.len() >= 13 ==> a@.subrange(0, 13) == a@.take(13));
        i = i + 1;
    }
    false
}

/// `--lib` when only the library is to be built and no argument selects
/// targets already; nothing otherwise.
pub fn lib_only_args(lib_only: bool, extra_args: &Vec<String>) -> (r: Vec<String>)
    ensures
        lib_only && !(exists|i: int| 0 <= i < extra_args@.len() && is_target_selection(#[trigger] extra_args@[i]@))
            ==> string_views(r@) == seq!["--lib"@],
        !(lib_only && !(exists|i: int| 0 <= i < extra_args@.len() && is_target_selection(
            #[trigger] extra_args@[i]@,
        ))) ==> r@.len() == 0,
{
    let mut r: Vec<String> = Vec::new();
    if lib_only && !has_target_selection_arg(extra_args) {
        r.push(owned("--lib"));
        assert(string_views(r@) =~= seq!["--lib"@]);
    }
    r
}

/// `--target-dir <target_dir>` unless an argument sets the target directory.
pub fn default_target_dir_args(target_dir: &str, extra_args: &Vec<String>) -> (r: Vec<String>)
    ensures
        (exists|i: int| 0 <= i < extra_args@.len() && is_target_dir(#[trigger] extra_args@[i]@)) ==> r@.len()
            == 0,
        !(exists|i: int| 0 <= i < extra_args@.len() && is_target_dir(#[trigger] extra_args@[i]@))
            ==> string_views(r@) == seq!["--target-dir"@, target_dir@],
{
    let mut r: Vec<String> = Vec::new();
    if has_target_dir_arg(extra_args) {
        return r;
    }
    r.push(owned("--target-dir"));
    r.push(owned(target_dir));
    assert(string_views(r@) =~= seq!["--target-dir"@, target_dir@]);
    r
}

/// How a character is written inside a TOML basic string.
pub open spec fn toml_escape(c: char) -> Seq<char> {
    if c == '\\' {
        seq!['\\', '\\']
    } else if c == '"' {
        seq!['\\', '"']
    } else if c == '\n' {
        seq!['\\', 'n']
    } else if c == '\r' {
        seq!['\\', 'r']
    } else if c == '\t' {
        seq!['\\', 't']
    } else {
        seq![c]
    }
}

/// The characters of `s`, each escaped for a TOML basic string.
pub open spec fn toml_escaped(s: Seq<char>) -> Seq<char>
    decreases s.len(),
{
    if s.len() == 0 {
        Seq::empty()
    } else {
        toml_escaped(s.drop_last()) + toml_escape(s.last())
    }
}

/// `s` as a TOML basic string: escaped and in double quotes.
pub open spec fn toml_quoted(s: Seq<char>) -> Seq<char> {
    seq!['"'] + toml_escaped(s) + seq!['"']
}

/// Whether `c` may stand in a bare TOML key.
pub open spec fn is_bare_key_char(c: char) -> bool {
    ('a' <= c && c <= 'z') || ('A' <= c && c <= 'Z') || ('0' <= c && c <= '9') || c == '_' || c == '-'
}

/// A TOML key: bare when every character may stand bare, quoted otherwise.
pub open spec fn toml_key_text(s: Seq<char>) -> Seq<char> {
    if forall|i: int| 0 <= i < s.len() ==> is_bare_key_char(#[trigger] s[i]) {
        s
    } else {
        toml_quoted(s)
    }
}

/// `value` as a TOML basic string (see [`toml_quoted`]).
pub fn toml_string(value: &str) -> (s: String)
    ensures
        s@ == toml_quoted(value@),
{
    let cs = chars_of(value);
    let mut out = String::new();
    out.push('"');
    let mut i: usize = 0;
    while i < cs.len()
        invariant
            i <= cs@.len(),
            out@ == seq!['"'] + toml_escaped(cs@.take(i as int)),
        decreases cs.len() - i,
    {
        let ch = cs[i];
        let ghost o = out@;
        if ch == '\\' {
            out.push('\\');
            out.push('\\');
        } else if ch == '"' {
            out.push('\\');
            out.push('"');
        } else if ch == '\n' {
            out.push('\\');
            out.push('n');
        } else if ch == '\r' {
            out.push('\\');
            out.push('r');
        } else if ch == '\t' {
            out.push('\\');
            out.push('t');
        } else {
            out.push(ch);
        }
        assert(out@ =~= o + toml_escape(ch));
        assert(cs@.take(i as int + 1).drop_last() =~= cs@.take(i as int));
        assert(out@ =~= seq!['"'] + toml_escaped(cs@.take(i as int + 1)));
        i = i + 1;
    }
    out.push('"');
    assert(cs@.take(i as int) =~= cs@);
    assert(out@ =~= toml_quoted(value@));
    out
}

/// `key` as a TOML key (see [`toml_key_text`]).
pub fn toml_key(key: &str) -> (s: String)
    ensures
        s@ == toml_key_text(key@),
{
    let cs = chars_of(key);
    let mut i: usize = 0;
    while i < cs.len()
        invariant
            i <= cs@.len(),
            cs@ == key@,
            forall|j: int| 0 <= j < i ==> is_bare_key_char(#[trigger] cs@[j]),
        decreases cs.len() - i,
    {
        let c = cs[i];
        if !(('a' <= c && c <= 'z') || ('A' <= c && c <= 'Z') || ('0' <= c && c <= '9') || c == '_' || c == '-') {
            assert(!is_bare_key_char(key@[i as int]));
            return toml_string(key);
        }
        i = i + 1;
    }
    owned(key)
}

} // verus!

verus! {

/// What the Cargo manifest generated for an `snb.toml` plugin is made of.
/// Paths are given as text; each extra dependency comes with its TOML value
/// already written out.
pub struct ManifestInputs {
    pub package_name: String,
    pub package_version: String,
    pub source: String,
    pub dependency_name: String,
    pub plugin_dir: String,
    pub core_dir: String,
    pub macros_dir: String,
    pub dependencies: Vec<(String, String)>,
}

/// `key = value` lines for the extra dependencies, in order.
pub open spec fn dependency_lines(deps: Seq<(String, String)>) -> Seq<char>
    decreases deps.len(),
{
    if deps.len() == 0 {
        Seq::empty()
    } else {
        dependency_lines(deps.drop_last()) + toml_key_text(deps.last().0@) + " = "@ + deps.last().1@ + "\n"@
    }
}

/// The generated manifest: the package, an empty workspace, a `cdylib`
/// library at the source, then the dependencies on the plugin's own crate,
/// on the core and macro crates, and the extra ones.
pub open spec fn manifest_text(m: ManifestInputs) -> Seq<char> {
    "[package]\n"@ + "name = "@ + toml_quoted(m.package_name@) + "\n"@ + "version = "@ + toml_quoted(
        m.package_version@,
    ) + "\n"@ + "edition = \"2024\"\n\n"@ + "[workspace]\n\n"@ + "[lib]\n"@ + "path = "@ + toml_quoted(m.source@)
        + "\n"@ + "crate-type = [\"cdylib\"]\n\n"@ + "[dependencies]\n"@ + toml_key_text(m.dependency_name@)
        + " = { path = "@ + toml_quoted(m.plugin_dir@) + " }\n"@ + "snb_core = { path = "@ + toml_quoted(
        m.core_dir@,
    ) + " }\n"@ + "snb_macros = { path = "@ + toml_quoted(m.macros_dir@) + " }\n"@ + dependency_lines(
        m.dependencies@,
    )
}

/// Whether an extra dependency is named `name`.
pub open spec fn declares(deps: Seq<(String, String)>, name: Seq<char>) -> bool {
    exists|i: int| 0 <= i < deps.len() && (#[trigger] deps[i]).0@ == name
}

/// The error for an extra dependency that would replace a generated one.
pub open spec fn override_message(plugin_dir: Seq<char>, dep: Seq<char>) -> Seq<char> {
    plugin_dir + " snb.toml [dependencies] must not override generated dependency `"@ + dep + "`"@
}

fn declares_exec(deps: &Vec<(String, String)>, name: &str) -> (r: bool)
    ensures
        r == declares(deps@, name@),
{
    let mut i: usize = 0;
    while i < deps.len()
        invariant
            i <= deps@.len(),
            forall|j: int| 0 <= j < i ==> (#[trigger] deps@[j]).0@ != name@,
        decreases deps.len() - i,
    {
        if str_eq(deps[i].0.as_str(), name) {
            return true;
        }
        i = i + 1;
    }
    false
}

fn override_error(plugin_dir: &str, dep: &str) -> (s: String)
    ensures
        s@ == override_message(plugin_dir@, dep@),
{
    let mut s = owned(plugin_dir);
    push_str(&mut s, " snb.toml [dependencies] must not override generated dependency `");
    push_str(&mut s, dep);
    push_str(&mut s, "`");
    assert(s@ =~= override_message(plugin_dir@, dep@));
    s
}

/// The characters of a result's text.
pub open spec fn result_chars(r: Result<String, String>) -> Result<Seq<char>, Seq<char>> {
    match r {
        Ok(s) => Ok(s@),
        Err(e) => Err(e@),
    }
}

/// The generated manifest, or the error for the first generated dependency
/// (the plugin's own crate, `snb_core`, `snb_macros`) an extra one is named like.
pub open spec fn manifest_result(m: ManifestInputs, plugin_dir: Seq<char>) -> Result<Seq<char>, Seq<char>> {
    if declares(m.dependencies@, m.dependency_name@) {
        Err(override_message(plugin_dir, m.dependency_name@))
    } else if declares(m.dependencies@, "snb_core"@) {
        Err(override_message(plugin_dir, "snb_core"@))
    } else if declares(m.dependencies@, "snb_macros"@) {
        Err(override_message(plugin_dir, "snb_macros"@))
    } else {
        Ok(manifest_text(m))
    }
}

/// The manifest generated for an `snb.toml` plugin (see [`manifest_text`]),
/// or, when an extra dependency is named like a generated one (the plugin's
/// own crate, `snb_core`, `snb_macros`, checked in that order), the error
/// naming the first such.
pub fn generated_manifest(m: &ManifestInputs, plugin_dir_display: &str) -> (r: Result<String, String>)
    ensures
        result_chars(r) == manifest_result(*m, plugin_dir_display@),
{
    if declares_exec(&m.dependencies, m.dependency_name.as_str()) {
        return Err(override_error(plugin_dir_display, m.dependency_name.as_str()));
    }
    if declares_exec(&m.dependencies, "snb_core") {
        return Err(override_error(plugin_dir_display, "snb_core"));
    }
    if declares_exec(&m.dependencies, "snb_macros") {
        return Err(override_error(plugin_dir_display, "snb_macros"));
    }
    let mut c = String::new();
    push_str(&mut c, "[package]\n");
    push_str(&mut c, "name = ");
    let t = toml_string(m.package_name.as_str());
    push_str(&mut c, t.as_str());
    push_str(&mut c, "\n");
    push_str(&mut c, "version = ");
    let t = toml_string(m.package_version.as_str());
    push_str(&mut c, t.as_str());
    push_str(&mut c, "\n");
    push_str(&mut c, "edition = \"2024\"\n\n");
    push_str(&mut c, "[workspace]\n\n");
    push_str(&mut c, "[lib]\n");
    push_str(&mut c, "path = ");
    let t = toml_string(m.source.as_str());
    push_str(&mut c, t.as_str());
    push_str(&mut c, "\n");
    push_str(&mut c, "crate-type = [\"cdylib\"]\n\n");
    push_str(&mut c, "[dependencies]\n");
    let t = toml_key(m.dependency_name.as_str());
    push_str(&mut c, t.as_str());
    push_str(&mut c, " = { path = ");
    let t = toml_string(m.plugin_dir.as_str());
    push_str(&mut c, t.as_str());
    push_str(&mut c, " }\n");
    push_str(&mut c, "snb_core = { path = ");
    let t = toml_string(m.core_dir.as_str());
    push_str(&mut c, t.as_str());
    push_str(&mut c, " }\n");
    push_str(&mut c, "snb_macros = { path = ");
    let t = toml_string(m.macros_dir.as_str());
    push_str(&mut c, t.as_str());
    push_str(&mut c, " }\n");
    let ghost head = c@;
    let mut i: usize = 0;
    while i < m.dependencies.len()
        invariant
            i <= m.dependencies@.len(),
            c@ == head + dependency_lines(m.dependencies@.take(i as int)),
        decreases m.dependencies.len() - i,
    {
        assert(m.dependencies@.take(i as int + 1).drop_last() =~= m.dependencies@.take(i as int));
        let k = toml_key(m.dependencies[i].0.as_str());
        push_str(&mut c, k.as_str());
        push_str(&mut c, " = ");
        push_str(&mut c, m.dependencies[i].1.as_str());
        push_str(&mut c, "\n");
        assert(c@ =~= head + dependency_lines(m.dependencies@.take(i as int + 1)));
        i = i + 1;
    }
    assert(m.dependencies@.take(i as int) =~= m.dependencies@);
    assert(c@ =~= manifest_text(*m));
    Ok(c)
}

} // verus!

verus! {

/// What a TOML table holds under one key: nothing, a string, or another value.
#[derive(Debug, Clone)]
pub enum TomlEntry {
    Missing,
    Text(String),
    Other,
}

/// The text under a key, if it holds a string.
pub open spec fn entry_text(e: TomlEntry) -> Option<Seq<char>> {
    match e {
        TomlEntry::Text(s) => Some(s@),
        _ => None,
    }
}

/// The `[build]` table of an `snb.toml`, as far as the build reads it.
#[derive(Debug, Clone)]
pub struct BuildSection {
    pub manifest: TomlEntry,
    pub source: TomlEntry,
    pub package: TomlEntry,
    pub name: TomlEntry,
    pub version: TomlEntry,
}

/// How an `snb.toml` plugin is built: from an existing Cargo manifest, or
/// from a source file with a generated one (paths relative to the plugin).
#[derive(Debug, Clone)]
pub enum BuildPlan {
    Manifest(String),
    Source(String),
}

/// The plan an `snb.toml` asks for: `build.manifest` if it is a string, else
/// `build.source` if it is; an error without a `[build]` table or with neither.
pub open spec fn build_plan_result(build: Option<BuildSection>, snb: Seq<char>) -> Result<BuildPlan, Seq<char>> {
    match build {
        None => Err(snb + " must contain [build]"@),
        Some(b) => match b.manifest {
            TomlEntry::Text(m) => Ok(BuildPlan::Manifest(m)),
            _ => match b.source {
                TomlEntry::Text(s) => Ok(BuildPlan::Source(s)),
                _ => Err(snb + " [build] must contain either manifest or source"@),
            },
        },
    }
}

/// The plan with its error as characters.
pub open spec fn plan_chars(r: Result<BuildPlan, String>) -> Result<BuildPlan, Seq<char>> {
    match r {
        Ok(p) => Ok(p),
        Err(e) => Err(e@),
    }
}

fn text_after(head: &str, tail: &str) -> (s: String)
    ensures
        s@ == head@ + tail@,
{
    let mut s = owned(head);
    push_str(&mut s, tail);
    s
}

/// Which build an `snb.toml` asks for (see [`build_plan_result`]); `snb` is
/// how the file is named in errors.
pub fn snb_build_plan(build: Option<BuildSection>, snb: &str) -> (r: Result<BuildPlan, String>)
    ensures
        plan_chars(r) == build_plan_result(build, snb@),
{
    match build {
        None => Err(text_after(snb, " must contain [build]")),
        Some(b) => match b.manifest {
            TomlEntry::Text(m) => Ok(BuildPlan::Manifest(m)),
            _ => match b.source {
                TomlEntry::Text(s) => Ok(BuildPlan::Source(s)),
                _ => Err(text_after(snb, " [build] must contain either manifest or source")),
            },
        },
    }
}

/// The package name of a plugin built from sources: `build.package` when the
/// key is there (if it is a string), else `build.name` if it is a string, else
/// `snb_` and the Cargo package name with `-` written `_`.
pub open spec fn snb_package_name_spec(b: BuildSection, cargo_name: Seq<char>) -> Seq<char> {
    let fallback = "snb_"@ + normalized(cargo_name);
    match b.package {
        TomlEntry::Text(p) => p@,
        TomlEntry::Other => fallback,
        TomlEntry::Missing => match b.name {
            TomlEntry::Text(n) => n@,
            _ => fallback,
        },
    }
}

/// The package name of a plugin built from sources (see [`snb_package_name_spec`]).
pub fn snb_package_name(b: &BuildSection, cargo_name: &str) -> (s: String)
    ensures
        s@ == snb_package_name_spec(*b, cargo_name@),
{
    let chosen = match &b.package {
        TomlEntry::Text(p) => Some(p),
        TomlEntry::Other => None,
        TomlEntry::Missing => match &b.name {
            TomlEntry::Text(n) => Some(n),
            _ => None,
        },
    };
    match chosen {
        Some(t) => owned(t.as_str()),
        None => {
            let n = normalize(&chars_of(cargo_name));
            let mut s = owned("snb_");
            push_chars(&mut s, &n);
            s
        },
    }
}

/// The package version of a plugin built from sources: `build.version` if it
/// is a string, else the Cargo package version.
pub fn snb_package_version(b: &BuildSection, cargo_version: &str) -> (s: String)
    ensures
        s@ == match entry_text(b.version) {
            Some(v) => v,
            None => cargo_version@,
        },
{
    match &b.version {
        TomlEntry::Text(v) => owned(v.as_str()),
        _ => owned(cargo_version),
    }
}

/// The `[package]` table of a Cargo manifest, as far as the build reads it.
#[derive(Debug, Clone)]
pub struct PackageSection {
    pub name: TomlEntry,
    pub version: TomlEntry,
}

/// A Cargo package's name and version.
#[derive(Debug, Clone)]
pub struct PackageInfo {
    pub name: String,
    pub version: String,
}

/// The package name and version a Cargo manifest declares, or the error for
/// what is missing first: the `[package]` table, its name, its version.
pub open spec fn package_info_result(package: Option<PackageSection>, manifest: Seq<char>) -> Result<
    (Seq<char>, Seq<char>),
    Seq<char>,
> {
    match package {
        None => Err(manifest + " must contain [package]"@),
        Some(p) => match (entry_text(p.name), entry_text(p.version)) {
            (None, _) => Err(manifest + " [package].name is required"@),
            (Some(_), None) => Err(manifest + " [package].version is required"@),
            (Some(n), Some(v)) => Ok((n, v)),
        },
    }
}

/// The package info as characters.
pub open spec fn package_info_chars(r: Result<PackageInfo, String>) -> Result<(Seq<char>, Seq<char>), Seq<char>> {
    match r {
        Ok(p) => Ok((p.name@, p.version@)),
        Err(e) => Err(e@),
    }
}

/// A Cargo package's name and version (see [`package_info_result`]);
/// `manifest` is how the manifest is named in errors.
pub fn cargo_package_info(package: &Option<PackageSection>, manifest: &str) -> (r: Result<PackageInfo, String>)
    ensures
        package_info_chars(r) == package_info_result(*package, manifest@),
{
    match package {
        None => Err(text_after(manifest, " must contain [package]")),
        Some(p) => match &p.name {
            TomlEntry::Text(n) => match &p.version {
                TomlEntry::Text(v) => Ok(PackageInfo { name: owned(n.as_str()), version: owned(v.as_str()) }),
                _ => Err(text_after(manifest, " [package].version is required")),
            },
            _ => Err(text_after(manifest, " [package].name is required")),
        },
    }
}

/// Whether `e` is how a table entry that holds `v` reads (see [`find_key`]):
/// missing, a string, or another value.
pub open spec fn entry_as(e: TomlEntry, v: Option<Option<Seq<char>>>) -> bool {
    match v {
        None => e is Missing,
        Some(None) => e is Other,
        Some(Some(t)) => e matches TomlEntry::Text(s) && s@ == t,
    }
}

/// The entry named `key` of a table.
fn entry_named(es: &Vec<(String, Option<String>)>, key: &str) -> (e: TomlEntry)
    ensures
        entry_as(e, find_key(entries_view(es@), key@)),
{
    match find_entry(es, key) {
        None => TomlEntry::Missing,
        Some(None) => TomlEntry::Other,
        Some(Some(t)) => TomlEntry::Text(owned(t.as_str())),
    }
}

/// Whether `b` is the `[build]` table whose entries are `es`.
pub open spec fn build_section_of(b: BuildSection, es: Seq<(Seq<char>, Option<Seq<char>>)>) -> bool {
    &&& entry_as(b.manifest, find_key(es, "manifest"@))
    &&& entry_as(b.source, find_key(es, "source"@))
    &&& entry_as(b.package, find_key(es, "package"@))
    &&& entry_as(b.name, find_key(es, "name"@))
    &&& entry_as(b.version, find_key(es, "version"@))
}

/// The error for a file that is no TOML document.
pub open spec fn parse_failure(file: Seq<char>, e: Seq<char>) -> Seq<char> {
    "failed to parse "@ + file + ": "@ + e
}

fn parse_failure_text(file: &str, e: &str) -> (m: String)
    ensures
        m@ == parse_failure(file@, e@),
{
    let mut m = owned("failed to parse ");
    push_str(&mut m, file);
    push_str(&mut m, ": ");
    push_str(&mut m, e);
    m
}

/// The `[build]` table of an `snb.toml` text: an error when the text is no
/// TOML document, nothing when it has no `[build]` table; `snb` is how the
/// file is named in errors.
pub fn parse_build_section(snb_toml: &str, snb: &str) -> (r: Result<Option<BuildSection>, String>)
    ensures
        match toml_table_strings(snb_toml@, Some("build"@)) {
            Err(e) => r matches Err(m) && m@ == parse_failure(snb@, e),
            Ok(None) => r matches Ok(None),
            Ok(Some(es)) => r matches Ok(Some(b)) && build_section_of(b, es),
        },
{
    match toml_table_entries(snb_toml, Some("build")) {
        Err(e) => Err(parse_failure_text(snb, e.as_str())),
        Ok(None) => Ok(None),
        Ok(Some(es)) => Ok(
            Some(
                BuildSection {
                    manifest: entry_named(&es, "manifest"),
                    source: entry_named(&es, "source"),
                    package: entry_named(&es, "package"),
                    name: entry_named(&es, "name"),
                    version: entry_named(&es, "version"),
                },
            ),
        ),
    }
}

/// The package name and version a Cargo manifest text declares (see
/// [`package_info_result`]), or the parse error.
pub open spec fn manifest_package_info(text: Seq<char>, manifest: Seq<char>) -> Result<(Seq<char>, Seq<char>), Seq<char>> {
    match toml_table_strings(text, Some("package"@)) {
        Err(e) => Err(parse_failure(manifest, e)),
        Ok(None) => Err(manifest + " must contain [package]"@),
        Ok(Some(es)) => match (find_key(es, "name"@), find_key(es, "version"@)) {
            (Some(Some(n)), Some(Some(v))) => Ok((n, v)),
            (Some(Some(_)), _) => Err(manifest + " [package].version is required"@),
            _ => Err(manifest + " [package].name is required"@),
        },
    }
}

/// A Cargo package's name and version read from its manifest text (see
/// [`manifest_package_info`]); `manifest` is how the file is named in errors.
pub fn package_info_from_manifest(cargo_toml: &str, manifest: &str) -> (r: Result<PackageInfo, String>)
    ensures
        package_info_chars(r) == manifest_package_info(cargo_toml@, manifest@),
{
    match toml_table_entries(cargo_toml, Some("package")) {
        Err(e) => Err(parse_failure_text(manifest, e.as_str())),
        Ok(None) => cargo_package_info(&None, manifest),
        Ok(Some(es)) => {
            let section = PackageSection { name: entry_named(&es, "name"), version: entry_named(&es, "version") };
            cargo_package_info(&Some(section), manifest)
        },
    }
}

/// Whether a plugin is one of the bundled examples.
pub open spec fn is_example_plugin(name: Seq<char>) -> bool {
    name == "snb_adapter_stdin"@ || name == "snb_database_sqlite"@ || name == "snb_plugin_example"@
}

/// The bundled example plugins are exactly the stdin adapter, the SQLite
/// driver and the example plugin; every other plugin is a regular one.
pub proof fn lemma_bundled_examples()
    ensures
        Set::new(|n: Seq<char>| is_example_plugin(n)) == set![
            "snb_adapter_stdin"@,
            "snb_database_sqlite"@,
            "snb_plugin_example"@,
        ],
{
    assert(Set::new(|n: Seq<char>| is_example_plugin(n)) =~= set![
        "snb_adapter_stdin"@,
        "snb_database_sqlite"@,
        "snb_plugin_example"@,
    ]);
}

/// Whether a plugin is one of the bundled examples.
pub fn is_example(name: &str) -> (r: bool)
    ensures
        r == is_example_plugin(name@),
{
    str_eq(name, "snb_adapter_stdin") || str_eq(name, "snb_database_sqlite") || str_eq(name, "snb_plugin_example")
}

/// A discovered plugin as the listing shows it: its name and the path of
/// its manifest (relative to the workspace where possible).
#[derive(Debug, Clone)]
pub struct ListedPlugin {
    pub name: String,
    pub path: String,
}

/// The number of bytes of `s` in UTF-8, as `str::len` reports it.
pub open spec fn byte_len(s: Seq<char>) -> nat {
    (vstd::utf8::encode_utf8(s).len() as usize) as nat
}

/// The widest name, in bytes.
pub open spec fn name_width(ps: Seq<ListedPlugin>) -> nat
    decreases ps.len(),
{
    if ps.len() == 0 {
        0
    } else {
        let w = name_width(ps.drop_last());
        let b = byte_len(ps.last().name@);
        if b > w {
            b
        } else {
            w
        }
    }
}

/// `n` copies of `c`.
pub open spec fn repeated(c: char, n: nat) -> Seq<char> {
    Seq::new(n, |i: int| c)
}

/// `s` padded with spaces to `w` characters (as `{:<w}` pads).
pub open spec fn padded(s: Seq<char>, w: int) -> Seq<char> {
    if s.len() < w {
        s + repeated(' ', (w - s.len()) as nat)
    } else {
        s
    }
}

/// The listing line of one plugin: a regular plugin in green with its type
/// in cyan, an example in yellow with its type and path in grey.
pub open spec fn listing_line(p: ListedPlugin, w: int, example: bool) -> Seq<char> {
    if example {
        "\x1b[33m"@ + padded(p.name@, w) + "\x1b[0m  \x1b[90m"@ + padded("example"@, 7) + "\x1b[0m  \x1b[90m"@
            + p.path@ + "\x1b[0m"@
    } else {
        "\x1b[32m"@ + padded(p.name@, w) + "\x1b[0m  \x1b[36m"@ + padded("plugin"@, 7) + "\x1b[0m  "@ + p.path@
    }
}

/// The lines of the plugins of one kind (examples or not), in order.
pub open spec fn kind_lines(ps: Seq<ListedPlugin>, w: int, example: bool) -> Seq<Seq<char>>
    decreases ps.len(),
{
    if ps.len() == 0 {
        Seq::empty()
    } else {
        let before = kind_lines(ps.drop_last(), w, example);
        if is_example_plugin(ps.last().name@) == example {
            before.push(listing_line(ps.last(), w, example))
        } else {
            before
        }
    }
}

/// `""` for one, `"s"` otherwise.
pub open spec fn plural(n: nat) -> Seq<char> {
    if n == 1 {
        Seq::empty()
    } else {
        "s"@
    }
}

/// The listing of discovered plugins: a header, a rule, the regular plugins,
/// the examples, and a blank line with the totals; or a single line when
/// there is nothing to list.
pub open spec fn listing(ps: Seq<ListedPlugin>) -> Seq<Seq<char>> {
    if ps.len() == 0 {
        seq!["No plugins found"@]
    } else {
        let w = name_width(ps) as int;
        let header = padded("\x1b[1mNAME\x1b[0m"@, w) + "  "@ + padded("\x1b[1mTYPE\x1b[0m"@, 7) + "  "@
            + "\x1b[1mPATH\x1b[0m"@;
        let rule = repeated('-', w as nat) + "  "@ + repeated('-', 7) + "  "@ + repeated('-', 20);
        let plugins = kind_lines(ps, w, false);
        let examples = kind_lines(ps, w, true);
        let total = "\n\x1b[1mTotal:\x1b[0m "@ + crate::text::decimal(plugins.len()) + " plugin"@ + plural(
            plugins.len(),
        ) + ", "@ + crate::text::decimal(examples.len()) + " example"@ + plural(examples.len());
        seq![header, rule] + plugins + examples + seq![total]
    }
}

/// Appends `n` copies of `c`.
fn push_repeated(out: &mut String, c: char, n: usize)
    ensures
        final(out)@ == old(out)@ + repeated(c, n as nat),
{
    let mut i: usize = 0;
    while i < n
        invariant
            i <= n,
            out@ == old(out)@ + repeated(c, i as nat),
        decreases n - i,
    {
        out.push(c);
        assert(out@ =~= old(out)@ + repeated(c, i as nat + 1));
        i = i + 1;
    }
}

/// Appends `s` padded with spaces to `w` characters.
fn push_padded(out: &mut String, s: &str, w: usize)
    ensures
        final(out)@ == old(out)@ + padded(s@, w as int),
{
    let n = chars_of(s).len();
    push_str(out, s);
    if n < w {
        push_repeated(out, ' ', w - n);
    }
    assert(final(out)@ =~= old(out)@ + padded(s@, w as int));
}

fn listing_line_exec(p: &ListedPlugin, w: usize, example: bool) -> (s: String)
    ensures
        s@ == listing_line(*p, w as int, example),
{
    let mut s = String::new();
    if example {
        push_str(&mut s, "\x1b[33m");
        push_padded(&mut s, p.name.as_str(), w);
        push_str(&mut s, "\x1b[0m  \x1b[90m");
        push_padded(&mut s, "example", 7);
        push_str(&mut s, "\x1b[0m  \x1b[90m");
        push_str(&mut s, p.path.as_str());
        push_str(&mut s, "\x1b[0m");
    } else {
        push_str(&mut s, "\x1b[32m");
        push_padded(&mut s, p.name.as_str(), w);
        push_str(&mut s, "\x1b[0m  \x1b[36m");
        push_padded(&mut s, "plugin", 7);
        push_str(&mut s, "\x1b[0m  ");
        push_str(&mut s, p.path.as_str());
    }
    assert(s@ =~= listing_line(*p, w as int, example));
    s
}

/// Appends the lines of the plugins of one kind.
fn push_kind_lines(lines: &mut Vec<String>, ps: &Vec<ListedPlugin>, w: usize, example: bool)
    ensures
        string_views(final(lines)@) == string_views(old(lines)@) + kind_lines(ps@, w as int, example),
{
    let mut i: usize = 0;
    assert(ps@.take(0) =~= Seq::<ListedPlugin>::empty());
    assert(string_views(lines@) =~= string_views(old(lines)@) + kind_lines(ps@.take(0), w as int, example));
    while i < ps.len()
        invariant
            i <= ps@.len(),
            string_views(lines@) == string_views(old(lines)@) + kind_lines(ps@.take(i as int), w as int, example),
        decreases ps.len() - i,
    {
        let ghost l0 = lines@;
        assert(ps@.take(i as int + 1).drop_last() =~= ps@.take(i as int));
        assert(ps@.take(i as int + 1).last() == ps@[i as int]);
        if is_example(ps[i].name.as_str()) == example {
            let l = listing_line_exec(&ps[i], w, example);
            lines.push(l);
            assert(string_views(lines@) =~= string_views(l0).push(listing_line(ps@[i as int], w as int, example)));
        }
        assert(string_views(lines@) =~= string_views(old(lines)@) + kind_lines(ps@.take(i as int + 1), w as int, example));
        i = i + 1;
    }
    assert(ps@.take(i as int) =~= ps@);
}

/// The number of plugins of one kind.
fn count_kind(ps: &Vec<ListedPlugin>, example: bool) -> (n: usize)
    ensures
        n == kind_lines(ps@, 0, example).len(),
{
    let mut n: usize = 0;
    let mut i: usize = 0;
    assert(ps@.take(0) =~= Seq::<ListedPlugin>::empty());
    while i < ps.len()
        invariant
            i <= ps@.len(),
            n == kind_lines(ps@.take(i as int), 0, example).len(),
            n <= i,
        decreases ps.len() - i,
    {
        assert(ps@.take(i as int + 1).drop_last() =~= ps@.take(i as int));
        assert(ps@.take(i as int + 1).last() == ps@[i as int]);
        if is_example(ps[i].name.as_str()) == example {
            n = n + 1;
        }
        i = i + 1;
    }
    assert(ps@.take(i as int) =~= ps@);
    n
}

/// The kinds of lines do not depend on the width.
proof fn lemma_kind_lines_len(ps: Seq<ListedPlugin>, w: int, v: int, example: bool)
    ensures
        kind_lines(ps, w, example).len() == kind_lines(ps, v, example).len(),
    decreases ps.len(),
{
    if ps.len() > 0 {
        lemma_kind_lines_len(ps.drop_last(), w, v, example);
    }
}

/// The widest name, in bytes.
fn name_width_exec(ps: &Vec<ListedPlugin>) -> (w: usize)
    ensures
        w == name_width(ps@),
{
    let mut w: usize = 0;
    let mut i: usize = 0;
    assert(ps@.take(0) =~= Seq::<ListedPlugin>::empty());
    while i < ps.len()
        invariant
            i <= ps@.len(),
            w == name_width(ps@.take(i as int)),
        decreases ps.len() - i,
    {
        assert(ps@.take(i as int + 1).drop_last() =~= ps@.take(i as int));
        assert(ps@.take(i as int + 1).last() == ps@[i as int]);
        let b = ps[i].name.as_str().len();
        if b > w {
            w = b;
        }
        i = i + 1;
    }
    assert(ps@.take(i as int) =~= ps@);
    w
}

/// The lines `list-plugins` prints for the discovered plugins (see [`listing`]).
pub fn plugin_listing(ps: &Vec<ListedPlugin>) -> (lines: Vec<String>)
    ensures
        string_views(lines@) == listing(ps@),
{
    let mut lines: Vec<String> = Vec::new();
    if ps.len() == 0 {
        lines.push(owned("No plugins found"));
        assert(string_views(lines@) =~= listing(ps@));
        return lines;
    }
    let w = name_width_exec(ps);
    let mut header = String::new();
    push_padded(&mut header, "\x1b[1mNAME\x1b[0m", w);
    push_str(&mut header, "  ");
    push_padded(&mut header, "\x1b[1mTYPE\x1b[0m", 7);
    push_str(&mut header, "  ");
    push_str(&mut header, "\x1b[1mPATH\x1b[0m");
    lines.push(header);
    let mut rule = String::new();
    push_repeated(&mut rule, '-', w);
    push_str(&mut rule, "  ");
    push_repeated(&mut rule, '-', 7);
    push_str(&mut rule, "  ");
    push_repeated(&mut rule, '-', 20);
    lines.push(rule);
    let ghost two = lines@;
    push_kind_lines(&mut lines, ps, w, false);
    push_kind_lines(&mut lines, ps, w, true);
    let np = count_kind(ps, false);
    let ne = count_kind(ps, true);
    proof {
        lemma_kind_lines_len(ps@, 0, w as int, false);
        lemma_kind_lines_len(ps@, 0, w as int, true);
    }
    let mut total = owned("\n\x1b[1mTotal:\x1b[0m ");
    crate::text::push_decimal(&mut total, np as u64);
    push_str(&mut total, " plugin");
    if np != 1 {
        push_str(&mut total, "s");
    }
    push_str(&mut total, ", ");
    crate::text::push_decimal(&mut total, ne as u64);
    push_str(&mut total, " example");
    if ne != 1 {
        push_str(&mut total, "s");
    }
    let ghost before_total = lines@;
    lines.push(total);
    assert(string_views(lines@) =~= string_views(before_total).push(total@));
    assert(string_views(two) =~= seq![header@, rule@]);
    assert(string_views(lines@) =~= listing(ps@));
    lines
}

/// A discovered plugin as name matching sees it: its directory name and,
/// for a plugin built from `snb.toml` sources, its package name.
#[derive(Debug, Clone)]
pub struct PluginName {
    pub name: String,
    pub package_name: Option<String>,
}

/// Whether a request designates a discovered plugin (see [`plugin_matches`]).
pub open spec fn designates(p: PluginName, req: Seq<char>) -> bool {
    plugin_name_match(p.name@, req) || (p.package_name matches Some(q) && plugin_name_match(q@, req))
}

/// The positions of the discovered plugins a request designates, in order.
pub open spec fn designated(ps: Seq<PluginName>, req: Seq<char>) -> Seq<int>
    decreases ps.len(),
{
    if ps.len() == 0 {
        Seq::empty()
    } else {
        let before = designated(ps.drop_last(), req);
        if designates(ps.last(), req) {
            before.push(ps.len() - 1)
        } else {
            before
        }
    }
}

/// The plugin a request names among the discovered ones: the only one it
/// designates; an error when it designates none or several.
pub open spec fn resolution(ps: Seq<PluginName>, req: Seq<char>) -> Result<int, Seq<char>> {
    let d = designated(ps, req);
    if d.len() == 1 {
        Ok(d[0])
    } else if d.len() == 0 {
        Err("plugin manifest not found for '"@ + req + "'"@)
    } else {
        Err("plugin name '"@ + req + "' is ambiguous"@)
    }
}

/// The resolution with its error as characters.
pub open spec fn resolution_chars(r: Result<usize, String>) -> Result<int, Seq<char>> {
    match r {
        Ok(i) => Ok(i as int),
        Err(e) => Err(e@),
    }
}

/// Picks the plugin a requested name designates among the discovered ones
/// (see [`resolution`]).
pub fn resolve_plugin_name(ps: &Vec<PluginName>, requested: &str) -> (r: Result<usize, String>)
    ensures
        resolution_chars(r) == resolution(ps@, requested@),
{
    let mut found: Vec<usize> = Vec::new();
    let mut i: usize = 0;
    assert(ps@.take(0) =~= Seq::<PluginName>::empty());
    while i < ps.len()
        invariant
            i <= ps@.len(),
            found@.len() == designated(ps@.take(i as int), requested@).len(),
            forall|j: int| 0 <= j < found@.len() ==> found@[j] as int == #[trigger] designated(ps@.take(i as int), requested@)[j],
        decreases ps.len() - i,
    {
        assert(ps@.take(i as int + 1).drop_last() =~= ps@.take(i as int));
        assert(ps@.take(i as int + 1).last() == ps@[i as int]);
        let package = match &ps[i].package_name {
            Some(p) => Some(p.as_str()),
            None => None,
        };
        if plugin_matches(ps[i].name.as_str(), package, requested) {
            found.push(i);
        }
        i = i + 1;
    }
    assert(ps@.take(i as int) =~= ps@);
    if found.len() == 1 {
        Ok(found[0])
    } else if found.len() == 0 {
        let mut m = owned("plugin manifest not found for '");
        push_str(&mut m, requested);
        push_str(&mut m, "'");
        Err(m)
    } else {
        let mut m = owned("plugin name '");
        push_str(&mut m, requested);
        push_str(&mut m, "' is ambiguous");
        Err(m)
    }
}

/// Every plugin is found by its own directory name.
pub proof fn lemma_name_matches_itself(name: Seq<char>)
    ensures
        plugin_name_match(name, name),
{
}

/// A plugin named with a conventional prefix (`snb_adapter_`,
/// `snb_database_`, `snb_plugin_` or `snb_`) is found by the rest of its name.
pub proof fn lemma_name_matches_short_name(prefix: Seq<char>, short: Seq<char>)
    requires
        prefix == "snb_adapter_"@ || prefix == "snb_database_"@ || prefix == "snb_plugin_"@ || prefix == "snb_"@,
    ensures
        plugin_name_match(prefix + short, short),
{
    let d = prefix + short;
    assert(d.take(prefix.len() as int) =~= prefix);
    assert(d.skip(prefix.len() as int) =~= short);
}

/// Writing `-` for `_` (or the other way round) does not matter.
pub proof fn lemma_name_matches_across_hyphens(dir: Seq<char>, req: Seq<char>)
    requires
        normalized(dir) == normalized(req),
    ensures
        plugin_name_match(dir, req),
{
}

/// A plugin whose name carries a `-rs` or `_rs` suffix is found without it.
pub proof fn lemma_name_matches_without_suffix(base: Seq<char>, suffix: Seq<char>)
    requires
        suffix == "-rs"@ || suffix == "_rs"@,
    ensures
        plugin_name_match(base + suffix, base),
{
    let d = base + suffix;
    assert(d.skip(d.len() - suffix.len()) =~= suffix);
    assert(d.take(d.len() - suffix.len()) =~= base);
}

} // verus!
