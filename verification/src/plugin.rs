//! Plugin identity: kinds, versions, the host ABI version and the rules that
//! decide whether a plugin library may be loaded.
use vstd::prelude::*;

use crate::error::PluginError;
use crate::text::{
    decimal, lemma_decimal_digits, lemma_parse_decimal, lemma_split_append, lemma_split_no_sep,
    is_digit, parse_unsigned_chars, parse_unsigned_spec, push_chars, push_decimal, push_str,
    split_chars, split_on, views, IntErrorKind, starts_with, ends_with, starts_with_str, ends_with_str, str_eq,
};

verus! {

/// Classification of a plugin's role in the framework.
#[derive(Clone, Debug, PartialEq, Eq)]
pub enum PluginType {
    /// An input adapter that receives external events (e.g. stdin).
    Adapter,
    /// A general-purpose plugin (commands, hooks, message handlers).
    Plugin,
    /// A database driver plugin.
    DatabaseDriver,
}

/// A `major.minor.patch` version.
#[derive(Debug, PartialEq, Eq, Clone, Copy, Structural)]
pub struct Version {
    pub major: u32,
    pub minor: u32,
    pub patch: u32,
}

/// `major.minor.patch` in decimal, as `Display` writes a version.
pub open spec fn version_text(v: Version) -> Seq<char> {
    decimal(v.major as nat) + seq!['.'] + decimal(v.minor as nat) + seq!['.'] + decimal(v.patch as nat)
}

/// The message for a version component that does not parse.
pub open spec fn bad_component(which: Seq<char>, e: IntErrorKind) -> Seq<char> {
    "bad "@ + which + ": "@ + e.spec_message()
}

/// What parsing `s` as a version gives: three `.`-separated components, each
/// parsed as a `u32` (see [`parse_unsigned_spec`]).
pub open spec fn parse_version_spec(s: Seq<char>) -> Result<Version, Seq<char>> {
    let parts = split_on(s, '.');
    if parts.len() != 3 {
        Err("expected major.minor.patch, got `"@ + s + "`"@)
    } else {
        match parse_unsigned_spec(parts[0], u32::MAX as int) {
            Err(e) => Err(bad_component("major"@, e)),
            Ok(a) => match parse_unsigned_spec(parts[1], u32::MAX as int) {
                Err(e) => Err(bad_component("minor"@, e)),
                Ok(b) => match parse_unsigned_spec(parts[2], u32::MAX as int) {
                    Err(e) => Err(bad_component("patch"@, e)),
                    Ok(c) => Ok(Version { major: a as u32, minor: b as u32, patch: c as u32 }),
                },
            },
        }
    }
}

/// Parses one version component, naming it in the error.
fn parse_component(cs: &Vec<char>, which: &str) -> (r: Result<u32, String>)
    ensures
        match parse_unsigned_spec(cs@, u32::MAX as int) {
            Ok(v) => r == Ok::<u32, String>(v as u32),
            Err(e) => r matches Err(m) && m@ == bad_component(which@, e),
        },
{
    match parse_unsigned_chars(cs, u32::MAX as u64) {
        Ok(v) => Ok(v as u32),
        Err(e) => {
            let mut m = String::new();
            push_str(&mut m, "bad ");
            push_str(&mut m, which);
            push_str(&mut m, ": ");
            push_str(&mut m, e.message());
            Err(m)
        },
    }
}

impl Version {
    /// Parses `major.minor.patch` (what `FromStr` does).
    pub fn parse(s: &str) -> (r: Result<Version, String>)
        ensures
            match parse_version_spec(s@) {
                Ok(v) => r == Ok::<Version, String>(v),
                Err(m) => r matches Err(e) && e@ == m,
            },
    {
        let parts = split_chars(s, '.');
        assert(views(parts@).len() == parts@.len());
        if parts.len() != 3 {
            let mut m = String::new();
            push_str(&mut m, "expected major.minor.patch, got `");
            push_str(&mut m, s);
            push_str(&mut m, "`");
            return Err(m);
        }
        assert(views(parts@)[0] == parts@[0]@);
        assert(views(parts@)[1] == parts@[1]@);
        assert(views(parts@)[2] == parts@[2]@);
        let major = match parse_component(&parts[0], "major") {
            Ok(v) => v,
            Err(m) => return Err(m),
        };
        let minor = match parse_component(&parts[1], "minor") {
            Ok(v) => v,
            Err(m) => return Err(m),
        };
        let patch = match parse_component(&parts[2], "patch") {
            Ok(v) => v,
            Err(m) => return Err(m),
        };
        Ok(Version { major, minor, patch })
    }

    /// `major.minor.patch` in decimal (what `Display` writes).
    pub fn to_string(&self) -> (s: String)
        ensures
            s@ == version_text(*self),
    {
        let mut s = String::new();
        push_decimal(&mut s, self.major as u64);
        s.push('.');
        push_decimal(&mut s, self.minor as u64);
        s.push('.');
        push_decimal(&mut s, self.patch as u64);
        assert(s@ =~= version_text(*self));
        s
    }
}

/// Parsing the text of a version gives the version back.
pub proof fn lemma_version_round_trip(v: Version)
    ensures
        parse_version_spec(version_text(v)) == Ok::<Version, Seq<char>>(v),
{
    let a = decimal(v.major as nat);
    let b = decimal(v.minor as nat);
    let c = decimal(v.patch as nat);
    lemma_decimal_digits(v.major as nat);
    lemma_decimal_digits(v.minor as nat);
    lemma_decimal_digits(v.patch as nat);
    assert(!a.contains('.')) by {
        if a.contains('.') {
            let k = choose|k: int| 0 <= k < a.len() && a[k] == '.';
            assert(is_digit(a[k]));
        }
    }
    assert(!b.contains('.')) by {
        if b.contains('.') {
            let k = choose|k: int| 0 <= k < b.len() && b[k] == '.';
            assert(is_digit(b[k]));
        }
    }
    assert(!c.contains('.')) by {
        if c.contains('.') {
            let k = choose|k: int| 0 <= k < c.len() && c[k] == '.';
            assert(is_digit(c[k]));
        }
    }
    lemma_split_no_sep(a, '.');
    lemma_split_append(a, b, '.');
    lemma_split_append(a + seq!['.'] + b, c, '.');
    assert(split_on(version_text(v), '.') =~= seq![a, b, c]);
    lemma_parse_decimal(v.major as nat, u32::MAX as int);
    lemma_parse_decimal(v.minor as nat, u32::MAX as int);
    lemma_parse_decimal(v.patch as nat, u32::MAX as int);
}

/// The ABI version this host was built with.
pub const SNB_ABI_VERSION: &'static str = "0.1.0";

/// The host ABI version as a value (the parsed [`SNB_ABI_VERSION`]).
pub open spec fn host_abi() -> Version {
    Version { major: 0, minor: 1, patch: 0 }
}

/// The plugin ABI version of this build. Bump on any plugin-facing ABI
/// break; in `0.x` the minor is the breaking position, from `1.x` on the major.
pub fn snb_plugin_abi() -> (v: Version)
    ensures
        v == host_abi(),
{
    Version { major: 0, minor: 1, patch: 0 }
}

/// Why a plugin's ABI version is refused.
#[derive(Debug, Clone, Copy, PartialEq, Eq)]
pub enum AbiRejection {
    /// The major versions differ.
    MajorMismatch,
    /// The plugin needs a newer minor than the host offers.
    MinorTooNew,
    /// Before `1.0` the minor is the breaking position and must match.
    PreStableMinorMismatch,
}

/// The warnings an accepted plugin ABI version carries.
#[derive(Debug, Clone, Copy, PartialEq, Eq)]
pub struct AbiWarnings {
    /// Built against an older (additive-compatible) minor.
    pub older_minor: bool,
    /// Built against a different patch.
    pub patch_differs: bool,
}

/// The host's verdict on a plugin ABI version: a `major` mismatch, a `minor`
/// newer than the host's and, while `major == 0`, any `minor` mismatch are
/// refused; an older minor (from `1.x` on) and a patch difference only warn.
pub open spec fn abi_verdict(plugin: Version, host: Version) -> Result<AbiWarnings, AbiRejection> {
    if plugin.major != host.major {
        Err(AbiRejection::MajorMismatch)
    } else if plugin.minor > host.minor {
        Err(AbiRejection::MinorTooNew)
    } else if host.major == 0 && plugin.minor != host.minor {
        Err(AbiRejection::PreStableMinorMismatch)
    } else {
        Ok(AbiWarnings { older_minor: plugin.minor < host.minor, patch_differs: plugin.patch != host.patch })
    }
}

/// Decides whether a plugin built against ABI `plugin` may load into a host
/// with ABI `host` (see [`abi_verdict`]).
pub fn check_abi(plugin: Version, host: Version) -> (r: Result<AbiWarnings, AbiRejection>)
    ensures
        r == abi_verdict(plugin, host),
{
    if plugin.major != host.major {
        Err(AbiRejection::MajorMismatch)
    } else if plugin.minor > host.minor {
        Err(AbiRejection::MinorTooNew)
    } else if host.major == 0 && plugin.minor != host.minor {
        Err(AbiRejection::PreStableMinorMismatch)
    } else {
        Ok(AbiWarnings { older_minor: plugin.minor < host.minor, patch_differs: plugin.patch != host.patch })
    }
}

/// A plugin is always compatible with the ABI it was built against, and
/// with no other ABI of a different major.
pub proof fn lemma_abi_reflexive(v: Version, w: Version)
    ensures
        abi_verdict(v, v) == Ok::<AbiWarnings, AbiRejection>(
            AbiWarnings { older_minor: false, patch_differs: false },
        ),
        v.major != w.major ==> abi_verdict(v, w) is Err,
{
}

/// What the loader decides from the text a plugin library exports as its
/// ABI version: unparsable text or a refused version is `UnsupportedAbi`.
pub open spec fn exported_abi_admission(text: Seq<char>, host: Version) -> Result<(Version, AbiWarnings), PluginError> {
    match parse_version_spec(text) {
        Err(_) => Err(PluginError::UnsupportedAbi),
        Ok(v) => match abi_verdict(v, host) {
            Err(_) => Err(PluginError::UnsupportedAbi),
            Ok(w) => Ok((v, w)),
        },
    }
}

/// Checks the ABI version text a plugin library exports against the host ABI.
pub fn admit_exported_abi(text: &str, host: Version) -> (r: Result<(Version, AbiWarnings), PluginError>)
    ensures
        r == exported_abi_admission(text@, host),
{
    match Version::parse(text) {
        Err(_) => Err(PluginError::UnsupportedAbi),
        Ok(v) => match check_abi(v, host) {
            Err(_) => Err(PluginError::UnsupportedAbi),
            Ok(w) => Ok((v, w)),
        },
    }
}

/// What the loader decides once the plugin object exists: the ABI the plugin
/// declares must share its major with the exported one, and no plugin of the
/// same name may be loaded already.
pub open spec fn plugin_admission(declared: Version, exported: Version, name_taken: bool) -> Result<(), PluginError> {
    if declared.major != exported.major {
        Err(PluginError::BrokenAbi)
    } else if name_taken {
        Err(PluginError::DuplicatePlugin)
    } else {
        Ok(())
    }
}

/// Checks a created plugin's declared ABI and name (see [`plugin_admission`]).
pub fn admit_plugin(declared: Version, exported: Version, name_taken: bool) -> (r: Result<(), PluginError>)
    ensures
        r == plugin_admission(declared, exported, name_taken),
{
    if declared.major != exported.major {
        Err(PluginError::BrokenAbi)
    } else if name_taken {
        Err(PluginError::DuplicatePlugin)
    } else {
        Ok(())
    }
}

/// A snapshot of a plugin's identity, cached when the plugin is registered.
#[derive(Debug, Clone)]
pub struct PluginInfo {
    pub name: String,
    pub version: Version,
    pub plugin_type: PluginType,
    pub abi_version: Version,
}


/// Whether a file name looks like a plugin's shared library: it starts with
/// `libsnb_` or `snb_` and ends with `.so`, `.dylib` or `.dll`.
pub open spec fn plugin_library_name(name: Seq<char>) -> bool {
    (starts_with(name, "libsnb_"@) || starts_with(name, "snb_"@)) && (ends_with(name, ".so"@) || ends_with(
        name,
        ".dylib"@,
    ) || ends_with(name, ".dll"@))
}

/// Whether a file name looks like a plugin's shared library (see
/// [`plugin_library_name`]).
pub fn is_plugin_library(name: &str) -> (r: bool)
    ensures
        r == plugin_library_name(name@),
{
    (starts_with_str(name, "libsnb_") || starts_with_str(name, "snb_")) && (ends_with_str(name, ".so")
        || ends_with_str(name, ".dylib") || ends_with_str(name, ".dll"))
}

/// Which of the candidate library files to load, in the order they were
/// found: a file is loaded unless a file of the same name came before it
/// (a copy found earlier shadows later ones).
pub fn first_occurrences(names: &Vec<String>) -> (load: Vec<bool>)
    ensures
        load@.len() == names@.len(),
        forall|i: int| 0 <= i < names@.len() ==> #[trigger] load@[i] == !(exists|j: int| 0 <= j < i && names@[j]@
            == names@[i]@),
{
    let mut load: Vec<bool> = Vec::new();
    let mut i: usize = 0;
    while i < names.len()
        invariant
            i <= names@.len(),
            load@.len() == i,
            forall|k: int| 0 <= k < i ==> #[trigger] load@[k] == !(exists|j: int| 0 <= j < k && names@[j]@
                == names@[k]@),
        decreases names.len() - i,
    {
        let mut seen = false;
        let mut j: usize = 0;
        while j < i
            invariant
                j <= i < names@.len(),
                seen == exists|m: int| 0 <= m < j && names@[m]@ == names@[i as int]@,
            decreases i - j,
        {
            if str_eq(names[j].as_str(), names[i].as_str()) {
                seen = true;
            }
            j = j + 1;
        }
        load.push(!seen);
        i = i + 1;
    }
    load
}
} // verus!
