//! Release binaries of an agent: which asset fits the platform, and whether a
//! download matches the digest that the release publishes.
use vstd::prelude::*;

use sha2::{Digest, Sha256};

use crate::text::str_eq;

verus! {

/// The processor architectures for which agents publish binaries.
#[derive(Clone, Copy, Debug, PartialEq, Eq, Structural)]
pub enum Arch {
    X86_64,
    Aarch64,
}

/// The operating systems for which agents publish binaries.
#[derive(Clone, Copy, Debug, PartialEq, Eq, Structural)]
pub enum Os {
    MacOs,
    Windows,
    Linux,
}

/// Why a release binary could not be had.
#[derive(Clone, Debug)]
pub enum ReleaseError {
    UnsupportedArch,
    UnsupportedOs,
    AssetNotFound(String),
    DigestMismatch { expected: String, actual: String },
}

impl ReleaseError {
    pub open spec fn message_view(self) -> Seq<char> {
        match self {
            ReleaseError::UnsupportedArch => "unsupported architecture"@,
            ReleaseError::UnsupportedOs => "unsupported OS"@,
            ReleaseError::AssetNotFound(a) => "asset "@ + a@ + " not found"@,
            ReleaseError::DigestMismatch { expected, actual } => "SHA256 mismatch: expected "@
                + expected@ + ", got "@ + actual@,
        }
    }

    pub fn message(&self) -> (r: String)
        ensures
            r@ == self.message_view(),
    {
        match self {
            ReleaseError::UnsupportedArch => String::from_str("unsupported architecture"),
            ReleaseError::UnsupportedOs => String::from_str("unsupported OS"),
            ReleaseError::AssetNotFound(a) => {
                let mut s = String::from_str("asset ");
                s.append(a.as_str());
                s.append(" not found");
                s
            },
            ReleaseError::DigestMismatch { expected, actual } => {
                let mut s = String::from_str("SHA256 mismatch: expected ");
                s.append(expected.as_str());
                s.append(", got ");
                s.append(actual.as_str());
                s
            },
        }
    }
}

pub open spec fn arch_name(a: Arch) -> Seq<char> {
    match a {
        Arch::X86_64 => "x86_64"@,
        Arch::Aarch64 => "aarch64"@,
    }
}

pub open spec fn platform_name(o: Os) -> Seq<char> {
    match o {
        Os::MacOs => "apple-darwin"@,
        Os::Windows => "pc-windows-msvc"@,
        Os::Linux => "unknown-linux-gnu"@,
    }
}

pub open spec fn archive_ext(o: Os) -> Seq<char> {
    match o {
        Os::Windows => "zip"@,
        _ => "tar.gz"@,
    }
}

/// A release tag without its leading `v`s.
pub open spec fn strip_v(s: Seq<char>) -> Seq<char>
    decreases s.len(),
{
    if s.len() > 0 && s[0] == 'v' {
        strip_v(s.drop_first())
    } else {
        s
    }
}

/// The asset's file name: `{name}-{version}-{arch}-{platform}.{ext}`.
pub open spec fn asset_name(binary_name: Seq<char>, tag_name: Seq<char>, a: Arch, o: Os) -> Seq<
    char,
> {
    binary_name + "-"@ + strip_v(tag_name) + "-"@ + arch_name(a) + "-"@ + platform_name(o) + "."@
        + archive_ext(o)
}

/// The executable's file name, with `.exe` on Windows.
pub open spec fn executable_name(binary_name: Seq<char>, o: Os) -> Seq<char> {
    match o {
        Os::Windows => binary_name + ".exe"@,
        _ => binary_name,
    }
}

fn strip_leading_v(tag: &str) -> (r: String)
    ensures
        r@ == strip_v(tag@),
{
    let n = tag.unicode_len();
    let mut i: usize = 0;
    assert(tag@.skip(0) =~= tag@);
    while i < n && tag.get_char(i) == 'v'
        invariant
            n == tag@.len(),
            i <= n,
            strip_v(tag@) == strip_v(tag@.skip(i as int)),
        decreases n - i,
    {
        assert(tag@.skip(i as int).drop_first() =~= tag@.skip(i + 1));
        i = i + 1;
    }
    proof {
        assert(tag@.skip(i as int) == tag@.subrange(i as int, n as int));
    }
    String::from_str(tag.substring_char(i, n))
}

fn arch_str(a: Arch) -> (r: &'static str)
    ensures
        r@ == arch_name(a),
{
    match a {
        Arch::X86_64 => "x86_64",
        Arch::Aarch64 => "aarch64",
    }
}

fn platform_str(o: Os) -> (r: &'static str)
    ensures
        r@ == platform_name(o),
{
    match o {
        Os::MacOs => "apple-darwin",
        Os::Windows => "pc-windows-msvc",
        Os::Linux => "unknown-linux-gnu",
    }
}

/// The names of the release asset and of the executable inside it, for a
/// platform; an architecture or system without published binaries (`None`)
/// is refused, the architecture first.
pub fn platform_asset_names(binary_name: &str, tag_name: &str, arch: Option<Arch>, os: Option<Os>) -> (r:
    Result<(String, String), ReleaseError>)
    ensures
        arch is None ==> r matches Err(ReleaseError::UnsupportedArch),
        arch is Some && os is None ==> r matches Err(ReleaseError::UnsupportedOs),
        arch is Some && os is Some ==> (r matches Ok((asset, bin)) && asset@ == asset_name(
            binary_name@,
            tag_name@,
            arch->0,
            os->0,
        ) && bin@ == executable_name(binary_name@, os->0)),
{
    let a = match arch {
        Some(a) => a,
        None => return Err(ReleaseError::UnsupportedArch),
    };
    let o = match os {
        Some(o) => o,
        None => return Err(ReleaseError::UnsupportedOs),
    };
    let version = strip_leading_v(tag_name);
    let mut asset = String::from_str(binary_name);
    asset.append("-");
    asset.append(version.as_str());
    asset.append("-");
    asset.append(arch_str(a));
    asset.append("-");
    asset.append(platform_str(o));
    asset.append(".");
    let ext = match o {
        Os::Windows => "zip",
        _ => "tar.gz",
    };
    asset.append(ext);
    let mut bin = String::from_str(binary_name);
    if o == Os::Windows {
        bin.append(".exe");
    }
    Ok((asset, bin))
}

/// The index of the first asset with the given name.
pub fn find_asset(asset_names: &Vec<String>, name: &str) -> (r: Result<usize, ReleaseError>)
    ensures
        match r {
            Ok(i) => i < asset_names.len() && asset_names@[i as int]@ == name@ && forall|j: int|
                0 <= j < i ==> asset_names@[j]@ != name@,
            Err(e) => (e matches ReleaseError::AssetNotFound(a) && a@ == name@) && forall|j: int|
                0 <= j < asset_names.len() ==> asset_names@[j]@ != name@,
        },
{
    let mut i: usize = 0;
    while i < asset_names.len()
        invariant
            i <= asset_names.len(),
            forall|j: int| 0 <= j < i ==> asset_names@[j]@ != name@,
        decreases asset_names.len() - i,
    {
        if str_eq(asset_names[i].as_str(), name) {
            return Ok(i);
        }
        i = i + 1;
    }
    Err(ReleaseError::AssetNotFound(String::from_str(name)))
}

/// The text without its leading and trailing white space.
pub uninterp spec fn trimmed(s: Seq<char>) -> Seq<char>;

/// Relies on std's `str::trim`: white space removed at both ends, which
/// depends on the text alone.
#[verifier::external_body]
fn trim(s: &str) -> (r: &str)
    ensures
        r@ == trimmed(s@),
{
    s.trim()
}

/// ASCII upper-case letters made lower-case, every other character kept.
pub open spec fn ascii_lower(s: Seq<char>) -> Seq<char> {
    s.map_values(|c: char| if 'A' <= c && c <= 'Z' { ((c as u8) + 32u8) as char } else { c })
}

/// Relies on std's `str::to_ascii_lowercase`: ASCII letters 'A' to 'Z' become
/// 'a' to 'z', other characters are unchanged.
#[verifier::external_body]
fn to_ascii_lowercase(s: &str) -> (r: String)
    ensures
        r@ == ascii_lower(s@),
{
    s.to_ascii_lowercase()
}

/// The lower-case hexadecimal SHA-256 digest of the bytes.
pub uninterp spec fn sha256_hex_of(b: Seq<u8>) -> Seq<char>;

/// Relies on sha2's `Sha256::digest`, written in lower-case hexadecimal: the
/// digest of the bytes.
#[verifier::external_body]
fn sha256_hex(bytes: &[u8]) -> (r: String)
    ensures
        r@ == sha256_hex_of(bytes@),
{
    format!("{:x}", Sha256::digest(bytes))
}

/// The text with every leading copy of the prefix removed.
pub open spec fn strip_prefix_all(s: Seq<char>, p: Seq<char>) -> Seq<char>
    decreases s.len(),
{
    if p.len() > 0 && s.len() >= p.len() && s.take(p.len() as int) == p {
        strip_prefix_all(s.skip(p.len() as int), p)
    } else {
        s
    }
}

fn strip_prefixes(s: &str, p: &str) -> (r: String)
    ensures
        r@ == strip_prefix_all(s@, p@),
{
    let n = s.unicode_len();
    let k = p.unicode_len();
    if k == 0 {
        return String::from_str(s);
    }
    let mut i: usize = 0;
    assert(s@.skip(0) =~= s@);
    while k <= n - i && str_eq(s.substring_char(i, i + k), p)
        invariant
            n == s@.len(),
            k == p@.len(),
            k > 0,
            i <= n,
            strip_prefix_all(s@, p@) == strip_prefix_all(s@.skip(i as int), p@),
        decreases n - i,
    {
        assert(s@.subrange(i as int, i + k) =~= s@.skip(i as int).take(k as int));
        assert(s@.skip(i as int).skip(k as int) =~= s@.skip(i + k));
        i = i + k;
    }
    proof {
        if k <= n - i {
            assert(s@.subrange(i as int, i + k) =~= s@.skip(i as int).take(k as int));
        }
        assert(s@.skip(i as int) == s@.subrange(i as int, n as int));
    }
    String::from_str(s.substring_char(i, n))
}

/// A published digest as compared: white space trimmed, every leading
/// `sha256:` removed, lower-cased.
pub open spec fn normalized_digest(published: Seq<char>) -> Seq<char> {
    ascii_lower(strip_prefix_all(trimmed(published), "sha256:"@))
}

/// Checks downloaded bytes against the digest that the release publishes;
/// without one there is nothing to check.
pub fn verify_digest(published: Option<&str>, bytes: &[u8]) -> (r: Result<(), ReleaseError>)
    ensures
        match published {
            None => r is Ok,
            Some(d) => if sha256_hex_of(bytes@) == normalized_digest(d@) {
                r is Ok
            } else {
                r matches Err(ReleaseError::DigestMismatch { expected, actual }) && expected@
                    == normalized_digest(d@) && actual@ == sha256_hex_of(bytes@)
            },
        },
{
    match published {
        None => Ok(()),
        Some(d) => {
            let stripped = strip_prefixes(trim(d), "sha256:");
            let expected = to_ascii_lowercase(stripped.as_str());
            let actual = sha256_hex(bytes);
            if actual == expected {
                Ok(())
            } else {
                Err(ReleaseError::DigestMismatch { expected, actual })
            }
        },
    }
}

} // verus!
