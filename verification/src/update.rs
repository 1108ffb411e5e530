//! Self-update: reading release metadata, choosing the release asset for
//! this platform, and deciding whether an update is needed.

use crate::strs::{
    find_char_from, find_char_in, find_from, find_seq_from, from_chars, is_first_match, lead_ws,
    lemma_lead_ws, skip_ws, slice_of, to_chars, trim_start,
};
use vstd::prelude::*;

verus! {

/// The string value of `"key": "..."` in a JSON text: after the first
/// `"key"`, optional whitespace, a colon, optional whitespace and a quote,
/// the text up to the next quote (escapes are not interpreted).
pub open spec fn spec_extract_json_string(json: Seq<char>, key: Seq<char>) -> Option<Seq<char>> {
    let p = seq!['"'] + key + seq!['"'];
    match find_from(json, p, 0) {
        Some(i) => {
            let a = trim_start(json.skip(i + p.len()));
            if a.len() > 0 && a[0] == ':' {
                let b = trim_start(a.skip(1));
                if b.len() > 0 && b[0] == '"' {
                    match find_char_from(b, '"', 1) {
                        Some(e) => Some(b.subrange(1, e)),
                        None => None,
                    }
                } else {
                    None
                }
            } else {
                None
            }
        },
        None => None,
    }
}

/// Extract the string value of a key from a JSON text by scanning.
pub fn extract_json_string(json: &str, key: &str) -> (r: Option<String>)
    ensures
        match r {
            Some(v) => spec_extract_json_string(json@, key@) == Some(v@),
            None => spec_extract_json_string(json@, key@) is None,
        },
{
    let cs = to_chars(json);
    let n = cs.len();
    let mut p: Vec<char> = Vec::new();
    p.push('"');
    crate::strs::extend_str(&mut p, key);
    p.push('"');
    assert(p@ =~= seq!['"'] + key@ + seq!['"']);
    let i = match find_seq_from(&cs, &p, 0) {
        Some(i) => i,
        None => return None,
    };
    assert(is_first_match(cs@, p@, 0, i as int));
    assert(i + p@.len() <= cs@.len());
    let start = i + p.len();
    let a = skip_ws(&cs, start, n);
    let ghost ta = trim_start(cs@.skip(start as int));
    assert(cs@.skip(start as int) =~= cs@.subrange(start as int, n as int));
    assert(ta =~= cs@.skip(a as int));
    if a >= n || cs[a] != ':' {
        return None;
    }
    let b = skip_ws(&cs, a + 1, n);
    let ghost tb = trim_start(ta.skip(1));
    assert(ta.skip(1) =~= cs@.subrange(a + 1, n as int));
    assert(tb =~= cs@.skip(b as int));
    if b >= n || cs[b] != '"' {
        return None;
    }
    match find_char_in(&cs, '"', b + 1) {
        Some(e) => {
            proof {
                let t = cs@.skip(b as int);
                crate::strs::lemma_find_char_shift(cs@, '"', b as int, b + 1);
            }
            let v = slice_of(&cs, b + 1, e);
            Some(from_chars(&v))
        },
        None => {
            proof {
                crate::strs::lemma_find_char_shift(cs@, '"', b as int, b + 1);
            }
            None
        },
    }
}

/// Where release assets are downloaded from.
pub const DOWNLOAD_BASE: &'static str = "https://github.com/Harsh-2002/mdx/releases/download";

/// The release asset name for an operating system and architecture (as
/// `std::env::consts` names them); `musl` picks the static Linux builds.
pub open spec fn spec_release_target(os: Seq<char>, arch: Seq<char>, musl: bool) -> Option<Seq<char>> {
    if os == "macos"@ && arch == "aarch64"@ {
        Some("aarch64-apple-darwin"@)
    } else if os == "macos"@ && arch == "x86_64"@ {
        Some("x86_64-apple-darwin"@)
    } else if os == "linux"@ && arch == "aarch64"@ {
        Some(if musl { "aarch64-unknown-linux-musl"@ } else { "aarch64-unknown-linux-gnu"@ })
    } else if os == "linux"@ && arch == "x86_64"@ {
        Some(if musl { "x86_64-unknown-linux-musl"@ } else { "x86_64-unknown-linux-gnu"@ })
    } else if os == "linux"@ && arch == "arm"@ {
        Some("armv7-unknown-linux-gnueabihf"@)
    } else if os == "windows"@ && arch == "x86_64"@ {
        Some("x86_64-pc-windows-msvc"@)
    } else if os == "windows"@ && arch == "aarch64"@ {
        Some("aarch64-pc-windows-msvc"@)
    } else {
        None
    }
}

/// The release target for this platform, if binaries are published for it.
pub fn release_target(os: &str, arch: &str, musl: bool) -> (r: Option<&'static str>)
    ensures
        match r {
            Some(t) => spec_release_target(os@, arch@, musl) == Some(t@),
            None => spec_release_target(os@, arch@, musl) is None,
        },
{
    let o = to_chars(os);
    let a = to_chars(arch);
    if crate::strs::eq_lit(&o, "macos") && crate::strs::eq_lit(&a, "aarch64") {
        Some("aarch64-apple-darwin")
    } else if crate::strs::eq_lit(&o, "macos") && crate::strs::eq_lit(&a, "x86_64") {
        Some("x86_64-apple-darwin")
    } else if crate::strs::eq_lit(&o, "linux") && crate::strs::eq_lit(&a, "aarch64") {
        Some(if musl { "aarch64-unknown-linux-musl" } else { "aarch64-unknown-linux-gnu" })
    } else if crate::strs::eq_lit(&o, "linux") && crate::strs::eq_lit(&a, "x86_64") {
        Some(if musl { "x86_64-unknown-linux-musl" } else { "x86_64-unknown-linux-gnu" })
    } else if crate::strs::eq_lit(&o, "linux") && crate::strs::eq_lit(&a, "arm") {
        Some("armv7-unknown-linux-gnueabihf")
    } else if crate::strs::eq_lit(&o, "windows") && crate::strs::eq_lit(&a, "x86_64") {
        Some("x86_64-pc-windows-msvc")
    } else if crate::strs::eq_lit(&o, "windows") && crate::strs::eq_lit(&a, "aarch64") {
        Some("aarch64-pc-windows-msvc")
    } else {
        None
    }
}

/// The version a release tag names: the tag without a leading `v`.
pub open spec fn spec_tag_version(tag: Seq<char>) -> Seq<char> {
    if tag.len() > 0 && tag[0] == 'v' {
        tag.skip(1)
    } else {
        tag
    }
}

/// The version of a release tag.
pub fn tag_version(tag: &str) -> (r: String)
    ensures
        r@ == spec_tag_version(tag@),
{
    let t = to_chars(tag);
    if t.len() > 0 && t[0] == 'v' {
        from_chars(&slice_of(&t, 1, t.len()))
    } else {
        from_chars(&t)
    }
}

/// An update is needed when the latest release is not the running version.
pub fn needs_update(tag: &str, current: &str) -> (b: bool)
    ensures
        b == (spec_tag_version(tag@) != current@),
{
    let v = tag_version(tag);
    !crate::strs::seq_eq(&to_chars(v.as_str()), &to_chars(current))
}

/// `base/tag/mdx-target.tar.gz`.
pub open spec fn spec_asset_url(tag: Seq<char>, target: Seq<char>) -> Seq<char> {
    DOWNLOAD_BASE@ + seq!['/'] + tag + "/mdx-"@ + target + ".tar.gz"@
}

/// The download address of a release asset.
pub fn asset_url(tag: &str, target: &str) -> (r: String)
    ensures
        r@ == spec_asset_url(tag@, target@),
{
    let mut v = to_chars(DOWNLOAD_BASE);
    v.push('/');
    crate::strs::extend_all(&mut v, &to_chars(tag));
    crate::strs::extend_str(&mut v, "/mdx-");
    crate::strs::extend_all(&mut v, &to_chars(target));
    crate::strs::extend_str(&mut v, ".tar.gz");
    from_chars(&v)
}

} // verus!
