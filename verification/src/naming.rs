//! Derivation of the intermediate download filename from the requested
//! output path, and of the output path's extension.
//!
//! An extension is the part of the final path component (after the last
//! `'/'`) that follows its last `'.'`, provided that dot is not the first
//! character of the component. Stripping an extension removes the dot and
//! everything after it.

use vstd::prelude::*;

verus! {

/// Index of the dot that begins the extension of `s`, or `-1` when `s` has
/// no extension: no dot after the last separator, a trailing separator, or a
/// component whose only dot is its first character.
pub open spec fn ext_dot_index(s: Seq<char>) -> int
    decreases s.len(),
{
    if s.len() == 0 {
        -1
    } else if s[s.len() - 1] == '/' {
        -1
    } else if s[s.len() - 1] == '.' {
        if s.len() == 1 || s[s.len() - 2] == '/' {
            -1
        } else {
            s.len() - 1
        }
    } else {
        ext_dot_index(s.drop_last())
    }
}

pub proof fn lemma_ext_dot_index_range(s: Seq<char>)
    ensures
        -1 <= ext_dot_index(s) < s.len(),
    decreases s.len(),
{
    if s.len() > 0 && s[s.len() - 1] != '/' && s[s.len() - 1] != '.' {
        lemma_ext_dot_index_range(s.drop_last());
    }
}

/// `s` with its extension (dot included) removed; `s` itself when it has
/// none.
pub open spec fn strip_ext(s: Seq<char>) -> Seq<char> {
    if ext_dot_index(s) >= 0 {
        s.take(ext_dot_index(s))
    } else {
        s
    }
}

/// The extension of `s` (without the dot), or `None` when it has none.
pub open spec fn ext_of(s: Seq<char>) -> Option<Seq<char>> {
    if ext_dot_index(s) >= 0 {
        Some(s.skip(ext_dot_index(s) + 1))
    } else {
        None
    }
}

/// The extension of the output path, with the downloader's fixed container
/// standing in when the path has none.
pub open spec fn out_ext_or_default(s: Seq<char>) -> Seq<char> {
    match ext_of(s) {
        Some(e) => e,
        None => "webm"@,
    }
}

/// `s` with every extension stripped, one after the other, until none is
/// left.
pub open spec fn strip_all_exts(s: Seq<char>) -> Seq<char>
    decreases s.len(),
    via strip_all_exts_decreases
{
    if ext_dot_index(s) >= 0 {
        strip_all_exts(s.take(ext_dot_index(s)))
    } else {
        s
    }
}

#[via_fn]
proof fn strip_all_exts_decreases(s: Seq<char>) {
    lemma_ext_dot_index_range(s);
}

/// How many times an extension can be stripped from `s` before none is left.
pub open spec fn ext_count(s: Seq<char>) -> nat
    decreases s.len(),
    via ext_count_decreases
{
    if ext_dot_index(s) >= 0 {
        1 + ext_count(s.take(ext_dot_index(s)))
    } else {
        0
    }
}

#[via_fn]
proof fn ext_count_decreases(s: Seq<char>) {
    lemma_ext_dot_index_range(s);
}

/// The intermediate download filename: the output path with up to two
/// extensions stripped, then the downloader's fixed `.webm` extension.
pub open spec fn intermediate_spec(output: Seq<char>) -> Seq<char> {
    strip_ext(strip_ext(output)) + ".webm"@
}

/// On an output path bearing at most two extensions, stripping two strips
/// them all: the intermediate filename is the path with every extension
/// removed, plus the fixed extension.
pub proof fn lemma_intermediate_strips_all(output: Seq<char>)
    requires
        ext_count(output) <= 2,
    ensures
        intermediate_spec(output) == strip_all_exts(output) + ".webm"@,
{
    if ext_dot_index(output) >= 0 {
        let once = strip_ext(output);
        assert(once == output.take(ext_dot_index(output)));
        assert(ext_count(output) == 1 + ext_count(once));
        assert(strip_all_exts(output) == strip_all_exts(once));
        if ext_dot_index(once) >= 0 {
            let twice = strip_ext(once);
            assert(twice == once.take(ext_dot_index(once)));
            assert(ext_count(once) == 1 + ext_count(twice));
            assert(strip_all_exts(once) == strip_all_exts(twice));
            assert(ext_count(twice) == 0);
            assert(ext_dot_index(twice) < 0);
            assert(strip_ext(twice) == twice);
            assert(strip_all_exts(twice) == twice);
        } else {
            assert(strip_ext(once) == once);
            assert(strip_all_exts(once) == once);
        }
    } else {
        assert(strip_ext(output) == output);
        assert(strip_all_exts(output) == output);
    }
}

/// Finds the dot that begins the extension of `s`, scanning the final path
/// component from its end.
fn find_ext_dot(s: &str) -> (r: Option<usize>)
    ensures
        match r {
            Some(d) => ext_dot_index(s@) == d,
            None => ext_dot_index(s@) == -1,
        },
{
    let n = s.unicode_len();
    let mut i: usize = n;
    proof {
        assert(s@.take(n as int) =~= s@);
    }
    while i > 0
        invariant
            i <= n,
            n == s@.len(),
            ext_dot_index(s@) == ext_dot_index(s@.take(i as int)),
        decreases i,
    {
        let c = s.get_char(i - 1);
        if c == '/' {
            return None;
        } else if c == '.' {
            if i == 1 || s.get_char(i - 2) == '/' {
                return None;
            } else {
                return Some(i - 1);
            }
        }
        proof {
            assert(s@.take(i as int).drop_last() =~= s@.take(i - 1));
        }
        i -= 1;
    }
    None
}

/// Removes the extension of `s`, if it has one.
pub fn strip_extension(s: &str) -> (r: String)
    ensures
        r@ == strip_ext(s@),
{
    proof {
        lemma_ext_dot_index_range(s@);
    }
    match find_ext_dot(s) {
        Some(d) => s.substring_char(0, d).to_owned(),
        None => s.to_owned(),
    }
}

/// The extension of the output path, or `"webm"` when it has none: the
/// container the download step produces, so a bare output path asks for no
/// conversion.
pub fn output_extension(s: &str) -> (r: String)
    ensures
        r@ == out_ext_or_default(s@),
{
    proof {
        lemma_ext_dot_index_range(s@);
    }
    let n = s.unicode_len();
    match find_ext_dot(s) {
        Some(d) => s.substring_char(d + 1, n).to_owned(),
        None => "webm".to_owned(),
    }
}

/// Derives the intermediate download filename from the requested output
/// path: up to two extensions are stripped, and the downloader's fixed
/// `.webm` extension is appended.
pub fn intermediate_name(output: &str) -> (r: String)
    ensures
        r@ == intermediate_spec(output@),
{
    let once = strip_extension(output);
    let twice = strip_extension(once.as_str());
    twice.concat(".webm")
}

} // verus!
