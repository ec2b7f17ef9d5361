use vstd::prelude::*;
use vstd::string::*;
use crate::schema::string_views;

verus! {

/// The index of the last `'.'` in `s`, or -1 when there is none.
pub open spec fn last_dot(s: Seq<char>) -> int
    decreases s.len(),
{
    if s.len() == 0 {
        -1
    } else if s.last() == '.' {
        s.len() - 1
    } else {
        last_dot(s.drop_last())
    }
}

/// The text after the last `'.'` of a path, if it has a `'.'` at all.
pub open spec fn extension_of(s: Seq<char>) -> Option<Seq<char>> {
    if last_dot(s) < 0 {
        None
    } else {
        Some(s.skip(last_dot(s) + 1))
    }
}

/// The image formats this library submits, compared case-sensitively.
pub open spec fn is_supported_extension(e: Seq<char>) -> bool {
    ||| e == "jpeg"@
    ||| e == "png"@
    ||| e == "gif"@
    ||| e == "bmp"@
    ||| e == "webp"@
    ||| e == "raw"@
    ||| e == "ico"@
    ||| e == "pdf"@
    ||| e == "tiff"@
}

/// A path names a supported image when its extension is a supported one.
pub open spec fn is_supported_path(s: Seq<char>) -> bool {
    match extension_of(s) {
        Some(e) => is_supported_extension(e),
        None => false,
    }
}

/// Whether the characters of `s` from `from` on are exactly those of `word`.
fn tail_equals(s: &str, from: usize, word: &str) -> (r: bool)
    requires
        from <= s@.len(),
    ensures
        r == (s@.skip(from as int) == word@),
{
    let n = s.unicode_len();
    let m = word.unicode_len();
    if n - from != m {
        proof {
            assert(s@.skip(from as int).len() != word@.len());
        }
        return false;
    }
    let mut i: usize = 0;
    while i < m
        invariant
            n == s@.len(),
            m == word@.len(),
            n - from == m,
            from <= n,
            i <= m,
            forall|k: int| 0 <= k < i ==> s@[from + k] == word@[k],
        decreases m - i,
    {
        if s.get_char(from + i) != word.get_char(i) {
            proof {
                assert(s@.skip(from as int)[i as int] != word@[i as int]);
            }
            return false;
        }
        i += 1;
    }
    assert(s@.skip(from as int) =~= word@);
    true
}

/// The position just after the last `'.'` of `s`, if there is one.
fn extension_start(s: &str) -> (r: Option<usize>)
    ensures
        match r {
            Some(p) => last_dot(s@) >= 0 && p == last_dot(s@) + 1 && p <= s@.len(),
            None => last_dot(s@) < 0,
        },
{
    let n = s.unicode_len();
    let mut i: usize = n;
    assert(s@.take(n as int) =~= s@);
    while i > 0
        invariant
            n == s@.len(),
            i <= n,
            last_dot(s@) == last_dot(s@.take(i as int)),
        decreases i,
    {
        assert(s@.take(i as int).drop_last() =~= s@.take(i - 1));
        if s.get_char(i - 1) == '.' {
            return Some(i);
        }
        i -= 1;
    }
    None
}

/// Whether a path names a file of a supported image format, judged by the
/// text after its last `'.'`; a path without a `'.'` is not an image.
pub fn is_supported_image(path: &str) -> (r: bool)
    ensures
        r == is_supported_path(path@),
{
    match extension_start(path) {
        None => false,
        Some(p) => {
            tail_equals(path, p, "jpeg") || tail_equals(path, p, "png") || tail_equals(
                path,
                p,
                "gif",
            ) || tail_equals(path, p, "bmp") || tail_equals(path, p, "webp") || tail_equals(
                path,
                p,
                "raw",
            ) || tail_equals(path, p, "ico") || tail_equals(path, p, "pdf") || tail_equals(
                path,
                p,
                "tiff",
            )
        },
    }
}

/// Keeps the paths of supported images, in the order given.
pub fn select_images(paths: &Vec<String>) -> (r: Vec<String>)
    ensures
        string_views(r@) == string_views(paths@).filter(|s: Seq<char>| is_supported_path(s)),
{
    let ghost keep = |s: Seq<char>| is_supported_path(s);
    let mut out: Vec<String> = Vec::new();
    let mut i: usize = 0;
    while i < paths.len()
        invariant
            i <= paths@.len(),
            keep == (|s: Seq<char>| is_supported_path(s)),
            string_views(out@) == string_views(paths@.take(i as int)).filter(keep),
        decreases paths@.len() - i,
    {
        let ghost before = out@;
        proof {
            let v = string_views(paths@.take(i + 1));
            assert(v.drop_last() =~= string_views(paths@.take(i as int)));
            assert(v.last() == paths@[i as int]@);
            reveal(Seq::filter);
        }
        if is_supported_image(paths[i].as_str()) {
            out.push(paths[i].clone());
            proof {
                assert(string_views(out@) =~= string_views(before).push(paths@[i as int]@));
            }
        }
        i += 1;
    }
    assert(paths@.take(i as int) =~= paths@);
    out
}

} // verus!
