//! Which raw files a logical texture name stands for: one file, or the six
//! faces of a cube map.
use vstd::prelude::*;
use vstd::string::StrSliceExecFns;
use vstd::string::StringExecFns;
use crate::texture::Texture;

verus! {

/// Index of the last occurrence of `c` in `s`, or -1.
pub open spec fn last_index(s: Seq<char>, c: char) -> int
    decreases s.len(),
{
    if s.len() == 0 {
        -1
    } else if s.last() == c {
        s.len() - 1
    } else {
        last_index(s.drop_last(), c)
    }
}

proof fn lemma_last_index_bounds(s: Seq<char>, c: char)
    ensures
        -1 <= last_index(s, c) < s.len(),
        last_index(s, c) >= 0 ==> s[last_index(s, c)] == c,
    decreases s.len(),
{
    if s.len() > 0 && s.last() != c {
        lemma_last_index_bounds(s.drop_last(), c);
    }
}

/// Index in the path at which the file name begins (after the last '/').
pub open spec fn name_start(p: Seq<char>) -> int {
    last_index(p, '/') + 1
}

/// The directory part, trailing '/' included; empty when there is none.
pub open spec fn dir_of(p: Seq<char>) -> Seq<char> {
    p.subrange(0, name_start(p))
}

pub open spec fn file_name(p: Seq<char>) -> Seq<char> {
    p.subrange(name_start(p), p.len() as int)
}

/// Index of the dot that separates stem and extension within the file name.
/// A name whose only dot leads it (".profile") has no extension.
pub open spec fn ext_dot(p: Seq<char>) -> int {
    last_index(file_name(p), '.')
}

pub open spec fn has_ext(p: Seq<char>) -> bool {
    ext_dot(p) > 0
}

pub open spec fn stem_of(p: Seq<char>) -> Seq<char> {
    file_name(p).subrange(0, ext_dot(p))
}

pub open spec fn ext_of(p: Seq<char>) -> Seq<char> {
    file_name(p).subrange(ext_dot(p) + 1, file_name(p).len() as int)
}

pub open spec fn cubemap_tag() -> Seq<char> {
    seq!['_', 'c', 'u', 'b', 'e', 'm', 'a', 'p']
}

/// `c` equals the lower-case character `t` up to ASCII case.
pub open spec fn eq_ignore_ascii_case(c: char, t: char) -> bool {
    c == t || ('a' <= t && t <= 'z' && (c as u32) + 32 == (t as u32))
}

/// The stem ends in "_cubemap", compared without regard to case.
pub open spec fn is_cubemap_stem(stem: Seq<char>) -> bool {
    stem.len() >= 8 && forall|k: int|
        0 <= k < 8 ==> #[trigger] eq_ignore_ascii_case(stem[stem.len() - 8 + k], cubemap_tag()[k])
}

/// The six face suffixes, in the order +X, -X, +Y, -Y, +Z, -Z.
pub open spec fn face_suffix(i: int) -> Seq<char> {
    if i == 0 {
        seq!['_', 'r', 'i', 'g', 'h', 't']
    } else if i == 1 {
        seq!['_', 'l', 'e', 'f', 't']
    } else if i == 2 {
        seq!['_', 't', 'o', 'p']
    } else if i == 3 {
        seq!['_', 'b', 'o', 't', 't', 'o', 'm']
    } else if i == 4 {
        seq!['_', 'f', 'r', 'o', 'n', 't']
    } else {
        seq!['_', 'b', 'a', 'c', 'k']
    }
}

/// The cube map's base name: the stem without its "_cubemap" suffix.
pub open spec fn cube_base(p: Seq<char>) -> Seq<char> {
    stem_of(p).subrange(0, stem_of(p).len() - 8)
}

pub open spec fn face_path(p: Seq<char>, i: int) -> Seq<char> {
    dir_of(p) + cube_base(p) + face_suffix(i) + seq!['.'] + ext_of(p)
}

pub open spec fn is_cubemap_name(p: Seq<char>) -> bool {
    has_ext(p) && is_cubemap_stem(stem_of(p))
}

/// Length of the first `e` characters of `p` once trailing separators and
/// trailing "/." components are dropped, as path components are read.
pub open spec fn trimmed_len(p: Seq<char>, e: int) -> int
    decreases e,
{
    if e <= 0 || e > p.len() {
        e
    } else if p[e - 1] == '/' {
        trimmed_len(p, e - 1)
    } else if e >= 2 && p[e - 1] == '.' && p[e - 2] == '/' {
        trimmed_len(p, e - 1)
    } else {
        e
    }
}

/// The path without trailing separators or trailing "/." components:
/// "a/sky_cubemap.png/" and "a/sky_cubemap.png/." both read as
/// "a/sky_cubemap.png".
pub open spec fn trimmed(p: Seq<char>) -> Seq<char> {
    p.subrange(0, trimmed_len(p, p.len() as int))
}

/// The files that a logical texture name is gathered from. Directory, stem
/// and extension are read from the trimmed path; a name that is not a cube
/// map is requested as given.
pub open spec fn gathered_paths(p: Seq<char>) -> Seq<Seq<char>> {
    if is_cubemap_name(trimmed(p)) {
        Seq::new(6, |i: int| face_path(trimmed(p), i))
    } else {
        seq![p]
    }
}

/// Length of `s` once trailing separators and "/." components are dropped.
fn trimmed_end(s: &str, n: usize) -> (e: usize)
    requires
        n == s@.len(),
    ensures
        e == trimmed_len(s@, n as int),
        e <= n,
{
    let mut e: usize = n;
    while e > 0
        invariant
            e <= n,
            n == s@.len(),
            trimmed_len(s@, n as int) == trimmed_len(s@, e as int),
        decreases e,
    {
        let c = s.get_char(e - 1);
        if c == '/' {
            e = e - 1;
        } else if e >= 2 && c == '.' && s.get_char(e - 2) == '/' {
            e = e - 1;
        } else {
            return e;
        }
    }
    e
}

/// Position of the last `c` among the characters of `s` from `from` on.
fn find_last(s: &str, n: usize, from: usize, c: char) -> (r: Option<usize>)
    requires
        n <= s@.len(),
        from <= n,
    ensures
        match r {
            Some(i) => from <= i < n && i - from == last_index(s@.subrange(from as int, n as int), c),
            None => last_index(s@.subrange(from as int, n as int), c) == -1,
        },
{
    let mut found: Option<usize> = None;
    let mut i: usize = from;
    while i < n
        invariant
            from <= i <= n,
            n <= s@.len(),
            match found {
                Some(j) => from <= j < i && j - from == last_index(
                    s@.subrange(from as int, i as int),
                    c,
                ),
                None => last_index(s@.subrange(from as int, i as int), c) == -1,
            },
        decreases n - i,
    {
        let ch = s.get_char(i);
        proof {
            assert(s@.subrange(from as int, i + 1).drop_last() =~= s@.subrange(from as int, i as int));
        }
        if ch == c {
            found = Some(i);
        }
        i = i + 1;
    }
    found
}

fn char_eq_ignore_ascii_case(c: char, t: char) -> (r: bool)
    ensures
        r == eq_ignore_ascii_case(c, t),
{
    if c == t {
        true
    } else if 'a' <= t && t <= 'z' {
        (c as u32) + 32 == (t as u32)
    } else {
        false
    }
}

fn suffix_str(i: usize) -> (r: &'static str)
    requires
        i < 6,
    ensures
        r@ == face_suffix(i as int),
{
    proof {
        reveal_strlit("_right");
        reveal_strlit("_left");
        reveal_strlit("_top");
        reveal_strlit("_bottom");
        reveal_strlit("_front");
        reveal_strlit("_back");
    }
    if i == 0 {
        assert("_right"@ =~= face_suffix(0));
        "_right"
    } else if i == 1 {
        assert("_left"@ =~= face_suffix(1));
        "_left"
    } else if i == 2 {
        assert("_top"@ =~= face_suffix(2));
        "_top"
    } else if i == 3 {
        assert("_bottom"@ =~= face_suffix(3));
        "_bottom"
    } else if i == 4 {
        assert("_front"@ =~= face_suffix(4));
        "_front"
    } else {
        assert("_back"@ =~= face_suffix(5));
        "_back"
    }
}

impl Texture {
    /// Decides from the name alone which files a texture is loaded from. A name
    /// whose stem ends in "_cubemap" (any case) gives six face files, in the
    /// order right, left, top, bottom, front, back, each with the same directory
    /// and extension; any other name gives itself. Trailing separators and
    /// trailing "/." components are not part of the file name.
    pub fn gather(fname: &str) -> (r: Vec<String>)
        ensures
            r@.map_values(|s: String| s@) == gathered_paths(fname@),
    {
        let len = fname.unicode_len();
        let n = trimmed_end(fname, len);
        let ghost p = trimmed(fname@);
        proof {
            assert(fname@.subrange(0, n as int) =~= p);
        }
        let slash = find_last(fname, n, 0, '/');
        let start: usize = match slash {
            Some(j) => j + 1,
            None => 0,
        };
        proof {
            lemma_last_index_bounds(p, '/');
            assert(start == name_start(p));
            assert(fname@.subrange(start as int, n as int) =~= file_name(p));
            lemma_last_index_bounds(file_name(p), '.');
        }
        let dot = find_last(fname, n, start, '.');
        let mut cube = false;
        if let Some(d) = dot {
            if d > start && d - start >= 8 {
                let mut k: usize = 0;
                cube = true;
                proof {
                    reveal_strlit("_cubemap");
                    assert("_cubemap"@ =~= cubemap_tag());
                }
                while k < 8
                    invariant
                        k <= 8,
                        start < d < n,
                        d - start >= 8,
                        n <= fname@.len(),
                        p == fname@.subrange(0, n as int),
                        start == name_start(p),
                        d - start == ext_dot(p),
                        "_cubemap"@ == cubemap_tag(),
                        cube == forall|j: int|
                            0 <= j < k ==> #[trigger] eq_ignore_ascii_case(
                                stem_of(p)[stem_of(p).len() - 8 + j],
                                cubemap_tag()[j],
                            ),
                    decreases 8 - k,
                {
                    let c = fname.get_char(d - 8 + k);
                    let t = "_cubemap".get_char(k);
                    assert(stem_of(p)[stem_of(p).len() - 8 + k] == c);
                    let same = char_eq_ignore_ascii_case(c, t);
                    cube = cube && same;
                    k = k + 1;
                }
            }
        }
        if !cube {
            proof {
                if is_cubemap_name(p) {
                    let d = dot.unwrap();
                    assert(has_ext(p));
                    assert(d - start == ext_dot(p));
                    assert(stem_of(p).len() == d - start);
                }
            }
            let mut v: Vec<String> = Vec::new();
            v.push(String::from_str(fname));
            assert(v@.map_values(|s: String| s@) =~= gathered_paths(fname@));
            return v;
        }
        let d = dot.unwrap();
        assert(is_cubemap_name(p));
        let dir = fname.substring_char(0, start);
        let base = fname.substring_char(start, d - 8);
        let ext = fname.substring_char(d + 1, n);
        assert(dir@ =~= dir_of(p));
        assert(base@ =~= cube_base(p));
        assert(ext@ =~= ext_of(p));
        let mut v: Vec<String> = Vec::new();
        let mut i: usize = 0;
        while i < 6
            invariant
                i <= 6,
                is_cubemap_name(p),
                dir@ == dir_of(p),
                base@ == cube_base(p),
                ext@ == ext_of(p),
                v@.len() == i,
                forall|j: int| 0 <= j < i ==> #[trigger] v@[j]@ == face_path(p, j),
            decreases 6 - i,
        {
            let path = String::from_str(dir).concat(base).concat(suffix_str(i)).concat(".").concat(
                ext,
            );
            proof {
                reveal_strlit(".");
                assert(path@ =~= face_path(p, i as int));
            }
            v.push(path);
            i = i + 1;
        }
        assert(v@.map_values(|s: String| s@) =~= gathered_paths(fname@));
        v
    }
}

} // verus!
