//! Paths as text.
//!
//! A path is a text whose segments are separated by `/`. Empty segments and
//! segments that are a single `.` do not count, so `./a//b` and `a/b` have the
//! same segments.

use vstd::prelude::*;
use crate::text::{
    chars_of, contains, contains_text, has_prefix, same_chars, slice_of, starts_with,
};
use crate::textlines::{
    first_index, lemma_first_index, lemma_first_index_is, split, split_on, texts,
};

verus! {

/// A segment that counts: neither empty nor a single `.`.
pub open spec fn counts(piece: Seq<char>) -> bool {
    piece.len() > 0 && piece != seq!['.']
}

/// Those of the first `n` pieces that count, in order.
pub open spec fn counted(pieces: Seq<Seq<char>>, n: int) -> Seq<Seq<char>>
    decreases n,
{
    if n <= 0 {
        Seq::<Seq<char>>::empty()
    } else if counts(pieces[n - 1]) {
        counted(pieces, n - 1).push(pieces[n - 1])
    } else {
        counted(pieces, n - 1)
    }
}

/// The segments of a path.
pub open spec fn segments(path: Seq<char>) -> Seq<Seq<char>> {
    counted(split_on(path, '/'), split_on(path, '/').len() as int)
}

/// The segments of a path.
pub fn path_segments(path: &[char]) -> (out: Vec<Vec<char>>)
    ensures
        texts(out@) == segments(path@),
{
    let pieces = split(path, '/');
    let mut out: Vec<Vec<char>> = Vec::new();
    let mut k: usize = 0;
    assert(texts(out@) =~= counted(texts(pieces@), 0));
    while k < pieces.len()
        invariant
            k <= pieces.len(),
            texts(out@) == counted(texts(pieces@), k as int),
        decreases pieces.len() - k,
    {
        let piece = &pieces[k];
        assert(texts(pieces@)[k as int] == piece@);
        let is_dot = piece.len() == 1 && piece[0] == '.';
        assert(is_dot == (piece@ == seq!['.'])) by {
            if is_dot {
                assert(piece@ =~= seq!['.']);
            }
        }
        if piece.len() > 0 && !is_dot {
            let copy = slice_of(piece.as_slice(), 0, piece.len());
            assert(copy@ =~= piece@);
            assert(texts(out@.push(copy)) =~= texts(out@).push(copy@));
            out.push(copy);
        }
        k += 1;
    }
    out
}

/// The name of the file or directory that a path ends in; none for a path
/// without segments or one that ends in `..`.
pub open spec fn base_name(path: Seq<char>) -> Option<Seq<char>> {
    let s = segments(path);
    if s.len() == 0 || s.last() == seq!['.', '.'] {
        None
    } else {
        Some(s.last())
    }
}

/// The name of the file or directory that a path ends in.
pub fn file_name(path: &[char]) -> (r: Option<Vec<char>>)
    ensures
        match r {
            Some(v) => base_name(path@) == Some(v@),
            None => base_name(path@) is None,
        },
{
    let mut s = path_segments(path);
    let ghost all = texts(s@);
    if s.len() == 0 {
        return None;
    }
    let last = s.pop().unwrap();
    assert(all.last() == last@);
    let is_up = last.len() == 2 && last[0] == '.' && last[1] == '.';
    assert(is_up == (last@ == seq!['.', '.'])) by {
        if is_up {
            assert(last@ =~= seq!['.', '.']);
        }
    }
    if is_up {
        None
    } else {
        Some(last)
    }
}

/// Whether one of the segments of a path is `name`.
pub open spec fn has_segment(path: Seq<char>, name: Seq<char>) -> bool {
    exists|k: int| 0 <= k < segments(path).len() && #[trigger] segments(path)[k] == name
}

/// Whether a path belongs to tests: one of its segments is `test` or `tests`,
/// or its base name holds the text `test`.
pub open spec fn is_test_path(path: Seq<char>) -> bool {
    has_segment(path, "tests"@) || has_segment(path, "test"@) || (match base_name(path) {
        Some(name) => contains_text(name, "test"@),
        None => false,
    })
}

/// Whether a path belongs to tests.
pub fn test_path(path: &[char]) -> (b: bool)
    ensures
        b == is_test_path(path@),
{
    let s = path_segments(path);
    let tests = chars_of("tests");
    let test = chars_of("test");
    let mut k: usize = 0;
    while k < s.len()
        invariant
            k <= s.len(),
            texts(s@) == segments(path@),
            tests@ == "tests"@,
            test@ == "test"@,
            forall|j: int|
                0 <= j < k ==> (#[trigger] segments(path@)[j]) != "tests"@ && segments(path@)[j]
                    != "test"@,
        decreases s.len() - k,
    {
        assert(texts(s@)[k as int] == s@[k as int]@);
        if same_chars(s[k].as_slice(), tests.as_slice()) || same_chars(
            s[k].as_slice(),
            test.as_slice(),
        ) {
            return true;
        }
        k += 1;
    }
    match file_name(path) {
        Some(name) => contains(name.as_slice(), test.as_slice()),
        None => false,
    }
}

/// The position of the last `c` in `s`, or `-1`.
pub open spec fn last_index(s: Seq<char>, c: char) -> int
    decreases s.len(),
{
    if s.len() == 0 {
        -1
    } else if s.last() == c {
        s.len() - 1
    } else {
        last_index(s.drop_last(), c)
    }
}

/// The extension of a path: what follows the last `.` of the base name, unless
/// the base name has no `.` or only begins with one.
pub open spec fn extension(path: Seq<char>) -> Option<Seq<char>> {
    match base_name(path) {
        Some(name) => {
            let i = last_index(name, '.');
            if i <= 0 {
                None
            } else {
                Some(name.skip(i + 1))
            }
        },
        None => None,
    }
}

/// The extension of a path.
pub fn extension_of(path: &[char]) -> (r: Option<Vec<char>>)
    ensures
        match r {
            Some(v) => extension(path@) == Some(v@),
            None => extension(path@) is None,
        },
{
    match file_name(path) {
        Some(name) => {
            let mut i: usize = name.len();
            assert(name@.take(name@.len() as int) =~= name@);
            while i > 0 && name[i - 1] != '.'
                invariant
                    i <= name.len(),
                    last_index(name@, '.') == last_index(name@.take(i as int), '.'),
                decreases i,
            {
                proof {
                    let cur = name@.take(i as int);
                    assert(cur.last() == name@[i - 1]);
                    assert(cur.drop_last() =~= name@.take(i - 1));
                }
                i -= 1;
            }
            proof {
                let cur = name@.take(i as int);
                if i > 0 {
                    assert(cur.last() == name@[i - 1]);
                    assert(last_index(cur, '.') == i - 1);
                } else {
                    assert(cur.len() == 0);
                }
            }
            if i <= 1 {
                None
            } else {
                let ext = slice_of(name.as_slice(), i, name.len());
                assert(ext@ =~= name@.skip((i - 1) + 1));
                Some(ext)
            }
        },
        None => None,
    }
}

/// Whether a path names a Rust source file.
pub open spec fn is_rust_path(path: Seq<char>) -> bool {
    extension(path) == Some("rs"@)
}

/// Whether a path names a Rust source file.
pub fn rust_path(path: &[char]) -> (b: bool)
    ensures
        b == is_rust_path(path@),
{
    match extension_of(path) {
        Some(ext) => {
            let rs = chars_of("rs");
            same_chars(ext.as_slice(), rs.as_slice())
        },
        None => false,
    }
}

/// A path as seen from a directory: what follows the directory and one `/`.
/// Every path is seen unchanged from the empty directory.
pub open spec fn relative_to(path: Seq<char>, dir: Seq<char>) -> Option<Seq<char>> {
    if dir.len() == 0 {
        Some(path)
    } else if has_prefix(path, dir) && dir.last() == '/' {
        Some(path.skip(dir.len() as int))
    } else if has_prefix(path, dir.push('/')) {
        Some(path.skip(dir.len() as int + 1))
    } else {
        None
    }
}

/// A path as seen from a directory.
pub fn relative_path(path: &[char], dir: &[char]) -> (r: Option<Vec<char>>)
    ensures
        match r {
            Some(v) => relative_to(path@, dir@) == Some(v@),
            None => relative_to(path@, dir@) is None,
        },
{
    if dir.len() == 0 {
        let copy = slice_of(path, 0, path.len());
        assert(copy@ =~= path@);
        return Some(copy);
    }
    if !starts_with(path, dir) {
        proof {
            if has_prefix(path@, dir@.push('/')) {
                assert(path@.subrange(0, dir@.len() as int) =~= dir@.push('/').subrange(
                    0,
                    dir@.len() as int,
                ));
                assert(dir@.push('/').subrange(0, dir@.len() as int) =~= dir@);
            }
        }
        return None;
    }
    if dir[dir.len() - 1] == '/' {
        return Some(slice_of(path, dir.len(), path.len()));
    }
    if path.len() > dir.len() && path[dir.len()] == '/' {
        assert(path@.subrange(0, dir@.len() as int + 1) =~= dir@.push('/'));
        Some(slice_of(path, dir.len() + 1, path.len()))
    } else {
        proof {
            if has_prefix(path@, dir@.push('/')) {
                assert(path@.subrange(0, dir@.len() as int + 1)[dir@.len() as int] == '/');
            }
        }
        None
    }
}

/// Two paths with the same segments belong to tests alike.
pub proof fn lemma_test_path_by_segments(a: Seq<char>, b: Seq<char>)
    requires
        segments(a) == segments(b),
    ensures
        is_test_path(a) == is_test_path(b),
{
}

proof fn lemma_split_joined(d: Seq<char>, p: Seq<char>, sep: char)
    ensures
        split_on(d.push(sep) + p, sep) == split_on(d, sep) + split_on(p, sep),
    decreases d.len(),
{
    let s = d.push(sep) + p;
    lemma_first_index(d, sep);
    let i = first_index(d, sep);
    if i < d.len() {
        assert forall|j: int| 0 <= j < i implies s[j] != sep by {
            assert(s[j] == d[j]);
        }
        assert(s[i] == d[i]);
        lemma_first_index_is(s, sep, i);
        assert(s.take(i) =~= d.take(i));
        assert(s.skip(i + 1) =~= d.skip(i + 1).push(sep) + p);
        lemma_split_joined(d.skip(i + 1), p, sep);
        assert(split_on(s, sep) =~= split_on(d, sep) + split_on(p, sep));
    } else {
        assert forall|j: int| 0 <= j < d.len() implies s[j] != sep by {
            assert(s[j] == d[j]);
        }
        assert(s[d.len() as int] == sep);
        lemma_first_index_is(s, sep, d.len() as int);
        assert(s.take(d.len() as int) =~= d);
        assert(s.skip(d.len() as int + 1) =~= p);
        assert(split_on(s, sep) =~= split_on(d, sep) + split_on(p, sep));
    }
}

proof fn lemma_counted_joined(a: Seq<Seq<char>>, b: Seq<Seq<char>>, n: int)
    requires
        0 <= n <= a.len() + b.len(),
    ensures
        n <= a.len() ==> counted(a + b, n) == counted(a, n),
        n >= a.len() ==> counted(a + b, n) == counted(a, a.len() as int) + counted(b, n - a.len()),
    decreases n,
{
    if n > 0 {
        lemma_counted_joined(a, b, n - 1);
        if n <= a.len() {
            assert((a + b)[n - 1] == a[n - 1]);
        } else {
            assert((a + b)[n - 1] == b[n - 1 - a.len()]);
        }
    }
    if n >= a.len() {
        assert(counted(a + b, n) =~= counted(a, a.len() as int) + counted(b, n - a.len()));
    }
}

/// The segments of a path under a directory are the segments of the directory
/// followed by those of the path.
pub proof fn lemma_segments_joined(dir: Seq<char>, path: Seq<char>)
    ensures
        segments(dir.push('/') + path) == segments(dir) + segments(path),
{
    lemma_split_joined(dir, path, '/');
    let a = split_on(dir, '/');
    let b = split_on(path, '/');
    lemma_counted_joined(a, b, (a.len() + b.len()) as int);
}

/// A path that belongs to tests belongs to them from wherever it is reached:
/// it still does with any directory joined in front of it.
pub proof fn lemma_test_path_under_directory(dir: Seq<char>, path: Seq<char>)
    requires
        is_test_path(path),
    ensures
        is_test_path(dir.push('/') + path),
{
    lemma_segments_joined(dir, path);
    let joined = dir.push('/') + path;
    let own = segments(path);
    let all = segments(joined);
    let front = segments(dir).len();
    assert forall|k: int| 0 <= k < own.len() implies all[front + k] == #[trigger] own[k] by {}
    if has_segment(path, "tests"@) {
        let k = choose|k: int| 0 <= k < own.len() && #[trigger] own[k] == "tests"@;
        assert(segments(joined)[front + k] == "tests"@);
    } else if has_segment(path, "test"@) {
        let k = choose|k: int| 0 <= k < own.len() && #[trigger] own[k] == "test"@;
        assert(segments(joined)[front + k] == "test"@);
    } else {
        assert(own.len() > 0);
        assert(all.last() == own.last());
        assert(base_name(joined) == base_name(path));
    }
}

} // verus!
