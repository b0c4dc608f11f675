//! Which directory entries are measured, and under which key a file's result
//! is stored.

use vstd::prelude::*;
use vstd::string::*;

verus! {

/// Index of the last `'.'` among the first `n` characters of `s`, or `-1`.
pub open spec fn last_dot(s: Seq<char>, n: int) -> int
    decreases n,
{
    if n <= 0 {
        -1
    } else if s[n - 1] == '.' {
        n - 1
    } else {
        last_dot(s, n - 1)
    }
}

/// Where the stem of a file name ends. A name splits at its last dot, unless
/// that dot is its first character or the name is `..`; an unsplit name is all
/// stem.
pub open spec fn stem_end(name: Seq<char>) -> int {
    let d = last_dot(name, name.len() as int);
    if name == seq!['.', '.'] || d <= 0 {
        name.len() as int
    } else {
        d
    }
}

/// The stem of a file name: the name without its extension.
pub open spec fn stem(name: Seq<char>) -> Seq<char> {
    name.subrange(0, stem_end(name))
}

/// The extension of a file name, the text after the dot it splits at.
pub open spec fn extension(name: Seq<char>) -> Option<Seq<char>> {
    if stem_end(name) == name.len() {
        None
    } else {
        Some(name.subrange(stem_end(name) + 1, name.len() as int))
    }
}

/// The extension of the audio files a directory is scanned for.
pub open spec fn audio_extension() -> Seq<char> {
    seq!['m', 'p', '3']
}

proof fn lemma_last_dot_bounds(s: Seq<char>, n: int)
    requires
        0 <= n <= s.len(),
    ensures
        -1 <= last_dot(s, n) < n,
        last_dot(s, n) >= 0 ==> s[last_dot(s, n)] == '.',
        forall|j: int| last_dot(s, n) < j < n ==> s[j] != '.',
    decreases n,
{
    if n > 0 {
        lemma_last_dot_bounds(s, n - 1);
    }
}

/// Finds the index `stem_end(name)` by a scan from the end.
fn find_stem_end(name: &str) -> (r: usize)
    ensures
        r == stem_end(name@),
{
    let len = name.unicode_len();
    let mut i: usize = len;
    let mut dot: Option<usize> = None;
    while i > 0 && dot.is_none()
        invariant
            len == name@.len(),
            i <= len,
            dot.is_none() ==> last_dot(name@, len as int) == last_dot(name@, i as int),
            dot.is_some() ==> dot.unwrap() == last_dot(name@, len as int),
        decreases i,
    {
        if name.get_char(i - 1) == '.' {
            dot = Some(i - 1);
        }
        i = i - 1;
    }
    let is_parent = len == 2 && name.get_char(0) == '.' && name.get_char(1) == '.';
    proof {
        lemma_last_dot_bounds(name@, len as int);
        if name@ == seq!['.', '.'] {
            assert(is_parent);
        }
        if is_parent {
            assert(name@ =~= seq!['.', '.']);
        }
    }
    match dot {
        Some(d) => {
            if is_parent || d == 0 {
                len
            } else {
                d
            }
        },
        None => len,
    }
}

/// The key under which a file's result is cached: its name without the
/// extension.
pub fn file_key(name: &str) -> (r: String)
    ensures
        r@ == stem(name@),
{
    let end = find_stem_end(name);
    proof {
        lemma_last_dot_bounds(name@, name@.len() as int);
    }
    name.substring_char(0, end).to_string()
}

/// Whether a directory entry with this name is one of the audio files a
/// directory scan measures.
pub fn has_audio_extension(name: &str) -> (r: bool)
    ensures
        r == (extension(name@) == Some(audio_extension())),
{
    let end = find_stem_end(name);
    let len = name.unicode_len();
    proof {
        lemma_last_dot_bounds(name@, len as int);
    }
    if end == len || len - end != 4 {
        proof {
            if end < len {
                assert(extension(name@).unwrap().len() != 3);
            }
        }
        return false;
    }
    let r = name.get_char(end + 1) == 'm' && name.get_char(end + 2) == 'p' && name.get_char(end + 3)
        == '3';
    proof {
        let ext = extension(name@).unwrap();
        assert(ext[0] == name@[end + 1]);
        assert(ext[1] == name@[end + 2]);
        assert(ext[2] == name@[end + 3]);
        if r {
            assert(ext =~= audio_extension());
        } else {
            assert(ext != audio_extension());
        }
    }
    r
}

} // verus!
