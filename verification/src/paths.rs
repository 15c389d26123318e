//! Path-string helpers for deriving an output file path from an input path.
//!
//! A path is treated as a plain sequence of characters in which `/` separates
//! directories and the last `.` of the final component separates the file
//! stem from its extension.

use vstd::prelude::*;

verus! {

/// Index of the last occurrence of `c` in `s`, or `-1` when `c` does not occur.
pub open spec fn last_index_of(s: Seq<char>, c: char) -> int
    decreases s.len(),
{
    if s.len() == 0 {
        -1
    } else if s[s.len() - 1] == c {
        s.len() - 1
    } else {
        last_index_of(s.drop_last(), c)
    }
}

/// `last_index_of` returns a position of `c` after which `c` never occurs,
/// or `-1` when `c` does not occur at all.
pub proof fn lemma_last_index_of(s: Seq<char>, c: char)
    ensures
        -1 <= last_index_of(s, c) < s.len(),
        last_index_of(s, c) >= 0 ==> s[last_index_of(s, c)] == c,
        forall|j: int| last_index_of(s, c) < j < s.len() ==> s[j] != c,
    decreases s.len(),
{
    if s.len() == 0 {
    } else if s[s.len() - 1] == c {
    } else {
        lemma_last_index_of(s.drop_last(), c);
        assert(forall|j: int| 0 <= j < s.len() - 1 ==> s.drop_last()[j] == s[j]);
    }
}

/// Index of the first character of the final path component of `s`.
pub open spec fn file_name_start(s: Seq<char>) -> int {
    last_index_of(s, '/') + 1
}

/// The final path component of `s` (empty when `s` ends with a separator).
pub open spec fn file_name_of(s: Seq<char>) -> Seq<char> {
    s.subrange(file_name_start(s), s.len() as int)
}

/// Length of the stem of a file name: everything before the last `.`,
/// except that a name whose only `.` is its first character (a hidden file)
/// or that has no `.` at all is all stem.
pub open spec fn stem_len(name: Seq<char>) -> int {
    let d = last_index_of(name, '.');
    if d <= 0 {
        name.len() as int
    } else {
        d
    }
}

/// The stem of the final path component of `s`.
pub open spec fn stem_of(s: Seq<char>) -> Seq<char> {
    let name = file_name_of(s);
    name.subrange(0, stem_len(name))
}

/// The extension of the final path component of `s`: the characters after the
/// last `.`, or `None` when the name has no extension. A name ending in `.`
/// has the empty extension, as `std::path::Path::extension` reports it.
pub open spec fn extension_of(s: Seq<char>) -> Option<Seq<char>> {
    let name = file_name_of(s);
    let d = last_index_of(name, '.');
    if d <= 0 {
        None
    } else {
        Some(name.subrange(d + 1, name.len() as int))
    }
}

/// The path that names a sibling of `s` with the same stem and extension
/// `ext`: the directory part of `s` (the root directory for a bare file
/// name), then the stem, a `.`, and `ext`.
pub open spec fn with_extension(s: Seq<char>, ext: Seq<char>) -> Seq<char> {
    let prefix = if last_index_of(s, '/') == -1 {
        seq!['/']
    } else {
        s.subrange(0, file_name_start(s))
    };
    prefix + stem_of(s) + seq!['.'] + ext
}

/// Index just past the last occurrence of `c` in `s` (`0` when absent).
pub(crate) fn find_last_end(s: &str, c: char) -> (r: usize)
    ensures
        r == last_index_of(s@, c) + 1,
{
    let n = s.unicode_len();
    let mut i = n;
    proof {
        lemma_last_index_of(s@, c);
    }
    while i > 0
        invariant
            i <= n,
            n == s@.len(),
            forall|j: int| i <= j < n ==> s@[j] != c,
            -1 <= last_index_of(s@, c) < s@.len(),
            last_index_of(s@, c) >= 0 ==> s@[last_index_of(s@, c)] == c,
            forall|j: int| last_index_of(s@, c) < j < s@.len() ==> s@[j] != c,
        decreases i,
    {
        let ch = s.get_char(i - 1);
        if ch == c {
            proof {
                let last = last_index_of(s@, c);
                if last > i - 1 {
                    assert(s@[last] != c);
                } else if last < i - 1 {
                    assert(s@[i - 1] != c);
                }
            }
            return i;
        }
        i = i - 1;
    }
    proof {
        let last = last_index_of(s@, c);
        if last >= 0 {
            assert(s@[last] != c);
        }
    }
    0
}

/// The extension of the final component of `s`, when it has one.
pub fn extension_str(s: &str) -> (r: Option<&str>)
    ensures
        match r {
            Some(e) => extension_of(s@) == Some(e@),
            None => extension_of(s@) is None,
        },
{
    let n = s.unicode_len();
    let name_start = find_last_end(s, '/');
    proof {
        lemma_last_index_of(s@, '/');
    }
    let name = s.substring_char(name_start, n);
    proof {
        assert(name@ == file_name_of(s@));
    }
    let dot_end = find_last_end(name, '.');
    proof {
        lemma_last_index_of(name@, '.');
    }
    if dot_end > 1 {
        let nl = name.unicode_len();
        Some(name.substring_char(dot_end, nl))
    } else {
        None
    }
}

/// Builds the output path that sits beside `file_path` in the same
/// directory, keeping the file stem and replacing the extension with
/// `extension`.
pub fn set_file_to_same_dir(file_path: &str, extension: &str) -> (r: String)
    requires
        file_name_of(file_path@).len() > 0,
    ensures
        r@ == with_extension(file_path@, extension@),
{
    let n = file_path.unicode_len();
    let name_start = find_last_end(file_path, '/');
    proof {
        lemma_last_index_of(file_path@, '/');
    }
    let name = file_path.substring_char(name_start, n);
    proof {
        assert(name@ == file_name_of(file_path@));
    }
    let dot_end = find_last_end(name, '.');
    proof {
        lemma_last_index_of(name@, '.');
    }
    let sl = if dot_end > 1 {
        dot_end - 1
    } else {
        name.unicode_len()
    };
    proof {
        assert(sl == stem_len(name@));
    }
    let mut out = String::new();
    if name_start == 0 {
        out.append("/");
        proof {
            reveal_strlit("/");
            assert(out@ =~= seq!['/']);
        }
    } else {
        out.append(file_path.substring_char(0, name_start));
    }
    out.append(name.substring_char(0, sl));
    out.append(".");
    out.append(extension);
    proof {
        reveal_strlit(".");
        assert("."@ =~= seq!['.']);
        assert(out@ == with_extension(file_path@, extension@));
    }
    out
}

} // verus!
