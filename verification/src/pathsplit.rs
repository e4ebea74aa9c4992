//! Full-path decomposition.
//!
//! A full path splits at its last separator (`/` or `\`, so that paths from
//! either path convention decompose alike) into a directory prefix and a file
//! name. A path without a separator has an empty directory and is its own
//! file name, so decomposition never fails. The extension is the substring
//! of the file name after its last dot; a file name without a dot, or whose
//! only dot leads it, has the empty extension.

use vstd::prelude::*;

verus! {

pub open spec fn is_separator(c: char) -> bool {
    c == '/' || c == '\\'
}

/// Index of the last separator in `s`, `-1` if there is none.
pub open spec fn last_sep_index(s: Seq<char>) -> int
    decreases s.len(),
{
    if s.len() == 0 {
        -1
    } else if is_separator(s[s.len() - 1]) {
        s.len() - 1
    } else {
        last_sep_index(s.drop_last())
    }
}

/// Index of the last `'.'` in `s`, `-1` if there is none.
pub open spec fn last_dot_index(s: Seq<char>) -> int
    decreases s.len(),
{
    if s.len() == 0 {
        -1
    } else if s[s.len() - 1] == '.' {
        s.len() - 1
    } else {
        last_dot_index(s.drop_last())
    }
}

/// The directory part of a full path: everything before the last separator,
/// empty when there is none.
pub open spec fn directory_seq(s: Seq<char>) -> Seq<char> {
    let i = last_sep_index(s);
    if i < 0 {
        Seq::empty()
    } else {
        s.subrange(0, i)
    }
}

/// The file-name part of a full path: everything after the last separator,
/// the whole path when there is none.
pub open spec fn file_name_seq(s: Seq<char>) -> Seq<char> {
    let i = last_sep_index(s);
    if i < 0 {
        s
    } else {
        s.subrange(i + 1, s.len() as int)
    }
}

/// The extension of a file name: everything after the last dot, provided
/// that dot is preceded by at least one character; empty otherwise.
pub open spec fn extension_seq(f: Seq<char>) -> Seq<char> {
    let i = last_dot_index(f);
    if i <= 0 {
        Seq::empty()
    } else {
        f.subrange(i + 1, f.len() as int)
    }
}

/// `last_sep_index` names the last separator: it is in range, it is a
/// separator, and nothing after it is one; `-1` exactly on separator-free
/// sequences.
pub proof fn lemma_last_sep_index(s: Seq<char>)
    ensures
        -1 <= last_sep_index(s) < s.len(),
        last_sep_index(s) >= 0 ==> is_separator(s[last_sep_index(s)]),
        forall|j: int| last_sep_index(s) < j < s.len() ==> !is_separator(#[trigger] s[j]),
    decreases s.len(),
{
    if s.len() == 0 {
    } else if is_separator(s[s.len() - 1]) {
    } else {
        lemma_last_sep_index(s.drop_last());
        assert forall|j: int| last_sep_index(s) < j < s.len() implies !is_separator(
            #[trigger] s[j],
        ) by {
            if j < s.len() - 1 {
                assert(s.drop_last()[j] == s[j]);
            }
        }
    }
}

proof fn lemma_index_is_last_sep(s: Seq<char>, k: int)
    requires
        0 <= k < s.len(),
        is_separator(s[k]),
        forall|j: int| k < j < s.len() ==> !is_separator(#[trigger] s[j]),
    ensures
        last_sep_index(s) == k,
    decreases s.len(),
{
    if k == s.len() - 1 {
    } else {
        assert(!is_separator(s[s.len() - 1]));
        assert(forall|j: int|
            0 <= j < s.len() - 1 ==> #[trigger] s.drop_last()[j] == s[j]);
        lemma_index_is_last_sep(s.drop_last(), k);
    }
}

proof fn lemma_no_sep(s: Seq<char>)
    requires
        forall|j: int| 0 <= j < s.len() ==> !is_separator(#[trigger] s[j]),
    ensures
        last_sep_index(s) == -1,
    decreases s.len(),
{
    if s.len() > 0 {
        assert(forall|j: int|
            0 <= j < s.len() - 1 ==> #[trigger] s.drop_last()[j] == s[j]);
        lemma_no_sep(s.drop_last());
    }
}

proof fn lemma_index_is_last_dot(s: Seq<char>, k: int)
    requires
        0 <= k < s.len(),
        s[k] == '.',
        forall|j: int| k < j < s.len() ==> #[trigger] s[j] != '.',
    ensures
        last_dot_index(s) == k,
    decreases s.len(),
{
    if k == s.len() - 1 {
    } else {
        assert(s[s.len() - 1] != '.');
        assert(forall|j: int|
            0 <= j < s.len() - 1 ==> #[trigger] s.drop_last()[j] == s[j]);
        lemma_index_is_last_dot(s.drop_last(), k);
    }
}

proof fn lemma_no_dot(s: Seq<char>)
    requires
        forall|j: int| 0 <= j < s.len() ==> #[trigger] s[j] != '.',
    ensures
        last_dot_index(s) == -1,
    decreases s.len(),
{
    if s.len() > 0 {
        assert(forall|j: int|
            0 <= j < s.len() - 1 ==> #[trigger] s.drop_last()[j] == s[j]);
        lemma_no_dot(s.drop_last());
    }
}

/// Putting the separator back between the parts restores the path: for any
/// path with a separator, `directory + separator + file_name` is the path
/// itself.
pub proof fn lemma_decomposition_round_trip(s: Seq<char>)
    requires
        last_sep_index(s) >= 0,
    ensures
        directory_seq(s) + seq![s[last_sep_index(s)]] + file_name_seq(s) == s,
{
    lemma_last_sep_index(s);
    assert(directory_seq(s) + seq![s[last_sep_index(s)]] + file_name_seq(s) =~= s);
}

/// A separator-free path is all file name: its directory is empty and its
/// file name is the whole path.
pub proof fn lemma_no_separator_decomposition(s: Seq<char>)
    requires
        last_sep_index(s) < 0,
    ensures
        directory_seq(s) == Seq::<char>::empty(),
        file_name_seq(s) == s,
{
}

/// Splits a full path at its last separator into `(directory, file_name)`.
pub fn split_full_path(path: &str) -> (r: (String, String))
    ensures
        r.0@ == directory_seq(path@),
        r.1@ == file_name_seq(path@),
{
    let len = path.unicode_len();
    let mut i = len;
    while i > 0
        invariant
            i <= len,
            len == path@.len(),
            forall|j: int| i <= j < len ==> !is_separator(#[trigger] path@[j]),
        decreases i,
    {
        let c = path.get_char(i - 1);
        if c == '/' || c == '\\' {
            proof {
                lemma_index_is_last_sep(path@, i - 1);
            }
            let dir = path.substring_char(0, i - 1);
            let name = path.substring_char(i, len);
            return (String::from_str(dir), String::from_str(name));
        }
        i = i - 1;
    }
    proof {
        lemma_no_sep(path@);
    }
    (String::new(), String::from_str(path))
}

/// The extension of a file name: the substring after its last dot, empty
/// when there is no dot or the only dot is the leading character.
pub fn extension_of_file_name(file_name: &str) -> (r: String)
    ensures
        r@ == extension_seq(file_name@),
{
    let len = file_name.unicode_len();
    let mut i = len;
    while i > 0
        invariant
            i <= len,
            len == file_name@.len(),
            forall|j: int| i <= j < len ==> #[trigger] file_name@[j] != '.',
        decreases i,
    {
        let c = file_name.get_char(i - 1);
        if c == '.' {
            proof {
                lemma_index_is_last_dot(file_name@, i - 1);
            }
            if i - 1 == 0 {
                return String::new();
            }
            let ext = file_name.substring_char(i, len);
            return String::from_str(ext);
        }
        i = i - 1;
    }
    proof {
        lemma_no_dot(file_name@);
    }
    String::new()
}

} // verus!
