use vstd::prelude::*;

verus! {

/// Character-wise equality of two string slices.
pub fn str_eq(a: &str, b: &str) -> (r: bool)
    ensures
        r == (a@ == b@),
{
    let alen = a.unicode_len();
    let blen = b.unicode_len();
    if alen != blen {
        return false;
    }
    let mut i: usize = 0;
    while i < alen
        invariant
            alen == a@.len(),
            alen == b@.len(),
            i <= alen,
            forall|j: int| 0 <= j < i ==> a@[j] == b@[j],
        decreases alen - i,
    {
        let ca = a.get_char(i);
        let cb = b.get_char(i);
        if ca != cb {
            return false;
        }
        i += 1;
    }
    proof {
        assert(a@ =~= b@);
    }
    true
}

/// What `str::to_lowercase` returns for a given sequence of characters; the
/// result depends on the characters alone.
pub uninterp spec fn lower_of(s: Seq<char>) -> Seq<char>;

/// Relies on str::to_lowercase: its result is a function of the input
/// characters alone (Unicode lowercase mapping), and an empty input stays
/// empty.
#[verifier::external_body]
pub(crate) fn lowercase(s: &str) -> (r: String)
    ensures
        r@ == lower_of(s@),
        s@.len() == 0 ==> r@.len() == 0,
{
    s.to_lowercase()
}

/// The two strings are equal once both are lowercased.
pub open spec fn eq_ignore_case(a: Seq<char>, b: Seq<char>) -> bool {
    lower_of(a) == lower_of(b)
}

/// Last position of `c` in `s`, if any.
fn last_index_of_char(s: &str, c: char) -> (r: Option<usize>)
    ensures
        match r {
            Some(i) => s@.index_of_last(c) == Some(i as int),
            None => s@.index_of_last(c) is None,
        },
{
    let len = s.unicode_len();
    let mut found: Option<usize> = None;
    let mut i: usize = 0;
    while i < len
        invariant
            len == s@.len(),
            i <= len,
            match found {
                Some(k) => k < i && s@[k as int] == c && forall|j: int| k < j < i ==> s@[j] != c,
                None => forall|j: int| 0 <= j < i ==> s@[j] != c,
            },
        decreases len - i,
    {
        if s.get_char(i) == c {
            found = Some(i);
        }
        i += 1;
    }
    proof {
        s@.index_of_last_ensures(c);
    }
    found
}

/// The file-name portion of a path string: everything after the last `/`,
/// or the whole string when it holds no `/`.
pub open spec fn file_name_of(p: Seq<char>) -> Seq<char> {
    match p.index_of_last('/') {
        Some(i) => p.subrange(i + 1, p.len() as int),
        None => p,
    }
}

/// The stem of a file name: the portion before the last `.`, except that a
/// name whose only `.` is its first character keeps the whole name.
pub open spec fn stem_of_name(n: Seq<char>) -> Seq<char> {
    match n.index_of_last('.') {
        Some(i) => if i > 0 {
            n.subrange(0, i)
        } else {
            n
        },
        None => n,
    }
}

/// The filename stem of a path: no directory, no extension.
pub open spec fn stem_of(p: Seq<char>) -> Seq<char> {
    stem_of_name(file_name_of(p))
}

/// The extension of a file name: the portion after the last `.`, absent when
/// the name holds no `.` or its only `.` is its first character.
pub open spec fn extension_of_name(n: Seq<char>) -> Option<Seq<char>> {
    match n.index_of_last('.') {
        Some(i) => if i > 0 {
            Some(n.subrange(i + 1, n.len() as int))
        } else {
            None
        },
        None => None,
    }
}

/// The extension of a path's file name.
pub open spec fn extension_of(p: Seq<char>) -> Option<Seq<char>> {
    extension_of_name(file_name_of(p))
}

/// The file-name portion of `s`, as a borrowed slice.
fn file_name_slice(s: &str) -> (r: &str)
    ensures
        r@ == file_name_of(s@),
{
    let len = s.unicode_len();
    let slash = last_index_of_char(s, '/');
    proof {
        s@.index_of_last_ensures('/');
        if s@.index_of_last('/') is None {
            assert(s@.subrange(0, s@.len() as int) =~= s@);
        }
    }
    let start: usize = match slash {
        Some(i) => i + 1,
        None => 0,
    };
    s.substring_char(start, len)
}

/// The filename stem (no directory, no extension) of a path string.
pub fn path_stem(s: &str) -> (r: String)
    ensures
        r@ == stem_of(s@),
{
    let name = file_name_slice(s);
    let nlen = name.unicode_len();
    let stem_end: usize = match last_index_of_char(name, '.') {
        Some(i) => if i > 0 {
            i
        } else {
            nlen
        },
        None => nlen,
    };
    proof {
        name@.index_of_last_ensures('.');
        if stem_end == nlen {
            assert(name@.subrange(0, nlen as int) =~= name@);
        }
    }
    let st = name.substring_char(0, stem_end);
    String::from_str(st)
}

/// Whether the path's file name has exactly the extension `ext`.
pub fn path_extension_is(s: &str, ext: &str) -> (r: bool)
    ensures
        r == (extension_of(s@) == Some(ext@)),
{
    let name = file_name_slice(s);
    let nlen = name.unicode_len();
    match last_index_of_char(name, '.') {
        Some(i) => {
            proof {
                name@.index_of_last_ensures('.');
            }
            if i > 0 {
                let e = name.substring_char(i + 1, nlen);
                str_eq(e, ext)
            } else {
                false
            }
        },
        None => false,
    }
}

/// `needle` occurs contiguously inside `hay`.
pub open spec fn contains_seq(hay: Seq<char>, needle: Seq<char>) -> bool {
    exists|i: int|
        0 <= i <= hay.len() - needle.len() && #[trigger] hay.subrange(i, i + needle.len() as int)
            == needle
}

/// Substring search: whether `needle` occurs contiguously inside `hay`.
pub fn str_contains(hay: &str, needle: &str) -> (r: bool)
    ensures
        r == contains_seq(hay@, needle@),
{
    let hlen = hay.unicode_len();
    let nlen = needle.unicode_len();
    if nlen > hlen {
        return false;
    }
    if nlen == 0 {
        proof {
            assert(hay@.subrange(0, 0 + needle@.len() as int) =~= needle@);
        }
        return true;
    }
    let mut i: usize = 0;
    while i <= hlen - nlen
        invariant
            hlen == hay@.len(),
            nlen == needle@.len(),
            1 <= nlen <= hlen,
            i <= hlen - nlen + 1,
            forall|j: int|
                0 <= j < i ==> #[trigger] hay@.subrange(j, j + needle@.len() as int) != needle@,
        decreases hlen - nlen - i + 1,
    {
        let sub = hay.substring_char(i, i + nlen);
        if str_eq(sub, needle) {
            proof {
                assert(hay@.subrange(i as int, i as int + needle@.len() as int) == needle@);
            }
            return true;
        }
        i += 1;
    }
    false
}

} // verus!
