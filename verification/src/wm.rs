use crate::text::{contains_seq, str_contains};
use vstd::prelude::*;

verus! {

/// The quoted strings of `s`, left to right: each element is the text between
/// one pair of double quotes, and an unpaired final quote contributes nothing.
pub open spec fn quoted_of(s: Seq<char>) -> Seq<Seq<char>>
    decreases s.len(),
{
    if s.len() == 0 {
        Seq::empty()
    } else if s[0] == '"' {
        quoted_open(s.drop_first(), Seq::empty())
    } else {
        quoted_of(s.drop_first())
    }
}

/// Inside an open quote: accumulate `cur` until the closing quote, then
/// continue scanning for further quoted strings.
pub open spec fn quoted_open(s: Seq<char>, cur: Seq<char>) -> Seq<Seq<char>>
    decreases s.len(),
{
    if s.len() == 0 {
        Seq::empty()
    } else if s[0] == '"' {
        seq![cur] + quoted_of(s.drop_first())
    } else {
        quoted_open(s.drop_first(), cur.push(s[0]))
    }
}

/// Relies on regex::Regex: with the pattern `"([^"]*)"`, `captures_iter`
/// yields the successive non-overlapping matches from left to right, and the
/// single capture group of each match holds the text between one pair of
/// double quotes.
#[verifier::external_body]
fn quoted_captures(s: &str) -> (r: Vec<String>)
    ensures
        r@.len() == quoted_of(s@).len(),
        forall|i: int| 0 <= i < r@.len() ==> r@[i]@ == quoted_of(s@)[i],
{
    let re = regex::Regex::new("\"([^\"]*)\"").unwrap();
    re.captures_iter(s).map(|c| c[1].to_string()).collect()
}

/// The class identifier in one `WM_CLASS` report: the second quoted string,
/// which the running-window enumeration resolves against the catalog.
pub fn window_class_name(s: &str) -> (r: Option<String>)
    ensures
        match r {
            Some(n) => quoted_of(s@).len() >= 2 && n@ == quoted_of(s@)[1],
            None => quoted_of(s@).len() < 2,
        },
{
    let caps = quoted_captures(s);
    if caps.len() >= 2 {
        Some(caps[1].clone())
    } else {
        None
    }
}

/// The instance identifier in one `WM_CLASS` report: the first quoted string,
/// which the foreground resolution resolves against the catalog.
pub fn window_instance_name(s: &str) -> (r: Option<String>)
    ensures
        match r {
            Some(n) => quoted_of(s@).len() >= 1 && n@ == quoted_of(s@)[0],
            None => quoted_of(s@).len() == 0,
        },
{
    let caps = quoted_captures(s);
    if caps.len() >= 1 {
        Some(caps[0].clone())
    } else {
        None
    }
}

/// The whitespace characters that separate fields in the introspection tools'
/// line-oriented output.
pub open spec fn is_space_char(c: char) -> bool {
    c == ' ' || c == '\t' || c == '\n' || c == '\r'
}

fn is_space(c: char) -> (r: bool)
    ensures
        r == is_space_char(c),
{
    c == ' ' || c == '\t' || c == '\n' || c == '\r'
}

/// The maximal run of non-space characters at the head of `s`.
pub open spec fn token_head(s: Seq<char>) -> Seq<char>
    decreases s.len(),
{
    if s.len() == 0 || is_space_char(s[0]) {
        Seq::empty()
    } else {
        seq![s[0]] + token_head(s.drop_first())
    }
}

/// The first whitespace-separated field of `s`; empty when `s` holds none.
pub open spec fn first_token_of(s: Seq<char>) -> Seq<char>
    decreases s.len(),
{
    if s.len() == 0 {
        s
    } else if is_space_char(s[0]) {
        first_token_of(s.drop_first())
    } else {
        token_head(s)
    }
}

/// The first whitespace-separated field of a line, such as the window id at
/// the head of one window-list line; empty when the line holds no field.
pub fn first_token(s: &str) -> (r: String)
    ensures
        r@ == first_token_of(s@),
{
    let len = s.unicode_len();
    let mut start: usize = 0;
    proof {
        assert(s@.skip(0) =~= s@);
    }
    while start < len && is_space(s.get_char(start))
        invariant
            len == s@.len(),
            start <= len,
            first_token_of(s@) == first_token_of(s@.skip(start as int)),
        decreases len - start,
    {
        proof {
            assert(s@.skip(start as int).drop_first() =~= s@.skip(start as int + 1));
        }
        start += 1;
    }
    let mut end: usize = start;
    proof {
        assert(s@.subrange(start as int, start as int) + token_head(s@.skip(start as int))
            =~= token_head(s@.skip(start as int)));
    }
    while end < len && !is_space(s.get_char(end))
        invariant
            len == s@.len(),
            start <= end <= len,
            token_head(s@.skip(start as int)) == s@.subrange(start as int, end as int)
                + token_head(s@.skip(end as int)),
        decreases len - end,
    {
        proof {
            assert(s@.skip(end as int).drop_first() =~= s@.skip(end as int + 1));
            assert(s@.subrange(start as int, end as int) + (seq![s@[end as int]] + token_head(
                s@.skip(end as int + 1),
            )) =~= s@.subrange(start as int, end as int + 1) + token_head(s@.skip(end as int + 1)));
        }
        end += 1;
    }
    proof {
        assert(token_head(s@.skip(end as int)) =~= Seq::<char>::empty());
        assert(s@.subrange(start as int, end as int) + Seq::<char>::empty() =~= s@.subrange(
            start as int,
            end as int,
        ));
        if start == len {
            assert(first_token_of(s@.skip(start as int)) =~= s@.subrange(
                start as int,
                end as int,
            ));
        }
    }
    let tok = s.substring_char(start, end);
    String::from_str(tok)
}

/// The maximal run of non-space characters at the tail of `s`.
pub open spec fn token_tail(s: Seq<char>) -> Seq<char>
    decreases s.len(),
{
    if s.len() == 0 || is_space_char(s.last()) {
        Seq::empty()
    } else {
        token_tail(s.drop_last()).push(s.last())
    }
}

/// The last whitespace-separated field of `s`, absent when `s` holds none.
pub open spec fn last_token_of(s: Seq<char>) -> Option<Seq<char>>
    decreases s.len(),
{
    if s.len() == 0 {
        None
    } else if is_space_char(s.last()) {
        last_token_of(s.drop_last())
    } else {
        Some(token_tail(s))
    }
}

/// The last whitespace-separated field of a report, such as the window id at
/// the tail of the foreground-window report; absent when it holds no field.
pub fn last_token(s: &str) -> (r: Option<String>)
    ensures
        match r {
            Some(t) => last_token_of(s@) == Some(t@),
            None => last_token_of(s@) is None,
        },
{
    let len = s.unicode_len();
    let mut end: usize = len;
    proof {
        assert(s@.take(len as int) =~= s@);
    }
    while end > 0 && is_space(s.get_char(end - 1))
        invariant
            len == s@.len(),
            end <= len,
            last_token_of(s@) == last_token_of(s@.take(end as int)),
        decreases end,
    {
        proof {
            assert(s@.take(end as int).drop_last() =~= s@.take(end as int - 1));
        }
        end -= 1;
    }
    if end == 0 {
        return None;
    }
    let mut start: usize = end;
    proof {
        assert(token_tail(s@.take(end as int)) + s@.subrange(end as int, end as int) =~= token_tail(
            s@.take(end as int),
        ));
    }
    while start > 0 && !is_space(s.get_char(start - 1))
        invariant
            len == s@.len(),
            start <= end <= len,
            token_tail(s@.take(end as int)) == token_tail(s@.take(start as int)) + s@.subrange(
                start as int,
                end as int,
            ),
        decreases start,
    {
        proof {
            assert(s@.take(start as int).drop_last() =~= s@.take(start as int - 1));
            assert((token_tail(s@.take(start as int - 1)).push(s@[start as int - 1])) + s@.subrange(
                start as int,
                end as int,
            ) =~= token_tail(s@.take(start as int - 1)) + s@.subrange(start as int - 1, end as int));
        }
        start -= 1;
    }
    proof {
        assert(token_tail(s@.take(start as int)) =~= Seq::<char>::empty());
        assert(Seq::<char>::empty() + s@.subrange(start as int, end as int) =~= s@.subrange(
            start as int,
            end as int,
        ));
    }
    let tok = s.substring_char(start, end);
    Some(String::from_str(tok))
}

/// Whether one window's type report marks it as a normal window.
pub fn is_normal_window(xprop_output: &str) -> (r: bool)
    ensures
        r == contains_seq(xprop_output@, "_NET_WM_WINDOW_TYPE_NORMAL"@),
{
    str_contains(xprop_output, "_NET_WM_WINDOW_TYPE_NORMAL")
}

} // verus!
