//! Text helpers: white space, substrings, case, decimal numbers and joined lines.
//!
//! A string is modelled by the sequence of its characters.

use vstd::prelude::*;
use vstd::string::*;
use vstd::utf8::*;

verus! {

/// The views of the items of a sequence, in order.
pub open spec fn views<T: View>(items: Seq<T>) -> Seq<T::V> {
    items.map_values(|item: T| item@)
}

/// The characters of an optional string.
pub open spec fn text_view(text: Option<String>) -> Option<Seq<char>> {
    match text {
        Some(chars) => Some(chars@),
        None => None,
    }
}

/// Copies an optional string slice.
pub fn owned(text: Option<&str>) -> (copy: Option<String>)
    ensures
        match text {
            Some(chars) => text_view(copy) == Some(chars@),
            None => text_view(copy) is None,
        },
{
    match text {
        Some(chars) => Some(chars.to_string()),
        None => None,
    }
}

/// Viewing commutes with appending one item.
pub proof fn lemma_views_push<T: View>(items: Seq<T>, item: T)
    ensures
        views(items.push(item)) == views(items).push(item@),
{
    assert(views(items.push(item)) =~= views(items).push(item@));
}

/// Filtering commutes with appending one item.
pub proof fn lemma_filter_push<T>(items: Seq<T>, item: T, keep: spec_fn(T) -> bool)
    ensures
        items.push(item).filter(keep) == if keep(item) {
            items.filter(keep).push(item)
        } else {
            items.filter(keep)
        },
{
    reveal(Seq::filter);
    assert(items.push(item).drop_last() =~= items);
}

/// The characters with the Unicode property `White_Space`.
pub open spec fn is_white_space(c: char) -> bool {
    let n = c as u32;
    ||| 0x09 <= n <= 0x0d
    ||| n == 0x20
    ||| n == 0x85
    ||| n == 0xa0
    ||| n == 0x1680
    ||| 0x2000 <= n <= 0x200a
    ||| n == 0x2028
    ||| n == 0x2029
    ||| n == 0x202f
    ||| n == 0x205f
    ||| n == 0x3000
}

/// Whether every character of `s` is white space.
pub open spec fn blank(s: Seq<char>) -> bool {
    forall|i: int| 0 <= i < s.len() ==> is_white_space(#[trigger] s[i])
}

/// Whether `t` is what remains of `s` without its leading and trailing white space.
pub open spec fn is_trim_of(t: Seq<char>, s: Seq<char>) -> bool {
    exists|from: int, to: int|
        {
            &&& 0 <= from <= to <= s.len()
            &&& t == #[trigger] s.subrange(from, to)
            &&& blank(s.subrange(0, from))
            &&& blank(s.subrange(to, s.len() as int))
            &&& from < to ==> !is_white_space(s[from]) && !is_white_space(s[to - 1])
        }
}

/// `str::trim` removes the leading and the trailing characters that have the
/// Unicode property `White_Space`, and nothing else.
pub assume_specification[ str::trim ](s: &str) -> (t: &str)
    ensures
        is_trim_of(t@, s@),
;

/// Whether `s` holds nothing but white space.
pub fn is_blank(s: &str) -> (result: bool)
    ensures
        result == blank(s@),
{
    let rest = s.trim();
    proof {
        let (from, to) = choose|from: int, to: int|
            {
                &&& 0 <= from <= to <= s@.len()
                &&& rest@ == #[trigger] s@.subrange(from, to)
                &&& blank(s@.subrange(0, from))
                &&& blank(s@.subrange(to, s@.len() as int))
                &&& from < to ==> !is_white_space(s@[from]) && !is_white_space(s@[to - 1])
            };
        if from == to {
            assert forall|i: int| 0 <= i < s@.len() implies is_white_space(#[trigger] s@[i]) by {
                if i < from {
                    assert(s@.subrange(0, from)[i] == s@[i]);
                } else {
                    assert(s@.subrange(to, s@.len() as int)[i - to] == s@[i]);
                }
            }
        } else {
            assert(!is_white_space(s@[from]));
        }
    }
    rest.is_empty()
}

/// Whether `needle` occurs in `s` as a run of consecutive characters.
pub open spec fn occurs_in(needle: Seq<char>, s: Seq<char>) -> bool {
    exists|at: int|
        0 <= at && at + needle.len() <= s.len() && #[trigger] s.subrange(at, at + needle.len())
            == needle
}

/// `str::contains` with a string pattern: true exactly when the pattern matches a
/// sub-slice of the string.
#[verifier::external_body]
pub(crate) fn contains(s: &str, needle: &str) -> (result: bool)
    ensures
        result == occurs_in(needle@, s@),
{
    s.contains(needle)
}

/// The lowercase equivalent of a string, as the Unicode tables give it.
pub uninterp spec fn lowercase(s: Seq<char>) -> Seq<char>;

/// One character with `A` to `Z` mapped to `a` to `z`.
pub open spec fn ascii_lowercase_char(c: char) -> char {
    if 'A' <= c && c <= 'Z' {
        (c as u32 + 32) as char
    } else {
        c
    }
}

/// A string with `A` to `Z` mapped to `a` to `z`.
pub open spec fn ascii_lowercase(s: Seq<char>) -> Seq<char> {
    s.map_values(|c: char| ascii_lowercase_char(c))
}

/// `str::to_lowercase` is a function of the characters alone; on a string of ASCII
/// characters it maps `A` to `Z` to `a` to `z` and keeps the rest.
pub assume_specification[ str::to_lowercase ](s: &str) -> (lowered: String)
    ensures
        lowered@ == lowercase(s@),
        is_ascii_chars(s@) ==> lowered@ == ascii_lowercase(s@),
;

/// Whether two strings hold the same characters.
pub fn same_text(a: &str, b: &str) -> (result: bool)
    ensures
        result == (a@ == b@),
{
    a.to_string() == b.to_string()
}

/// The decimal digit of a number below ten.
pub open spec fn digit(d: nat) -> Seq<char> {
    if d == 0 {
        "0"@
    } else if d == 1 {
        "1"@
    } else if d == 2 {
        "2"@
    } else if d == 3 {
        "3"@
    } else if d == 4 {
        "4"@
    } else if d == 5 {
        "5"@
    } else if d == 6 {
        "6"@
    } else if d == 7 {
        "7"@
    } else if d == 8 {
        "8"@
    } else {
        "9"@
    }
}

/// A number in decimal, without leading zeros.
pub open spec fn decimal(n: nat) -> Seq<char>
    decreases n,
{
    if n < 10 {
        digit(n)
    } else {
        decimal(n / 10) + digit(n % 10)
    }
}

fn digit_text(d: usize) -> (text: &'static str)
    requires
        d < 10,
    ensures
        text@ == digit(d as nat),
{
    match d {
        0 => "0",
        1 => "1",
        2 => "2",
        3 => "3",
        4 => "4",
        5 => "5",
        6 => "6",
        7 => "7",
        8 => "8",
        _ => "9",
    }
}

/// Writes a number in decimal.
pub fn decimal_text(n: usize) -> (text: String)
    ensures
        text@ == decimal(n as nat),
    decreases n,
{
    if n < 10 {
        digit_text(n).to_string()
    } else {
        let mut text = decimal_text(n / 10);
        text.append(digit_text(n % 10));
        text
    }
}

/// The items with `separator` between each two of them.
pub open spec fn joined(items: Seq<Seq<char>>, separator: Seq<char>) -> Seq<char>
    decreases items.len(),
{
    if items.len() == 0 {
        Seq::empty()
    } else if items.len() == 1 {
        items.last()
    } else {
        joined(items.drop_last(), separator) + separator + items.last()
    }
}

/// Joins strings with `separator` between each two of them.
pub fn join(items: &Vec<String>, separator: &str) -> (text: String)
    ensures
        text@ == joined(views(items@), separator@),
{
    let mut text = String::new();
    let mut i: usize = 0;
    while i < items.len()
        invariant
            i <= items.len(),
            text@ == joined(views(items@.take(i as int)), separator@),
        decreases items.len() - i,
    {
        if i > 0 {
            text.append(separator);
        }
        text.append(items[i].as_str());
        proof {
            let done = views(items@.take(i as int));
            let next = views(items@.take(i + 1));
            assert(next.drop_last() =~= done);
            assert(next.last() == items@[i as int]@);
            assert(next.len() == i + 1);
            if i == 0 {
                assert(text@ =~= items@[0]@);
            }
        }
        i += 1;
    }
    assert(items@.take(items.len() as int) =~= items@);
    text
}

} // verus!
