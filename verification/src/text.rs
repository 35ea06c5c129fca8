//! Verified text building: decimal rendering for leaderboard lines and
//! the entered-name sanitizer, over trusted views of a handful of
//! `std` character and string primitives.

use vstd::prelude::*;
use vstd::string::StrSliceExecFns;
use crate::{filtered, lemma_filtered_push};

verus! {

/// What `char::is_alphanumeric` returns; the Unicode classes behind it
/// are not restated here.
pub uninterp spec fn alphanumeric_char(c: char) -> bool;

/// What `char::is_whitespace` returns.
pub uninterp spec fn whitespace_char(c: char) -> bool;

/// Relies on char::is_alphanumeric: the result depends on the
/// character alone.
#[verifier::external_body]
pub fn char_is_alphanumeric(c: char) -> (r: bool)
    ensures
        r == alphanumeric_char(c),
{
    c.is_alphanumeric()
}

/// Relies on char::is_whitespace: the result depends on the character
/// alone.
#[verifier::external_body]
pub fn char_is_whitespace(c: char) -> (r: bool)
    ensures
        r == whitespace_char(c),
{
    c.is_whitespace()
}

/// Relies on String::push: appends the one character.
#[verifier::external_body]
pub fn push_char(s: &mut String, c: char)
    ensures
        final(s)@ == old(s)@.push(c),
{
    s.push(c);
}

/// Relies on String::pop: removes and returns the last character.
#[verifier::external_body]
pub fn pop_char(s: &mut String) -> (r: Option<char>)
    ensures
        old(s)@.len() == 0 ==> final(s)@ == old(s)@ && r is None,
        old(s)@.len() > 0 ==> final(s)@ == old(s)@.drop_last() && r == Some(old(s)@.last()),
{
    s.pop()
}

/// The character for one decimal digit.
pub open spec fn digit_char(d: nat) -> char {
    if d == 0 {
        '0'
    } else if d == 1 {
        '1'
    } else if d == 2 {
        '2'
    } else if d == 3 {
        '3'
    } else if d == 4 {
        '4'
    } else if d == 5 {
        '5'
    } else if d == 6 {
        '6'
    } else if d == 7 {
        '7'
    } else if d == 8 {
        '8'
    } else {
        '9'
    }
}

/// The decimal digits of `n`, most significant first.
pub open spec fn dec_rep(n: nat) -> Seq<char>
    decreases n,
{
    if n < 10 {
        seq![digit_char(n)]
    } else {
        dec_rep(n / 10).push(digit_char(n % 10))
    }
}

/// The decimal rendering of `v`, with a leading minus sign when
/// negative.
pub open spec fn int_rep(v: int) -> Seq<char> {
    if v < 0 {
        seq!['-'] + dec_rep((-v) as nat)
    } else {
        dec_rep(v as nat)
    }
}

fn digit_to_char(d: u64) -> (c: char)
    requires
        d < 10,
    ensures
        c == digit_char(d as nat),
{
    match d {
        0 => '0',
        1 => '1',
        2 => '2',
        3 => '3',
        4 => '4',
        5 => '5',
        6 => '6',
        7 => '7',
        8 => '8',
        _ => '9',
    }
}

fn push_dec(s: &mut String, m: u64)
    ensures
        final(s)@ == old(s)@ + dec_rep(m as nat),
    decreases m,
{
    if m >= 10 {
        push_dec(s, m / 10);
        let c = digit_to_char(m % 10);
        push_char(s, c);
        proof {
            assert((old(s)@ + dec_rep((m / 10) as nat)).push(digit_char((m % 10) as nat)) =~= old(
                s,
            )@ + dec_rep(m as nat));
        }
    } else {
        let c = digit_to_char(m);
        push_char(s, c);
        proof {
            assert(old(s)@.push(digit_char(m as nat)) =~= old(s)@ + dec_rep(m as nat));
        }
    }
}

/// Renders an integer in decimal.
pub fn int_to_string(v: i64) -> (r: String)
    requires
        v > i64::MIN,
    ensures
        r@ == int_rep(v as int),
{
    let mut s = String::new();
    if v < 0 {
        push_char(&mut s, '-');
        push_dec(&mut s, (-v) as u64);
        proof {
            assert(Seq::<char>::empty().push('-') + dec_rep((-(v as int)) as nat) =~= seq!['-']
                + dec_rep((-(v as int)) as nat));
        }
    } else {
        push_dec(&mut s, v as u64);
        proof {
            assert(Seq::<char>::empty() + dec_rep(v as nat) =~= dec_rep(v as nat));
        }
    }
    s
}

/// Whether the sanitizer keeps a character: alphanumeric or whitespace.
pub open spec fn kept_char(c: char) -> bool {
    alphanumeric_char(c) || whitespace_char(c)
}

/// Leading whitespace removed.
pub open spec fn trim_front(s: Seq<char>) -> Seq<char>
    decreases s.len(),
{
    if s.len() > 0 && whitespace_char(s[0]) {
        trim_front(s.drop_first())
    } else {
        s
    }
}

/// Trailing whitespace removed.
pub open spec fn trim_back(s: Seq<char>) -> Seq<char>
    decreases s.len(),
{
    if s.len() > 0 && whitespace_char(s.last()) {
        trim_back(s.drop_last())
    } else {
        s
    }
}

/// The sanitized form of an entered name: whitespace trimmed from both
/// ends, then every character that is neither alphanumeric nor
/// whitespace removed.
pub open spec fn sanitized(s: Seq<char>) -> Seq<char> {
    filtered(trim_back(trim_front(s)), |c: char| kept_char(c))
}

proof fn lemma_trim_front_at(s: Seq<char>, j: int)
    requires
        0 <= j <= s.len(),
        forall|k: int| 0 <= k < j ==> whitespace_char(#[trigger] s[k]),
        j == s.len() || !whitespace_char(s[j]),
    ensures
        trim_front(s) == s.subrange(j, s.len() as int),
    decreases j,
{
    if j == 0 {
        assert(s.subrange(0, s.len() as int) =~= s);
    } else {
        assert(whitespace_char(s[0]));
        let d = s.drop_first();
        assert(forall|k: int| 0 <= k < j - 1 ==> whitespace_char(#[trigger] d[k]));
        lemma_trim_front_at(d, j - 1);
        assert(d.subrange(j - 1, d.len() as int) =~= s.subrange(j, s.len() as int));
    }
}

proof fn lemma_trim_back_at(s: Seq<char>, j: int)
    requires
        0 <= j <= s.len(),
        forall|k: int| j <= k < s.len() ==> whitespace_char(#[trigger] s[k]),
        j == 0 || !whitespace_char(s[j - 1]),
    ensures
        trim_back(s) == s.subrange(0, j),
    decreases s.len(),
{
    if j == s.len() {
        if s.len() > 0 {
            assert(!whitespace_char(s.last()));
        }
        assert(s.subrange(0, s.len() as int) =~= s);
    } else {
        assert(whitespace_char(s.last()));
        let d = s.drop_last();
        assert(forall|k: int| j <= k < d.len() ==> whitespace_char(#[trigger] d[k]));
        lemma_trim_back_at(d, j);
        assert(d.subrange(0, j) =~= s.subrange(0, j));
    }
}

/// Sanitizes an entered name: trims whitespace from both ends and
/// keeps only alphanumeric and whitespace characters of the rest.
pub fn sanitize_name(name: &str) -> (r: String)
    ensures
        r@ == sanitized(name@),
{
    let len = name.unicode_len();
    let mut start: usize = 0;
    while start < len && char_is_whitespace(name.get_char(start))
        invariant
            0 <= start <= len == name@.len(),
            forall|k: int| 0 <= k < start ==> whitespace_char(#[trigger] name@[k]),
        decreases len - start,
    {
        start = start + 1;
    }
    let mut end: usize = len;
    while end > start && char_is_whitespace(name.get_char(end - 1))
        invariant
            0 <= start <= end <= len == name@.len(),
            forall|k: int| 0 <= k < start ==> whitespace_char(#[trigger] name@[k]),
            forall|k: int| end <= k < len ==> whitespace_char(#[trigger] name@[k]),
        decreases end,
    {
        end = end - 1;
    }
    let ghost t = name@.subrange(start as int, end as int);
    proof {
        lemma_trim_front_at(name@, start as int);
        let f = name@.subrange(start as int, len as int);
        assert(forall|k: int|
            end - start <= k < f.len() ==> whitespace_char(#[trigger] f[k]));
        if end > start {
            assert(!whitespace_char(f[end - start - 1]));
        }
        lemma_trim_back_at(f, end as int - start as int);
        assert(f.subrange(0, end as int - start as int) =~= t);
    }
    let mut r = String::new();
    let mut i: usize = start;
    while i < end
        invariant
            start <= i <= end <= name@.len(),
            t == name@.subrange(start as int, end as int),
            r@ == filtered(
                name@.subrange(start as int, i as int),
                |c: char| kept_char(c),
            ),
        decreases end - i,
    {
        let c = name.get_char(i);
        proof {
            assert(name@.subrange(start as int, i as int + 1) =~= name@.subrange(
                start as int,
                i as int,
            ).push(name@[i as int]));
            lemma_filtered_push(
                name@.subrange(start as int, i as int),
                |c: char| kept_char(c),
                name@[i as int],
            );
        }
        if char_is_alphanumeric(c) || char_is_whitespace(c) {
            push_char(&mut r, c);
        }
        i = i + 1;
    }
    r
}

} // verus!
