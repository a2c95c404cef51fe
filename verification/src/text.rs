//! Text handling over Unicode scalar values.

use vstd::prelude::*;
use vstd::string::*;

verus! {

/// `String::push` appends one character to the end of the string.
pub assume_specification[ String::push ](s: &mut String, c: char)
    ensures
        final(s)@ == old(s)@.push(c),
;

/// The characters of `s`, in order.
pub fn chars_of(s: &str) -> (v: Vec<char>)
    ensures
        v@ == s@,
{
    let mut v: Vec<char> = Vec::new();
    for c in it: s.chars()
        invariant
            v@ == it.seq().take(it.index() as int),
            it.seq() == s@,
    {
        v.push(c);
    }
    v
}

/// The string made of the characters from `from` up to, not including, `to`.
pub fn string_range(v: &Vec<char>, from: usize, to: usize) -> (s: String)
    requires
        from <= to <= v.len(),
    ensures
        s@ == v@.subrange(from as int, to as int),
{
    let mut s = String::new();
    let mut i: usize = from;
    while i < to
        invariant
            from <= i <= to <= v.len(),
            s@ == v@.subrange(from as int, i as int),
        decreases to - i,
    {
        s.push(v[i]);
        i = i + 1;
        assert(s@ =~= v@.subrange(from as int, i as int));
    }
    s
}

/// Whether two strings hold the same characters.
pub fn str_eq(a: &str, b: &str) -> (r: bool)
    ensures
        r == (a@ == b@),
{
    let x = chars_of(a);
    let y = chars_of(b);
    if x.len() != y.len() {
        return false;
    }
    let mut i: usize = 0;
    while i < x.len()
        invariant
            i <= x.len(),
            x.len() == y.len(),
            x@ == a@,
            y@ == b@,
            forall|j: int| 0 <= j < i ==> a@[j] == b@[j],
        decreases x.len() - i,
    {
        if x[i] != y[i] {
            return false;
        }
        i = i + 1;
    }
    assert(a@ =~= b@);
    true
}


/// Lowercase form of a text, as the Unicode tables of the standard library give it.
pub uninterp spec fn lowercase(s: Seq<char>) -> Seq<char>;

/// Uppercase form of a text, as the Unicode tables of the standard library give it.
pub uninterp spec fn uppercase(s: Seq<char>) -> Seq<char>;

/// Whether every character is an ASCII one.
pub open spec fn ascii_text(s: Seq<char>) -> bool {
    forall|i: int| 0 <= i < s.len() ==> ((#[trigger] s[i]) as int) < 128
}

pub open spec fn ascii_lower(c: char) -> char {
    if 'A' <= c && c <= 'Z' {
        (c as int + 32) as char
    } else {
        c
    }
}

pub open spec fn ascii_upper(c: char) -> char {
    if 'a' <= c && c <= 'z' {
        (c as int - 32) as char
    } else {
        c
    }
}

/// `str::to_lowercase`: a function of the characters alone; on ASCII text it maps `A`..`Z`
/// to `a`..`z` and leaves the rest as it is.
pub assume_specification[ str::to_lowercase ](s: &str) -> (r: String)
    ensures
        r@ == lowercase(s@),
        ascii_text(s@) ==> r@ == s@.map_values(|c: char| ascii_lower(c)),
;

/// `str::to_uppercase`: a function of the characters alone; on ASCII text it maps `a`..`z`
/// to `A`..`Z` and leaves the rest as it is.
pub assume_specification[ str::to_uppercase ](s: &str) -> (r: String)
    ensures
        r@ == uppercase(s@),
        ascii_text(s@) ==> r@ == s@.map_values(|c: char| ascii_upper(c)),
;

/// Whether `needle` stands in `hay` at position `i`.
pub open spec fn occurs_at(hay: Seq<char>, needle: Seq<char>, i: int) -> bool {
    0 <= i && i + needle.len() <= hay.len() && hay.subrange(i, i + needle.len()) == needle
}

/// Whether `needle` stands anywhere in `hay`.
pub open spec fn has_text(hay: Seq<char>, needle: Seq<char>) -> bool {
    exists|i: int| occurs_at(hay, needle, i)
}

fn occurs_at_exec(hay: &Vec<char>, needle: &Vec<char>, at: usize) -> (r: bool)
    ensures
        r == occurs_at(hay@, needle@, at as int),
{
    if at > hay.len() || needle.len() > hay.len() - at {
        return false;
    }
    let mut i: usize = 0;
    while i < needle.len()
        invariant
            i <= needle.len(),
            at + needle.len() <= hay.len(),
            forall|j: int| 0 <= j < i ==> hay@[at + j] == needle@[j],
        decreases needle.len() - i,
    {
        if hay[at + i] != needle[i] {
            proof {
                assert(hay@.subrange(at as int, at + needle.len())[i as int] != needle@[i as int]);
            }
            return false;
        }
        i = i + 1;
    }
    assert(hay@.subrange(at as int, at + needle.len()) =~= needle@);
    true
}

/// Whether `needle` stands anywhere in `hay`.
pub fn contains_text(hay: &str, needle: &str) -> (r: bool)
    ensures
        r == has_text(hay@, needle@),
{
    let h = chars_of(hay);
    let n = chars_of(needle);
    let mut i: usize = 0;
    while i < h.len()
        invariant
            i <= h.len(),
            h@ == hay@,
            n@ == needle@,
            forall|j: int| 0 <= j < i ==> !occurs_at(hay@, needle@, j),
        decreases h.len() - i,
    {
        if occurs_at_exec(&h, &n, i) {
            return true;
        }
        i = i + 1;
    }
    let r = occurs_at_exec(&h, &n, i);
    proof {
        if !r {
            assert forall|j: int| !occurs_at(hay@, needle@, j) by {
                if 0 <= j < i {
                } else if j == i {
                } else {
                }
            }
        }
    }
    r
}

/// Whether `s` begins with `prefix`.
pub fn starts_with_text(s: &str, prefix: &str) -> (r: bool)
    ensures
        r == occurs_at(s@, prefix@, 0),
{
    let h = chars_of(s);
    let n = chars_of(prefix);
    occurs_at_exec(&h, &n, 0)
}

/// What follows the last `c` of a text, or the whole text where there is none.
pub open spec fn after_last(s: Seq<char>, c: char) -> Seq<char>
    decreases s.len(),
{
    if s.len() == 0 || s.last() == c {
        Seq::empty()
    } else {
        after_last(s.drop_last(), c).push(s.last())
    }
}

/// What follows the last `c` of a text, or the whole text where there is none.
pub fn last_segment(s: &str, c: char) -> (r: String)
    ensures
        r@ == after_last(s@, c),
{
    let v = chars_of(s);
    let mut i: usize = v.len();
    proof {
        assert(v@.take(i as int) =~= v@);
        assert(v@.subrange(i as int, v@.len() as int) =~= Seq::<char>::empty());
        assert(after_last(v@, c) =~= after_last(v@, c) + v@.subrange(i as int, v@.len() as int));
    }
    while i > 0 && v[i - 1] != c
        invariant
            i <= v.len(),
            v@ == s@,
            after_last(s@, c) == after_last(v@.take(i as int), c) + v@.subrange(
                i as int,
                v@.len() as int,
            ),
        decreases i,
    {
        proof {
            let t = v@.take(i as int);
            assert(t.drop_last() =~= v@.take(i - 1));
            assert(after_last(t, c) + v@.subrange(i as int, v@.len() as int) =~= after_last(
                v@.take(i - 1),
                c,
            ) + v@.subrange(i - 1, v@.len() as int));
        }
        i = i - 1;
    }
    proof {
        let t = v@.take(i as int);
        assert(after_last(t, c) =~= Seq::<char>::empty());
        assert(after_last(s@, c) =~= v@.subrange(i as int, v@.len() as int));
    }
    string_range(&v, i, v.len())
}

/// What follows the last `c` of `a + [c] + b` is `b`, where `b` holds no `c`.
pub proof fn law_after_last_of_join(a: Seq<char>, c: char, b: Seq<char>)
    requires
        !b.contains(c),
    ensures
        after_last(a.push(c) + b, c) == b,
    decreases b.len(),
{
    let s = a.push(c) + b;
    if b.len() == 0 {
        assert(s =~= a.push(c));
    } else {
        let p = b.drop_last();
        assert(s.drop_last() =~= a.push(c) + p);
        assert(s.last() == b.last());
        assert(b.contains(b.last()));
        assert(!p.contains(c)) by {
            if p.contains(c) {
                let k = choose|k: int| 0 <= k < p.len() && p[k] == c;
                assert(b[k] == c);
            }
        }
        law_after_last_of_join(a, c, p);
        assert(p.push(b.last()) =~= b);
    }
}

// ── Decimal integers ──

pub open spec fn is_digit(c: char) -> bool {
    '0' <= c && c <= '9'
}

pub open spec fn all_digits(s: Seq<char>) -> bool {
    forall|i: int| 0 <= i < s.len() ==> is_digit(#[trigger] s[i])
}

/// The number that a run of decimal digits denotes.
pub open spec fn digits_value(s: Seq<char>) -> int
    decreases s.len(),
{
    if s.len() == 0 {
        0
    } else {
        10 * digits_value(s.drop_last()) + (s.last() as int - '0' as int)
    }
}

/// The integer that a text denotes: an optional sign (`-` only where `signed`), then at
/// least one digit, and nothing else.
pub open spec fn integer_value(s: Seq<char>, signed: bool) -> Option<int> {
    let negative = signed && s.len() > 0 && s[0] == '-';
    let body = if s.len() > 0 && (s[0] == '+' || negative) {
        s.skip(1)
    } else {
        s
    };
    if body.len() == 0 || !all_digits(body) {
        None
    } else if negative {
        Some(-digits_value(body))
    } else {
        Some(digits_value(body))
    }
}

/// `integer_value`, refused where it lies outside `lo..=hi`.
pub open spec fn integer_within(s: Seq<char>, signed: bool, lo: int, hi: int) -> Option<int> {
    match integer_value(s, signed) {
        Some(v) => if lo <= v <= hi {
            Some(v)
        } else {
            None
        },
        None => None,
    }
}

proof fn lemma_digits_value_nonneg(s: Seq<char>)
    requires
        all_digits(s),
    ensures
        digits_value(s) >= 0,
    decreases s.len(),
{
    if s.len() > 0 {
        assert forall|i: int| 0 <= i < s.drop_last().len() implies is_digit(
            #[trigger] s.drop_last()[i],
        ) by {
            assert(s.drop_last()[i] == s[i]);
        }
        lemma_digits_value_nonneg(s.drop_last());
        assert(is_digit(s[s.len() - 1]));
    }
}

proof fn lemma_digits_value_prefix(s: Seq<char>, k: int)
    requires
        all_digits(s),
        0 <= k <= s.len(),
    ensures
        digits_value(s.take(k)) <= digits_value(s),
    decreases s.len(),
{
    if k == s.len() {
        assert(s.take(k) =~= s);
    } else {
        let p = s.drop_last();
        assert forall|i: int| 0 <= i < p.len() implies is_digit(#[trigger] p[i]) by {
            assert(p[i] == s[i]);
        }
        lemma_digits_value_prefix(p, k);
        assert(p.take(k) =~= s.take(k));
        lemma_digits_value_nonneg(p);
        assert(is_digit(s[s.len() - 1]));
    }
}

/// The value of the digits of `v` from position `from` on, where there is at least one,
/// all are digits and the value is at most `max`.
fn parse_digits(v: &Vec<char>, from: usize, max: u64) -> (r: Option<u64>)
    requires
        from <= v.len(),
    ensures
        r == (if from < v.len() && all_digits(v@.skip(from as int)) && digits_value(
            v@.skip(from as int),
        ) <= max {
            Some(digits_value(v@.skip(from as int)) as u64)
        } else {
            None
        }),
{
    let ghost body = v@.skip(from as int);
    if from == v.len() {
        return None;
    }
    let mut acc: u64 = 0;
    let mut i: usize = from;
    while i < v.len()
        invariant
            from <= i <= v.len(),
            from < v.len(),
            body == v@.skip(from as int),
            acc <= max,
            acc == digits_value(body.take(i - from)),
            forall|j: int| 0 <= j < i - from ==> is_digit(#[trigger] body[j]),
        decreases v.len() - i,
    {
        let c = v[i];
        assert(body[i - from] == c);
        if !('0' <= c && c <= '9') {
            assert(!all_digits(body));
            return None;
        }
        let d: u64 = (c as u32 - '0' as u32) as u64;
        let ghost t = body.take(i - from + 1);
        assert(t.drop_last() =~= body.take(i - from));
        assert(digits_value(t) == 10 * acc + d);
        if (acc as u128) * 10 + (d as u128) > max as u128 {
            proof {
                if all_digits(body) {
                    lemma_digits_value_prefix(body, i - from + 1);
                }
            }
            return None;
        }
        acc = acc * 10 + d;
        i = i + 1;
    }
    assert(body.take(i - from) =~= body);
    Some(acc)
}

/// Reads an unsigned decimal integer of at most `max`; a leading `+` is allowed.
pub fn parse_unsigned(s: &str, max: u64) -> (r: Option<u64>)
    ensures
        match r {
            Some(x) => integer_within(s@, false, 0, max as int) == Some(x as int),
            None => integer_within(s@, false, 0, max as int) is None,
        },
{
    let v = chars_of(s);
    let from: usize = if v.len() > 0 && v[0] == '+' {
        1
    } else {
        0
    };
    proof {
        assert(v@.skip(0) =~= v@);
        if all_digits(v@.skip(from as int)) {
            lemma_digits_value_nonneg(v@.skip(from as int));
        }
    }
    parse_digits(&v, from, max)
}

/// Reads a signed 64-bit decimal integer; a leading `+` or `-` is allowed.
pub fn parse_i64(s: &str) -> (r: Option<i64>)
    ensures
        match r {
            Some(x) => integer_within(s@, true, i64::MIN as int, i64::MAX as int) == Some(x as int),
            None => integer_within(s@, true, i64::MIN as int, i64::MAX as int) is None,
        },
{
    let v = chars_of(s);
    let negative = v.len() > 0 && v[0] == '-';
    let from: usize = if v.len() > 0 && (v[0] == '+' || v[0] == '-') {
        1
    } else {
        0
    };
    proof {
        assert(v@.skip(0) =~= v@);
        if all_digits(v@.skip(from as int)) {
            lemma_digits_value_nonneg(v@.skip(from as int));
        }
    }
    if negative {
        match parse_digits(&v, from, 9223372036854775808) {
            Some(m) => Some((-(m as i128)) as i64),
            None => None,
        }
    } else {
        match parse_digits(&v, from, 9223372036854775807) {
            Some(m) => Some(m as i64),
            None => None,
        }
    }
}

pub open spec fn digit_char(d: int) -> char {
    ('0' as int + d) as char
}

/// The decimal digits of `n`, without leading zeros.
pub open spec fn decimal_digits(n: nat) -> Seq<char>
    decreases n,
{
    if n < 10 {
        seq![digit_char(n as int)]
    } else {
        decimal_digits(n / 10).push(digit_char((n % 10) as int))
    }
}

/// The decimal form of an integer, with `-` in front of a negative one.
pub open spec fn decimal(i: int) -> Seq<char> {
    if i < 0 {
        seq!['-'] + decimal_digits((-i) as nat)
    } else {
        decimal_digits(i as nat)
    }
}

/// Appends the decimal form of `n`.
pub fn push_decimal(s: &mut String, n: u64)
    ensures
        final(s)@ == old(s)@ + decimal_digits(n as nat),
    decreases n,
{
    if n >= 10 {
        push_decimal(s, n / 10);
    }
    let d: u8 = (n % 10) as u8;
    let c: char = (48 + d) as char;
    s.push(c);
    assert(c == digit_char((n % 10) as int));
    assert(s@ =~= old(s)@ + decimal_digits(n as nat));
}

/// The decimal form of an integer.
pub fn i64_to_text(i: i64) -> (s: String)
    ensures
        s@ == decimal(i as int),
{
    let mut s = String::new();
    if i < 0 {
        s.push('-');
        push_decimal(&mut s, (-(i as i128)) as u64);
        assert(s@ =~= seq!['-'] + decimal_digits((-(i as int)) as nat));
    } else {
        push_decimal(&mut s, i as u64);
        assert(s@ =~= decimal_digits(i as nat));
    }
    s
}

proof fn lemma_decimal_digits(n: nat)
    ensures
        decimal_digits(n).len() > 0,
        all_digits(decimal_digits(n)),
        digits_value(decimal_digits(n)) == n,
    decreases n,
{
    let s = decimal_digits(n);
    if n < 10 {
        assert(s.drop_last() =~= Seq::<char>::empty());
        assert(digits_value(s.drop_last()) == 0);
        assert(s.last() == digit_char(n as int));
    } else {
        lemma_decimal_digits(n / 10);
        assert(s.drop_last() =~= decimal_digits(n / 10));
        assert forall|i: int| 0 <= i < s.len() implies is_digit(#[trigger] s[i]) by {
            if i < s.len() - 1 {
                assert(s[i] == decimal_digits(n / 10)[i]);
            }
        }
    }
}

/// Reading the decimal form of an integer gives the integer back.
pub proof fn law_decimal_round_trip(i: int, lo: int, hi: int)
    requires
        lo <= i <= hi,
    ensures
        integer_within(decimal(i), true, lo, hi) == Some(i),
        i >= 0 ==> integer_within(decimal(i), false, lo, hi) == Some(i),
{
    if i < 0 {
        let d = decimal_digits((-i) as nat);
        lemma_decimal_digits((-i) as nat);
        assert(decimal(i).skip(1) =~= d);
    } else {
        lemma_decimal_digits(i as nat);
        assert(is_digit(decimal(i)[0]));
    }
}

/// The decimal form of a natural number holds nothing but digits.
pub proof fn law_decimal_has_only_digits(i: int)
    requires
        i >= 0,
    ensures
        decimal(i).len() > 0,
        all_digits(decimal(i)),
{
    lemma_decimal_digits(i as nat);
}

/// A text stands in every text that is made of it with something before and something after it.
pub proof fn law_has_text(before: Seq<char>, part: Seq<char>, after: Seq<char>)
    ensures
        has_text(before + part + after, part),
        occurs_at(part + after, part, 0),
{
    let s = before + part + after;
    let n = before.len() as int;
    assert(s.subrange(n, n + part.len()) =~= part);
    assert(occurs_at(s, part, n));
    assert((part + after).subrange(0, part.len() as int) =~= part);
}

/// A text that stands in another is no longer than it, and stands there character by character.
pub proof fn law_text_stands(hay: Seq<char>, needle: Seq<char>, i: int, k: int)
    requires
        occurs_at(hay, needle, i),
        0 <= k < needle.len(),
    ensures
        0 <= i && i + needle.len() <= hay.len(),
        hay[i + k] == needle[k],
{
    assert(hay.subrange(i, i + needle.len())[k] == needle[k]);
}

/// Without the character the whole text follows it.
pub proof fn law_after_last_without(s: Seq<char>, c: char)
    requires
        !s.contains(c),
    ensures
        after_last(s, c) == s,
    decreases s.len(),
{
    if s.len() > 0 {
        let p = s.drop_last();
        assert(s.contains(s.last()));
        assert forall|x: char| p.contains(x) implies s.contains(x) by {
            let k = choose|k: int| 0 <= k < p.len() && p[k] == x;
            assert(s[k] == x);
        }
        law_after_last_without(p, c);
        assert(p.push(s.last()) =~= s);
    } else {
        assert(after_last(s, c) =~= s);
    }
}

/// One more digit makes ten times the number and the digit; a plus sign changes nothing, a minus
/// sign the sign, and only where signs are read.
pub proof fn law_integer_texts(s: Seq<char>, d: char)
    requires
        all_digits(s),
        is_digit(d),
    ensures
        digits_value(s.push(d)) == 10 * digits_value(s) + (d as int - 48),
        integer_value(s.push(d), true) == Some(digits_value(s.push(d))),
        integer_value(s.push(d), false) == Some(digits_value(s.push(d))),
        integer_value(seq!['+'] + s.push(d), false) == Some(digits_value(s.push(d))),
        integer_value(seq!['-'] + s.push(d), true) == Some(-digits_value(s.push(d))),
        integer_value(seq!['-'] + s.push(d), false) is None,
        integer_value(Seq::empty(), true) is None,
{
    let t = s.push(d);
    assert(t.drop_last() =~= s);
    assert forall|i: int| 0 <= i < t.len() implies is_digit(#[trigger] t[i]) by {
        if i < s.len() {
            assert(t[i] == s[i]);
        }
    }
    assert(is_digit(t[0]));
    assert((seq!['+'] + t).skip(1) =~= t);
    assert((seq!['-'] + t).skip(1) =~= t);
    assert(!is_digit((seq!['-'] + t)[0]));
}

/// A text with a character that is neither a digit nor a sign in front is no integer.
pub proof fn law_no_integer(s: Seq<char>, i: int, signed: bool)
    requires
        0 <= i < s.len(),
        !is_digit(s[i]),
        i > 0 || (s[0] != '+' && s[0] != '-'),
    ensures
        integer_value(s, signed) is None,
{
    if s[0] == '+' || (signed && s[0] == '-') {
        assert(s.skip(1)[i - 1] == s[i]);
    }
}

/// The limits of an integer are part of its range, and nothing beyond them is.
pub proof fn law_integer_range(s: Seq<char>, signed: bool, lo: int, hi: int)
    ensures
        integer_value(s, signed) matches Some(v) ==> (integer_within(s, signed, lo, hi) == Some(v)
            <==> lo <= v && v <= hi),
        integer_within(s, signed, lo, hi) matches Some(v) ==> lo <= v && v <= hi && integer_value(
            s,
            signed,
        ) == Some(v),
{
}

/// Only the letters from A to Z change when a character goes to lowercase, and the two cases
/// undo each other.
pub proof fn law_ascii_case(c: char)
    ensures
        'A' <= c && c <= 'Z' ==> ascii_lower(c) as int == c as int + 32 && ascii_upper(ascii_lower(c))
            == c,
        'a' <= c && c <= 'z' ==> ascii_upper(c) as int == c as int - 32 && ascii_lower(ascii_upper(c))
            == c,
        !('A' <= c && c <= 'Z') ==> ascii_lower(c) == c,
        !('a' <= c && c <= 'z') ==> ascii_upper(c) == c,
{
}

} // verus!
