//! Numbers that are not integers, carried in the form in which they arrive.

use vstd::prelude::*;

use crate::json::{Json, JsonView};
use crate::text::{all_digits, ascii_lower, chars_of, is_digit};

verus! {

/// A number as it came in: a decimal text, or the bit pattern of a 64-bit binary
/// floating-point number.
#[derive(Debug)]
pub enum Quoted {
    Text(String),
    Bits(u64),
}

/// What a `Quoted` holds.
pub ghost enum QuotedView {
    Text(Seq<char>),
    Bits(u64),
}

impl View for Quoted {
    type V = QuotedView;

    open spec fn view(&self) -> QuotedView {
        match self {
            Quoted::Text(s) => QuotedView::Text(s@),
            Quoted::Bits(b) => QuotedView::Bits(*b),
        }
    }
}

/// An optional number, taken by its view.
pub open spec fn opt_quoted(q: Option<Quoted>) -> Option<QuotedView> {
    match q {
        Some(q) => Some(q@),
        None => None,
    }
}

// ── The text form of a floating-point number ──

/// Where `c` stands first in a text, in either case of letters; the length where it does not.
pub open spec fn first_index(s: Seq<char>, c: char) -> int
    decreases s.len(),
{
    if s.len() == 0 || ascii_lower(s[0]) == c {
        0
    } else {
        1 + first_index(s.skip(1), c)
    }
}

proof fn lemma_first_index(s: Seq<char>, c: char, k: int)
    requires
        0 <= k <= s.len(),
        forall|i: int| 0 <= i < k ==> ascii_lower(#[trigger] s[i]) != c,
        k < s.len() ==> ascii_lower(s[k]) == c,
    ensures
        first_index(s, c) == k,
    decreases s.len(),
{
    if s.len() > 0 && k > 0 {
        assert(ascii_lower(s[0]) != c);
        let t = s.skip(1);
        assert forall|i: int| 0 <= i < k - 1 implies ascii_lower(#[trigger] t[i]) != c by {
            assert(t[i] == s[i + 1]);
        }
        if k < s.len() {
            assert(t[k - 1] == s[k]);
        }
        lemma_first_index(t, c, k - 1);
    }
}

fn ascii_lower_char(c: char) -> (r: char)
    ensures
        r == ascii_lower(c),
{
    if 'A' <= c && c <= 'Z' {
        (c as u8 + 32) as char
    } else {
        c
    }
}

fn find_first(v: &Vec<char>, from: usize, to: usize, c: char) -> (r: usize)
    requires
        from <= to <= v.len(),
    ensures
        from <= r <= to,
        r - from == first_index(v@.subrange(from as int, to as int), c),
{
    let ghost s = v@.subrange(from as int, to as int);
    let mut i: usize = from;
    while i < to && ascii_lower_char(v[i]) != c
        invariant
            from <= i <= to <= v.len(),
            s == v@.subrange(from as int, to as int),
            forall|j: int| 0 <= j < i - from ==> ascii_lower(#[trigger] s[j]) != c,
        decreases to - i,
    {
        assert(s[i - from] == v@[i as int]);
        i = i + 1;
    }
    proof {
        lemma_first_index(s, c, i - from);
    }
    i
}

/// Whether a text equals a lowercase word without regard to the case of ASCII letters.
pub open spec fn is_word(s: Seq<char>, word: Seq<char>) -> bool {
    s.map_values(|c: char| ascii_lower(c)) == word
}

/// Digits with at most one point among them, and at least one digit.
pub open spec fn is_mantissa(s: Seq<char>) -> bool {
    let point = first_index(s, '.');
    let whole = s.take(point);
    let fraction = if point < s.len() {
        s.skip(point + 1)
    } else {
        Seq::empty()
    };
    all_digits(whole) && all_digits(fraction) && whole.len() + fraction.len() > 0
}

pub open spec fn is_sign(c: char) -> bool {
    c == '+' || c == '-'
}

/// A text without its sign, where it starts with one.
pub open spec fn unsigned_part(s: Seq<char>) -> Seq<char> {
    if s.len() > 0 && is_sign(s[0]) {
        s.skip(1)
    } else {
        s
    }
}

/// A mantissa, and after it nothing, or the letter `e` and a signed run of digits.
pub open spec fn is_number(s: Seq<char>) -> bool {
    let e = first_index(s, 'e');
    &&& is_mantissa(s.take(e))
    &&& e < s.len() ==> {
        let digits = unsigned_part(s.skip(e + 1));
        digits.len() > 0 && all_digits(digits)
    }
}

/// Whether a text is the decimal form of a floating-point number: an optional sign, then
/// "inf", "infinity", "nan" or a number, in any case of letters.
pub open spec fn is_float_text(s: Seq<char>) -> bool {
    let t = unsigned_part(s);
    is_word(t, "inf"@) || is_word(t, "infinity"@) || is_word(t, "nan"@) || is_number(t)
}

fn digits_between(v: &Vec<char>, from: usize, to: usize) -> (r: bool)
    requires
        from <= to <= v.len(),
    ensures
        r == all_digits(v@.subrange(from as int, to as int)),
{
    let ghost s = v@.subrange(from as int, to as int);
    let mut i: usize = from;
    while i < to
        invariant
            from <= i <= to <= v.len(),
            s == v@.subrange(from as int, to as int),
            forall|j: int| 0 <= j < i - from ==> is_digit(#[trigger] s[j]),
        decreases to - i,
    {
        assert(s[i - from] == v@[i as int]);
        if !('0' <= v[i] && v[i] <= '9') {
            return false;
        }
        i = i + 1;
    }
    true
}

fn word_from(v: &Vec<char>, from: usize, word: &str) -> (r: bool)
    requires
        from <= v.len(),
    ensures
        r == is_word(v@.skip(from as int), word@),
{
    let w = chars_of(word);
    let ghost s = v@.skip(from as int);
    let ghost low = s.map_values(|c: char| ascii_lower(c));
    if v.len() - from != w.len() {
        assert(low.len() != w@.len());
        return false;
    }
    let mut i: usize = 0;
    while i < w.len()
        invariant
            i <= w.len(),
            v.len() - from == w.len(),
            from <= v.len(),
            w@ == word@,
            s == v@.skip(from as int),
            low == s.map_values(|c: char| ascii_lower(c)),
            forall|j: int| 0 <= j < i ==> low[j] == w@[j],
        decreases w.len() - i,
    {
        assert(low[i as int] == ascii_lower(v@[from + i]));
        if ascii_lower_char(v[from + i]) != w[i] {
            return false;
        }
        i = i + 1;
    }
    assert(low =~= w@);
    true
}

/// Whether a text equals a lowercase word without regard to the case of ASCII letters.
pub fn word_text(s: &str, word: &str) -> (r: bool)
    ensures
        r == is_word(s@, word@),
{
    let v = chars_of(s);
    assert(v@.skip(0) =~= v@);
    word_from(&v, 0, word)
}

fn mantissa_between(v: &Vec<char>, from: usize, to: usize) -> (r: bool)
    requires
        from <= to <= v.len(),
    ensures
        r == is_mantissa(v@.subrange(from as int, to as int)),
{
    let ghost s = v@.subrange(from as int, to as int);
    let point: usize = find_first(v, from, to, '.');
    assert(s.take(point - from) =~= v@.subrange(from as int, point as int));
    if point < to {
        assert(s.skip(point - from + 1) =~= v@.subrange(point + 1, to as int));
        digits_between(v, from, point) && digits_between(v, point + 1, to) && to - from > 1
    } else {
        digits_between(v, from, point) && to > from
    }
}

fn number_from(v: &Vec<char>, from: usize) -> (r: bool)
    requires
        from <= v.len(),
    ensures
        r == is_number(v@.skip(from as int)),
{
    let n: usize = v.len();
    let ghost s = v@.skip(from as int);
    assert(s =~= v@.subrange(from as int, n as int));
    let e: usize = find_first(v, from, n, 'e');
    assert(s.take(e - from) =~= v@.subrange(from as int, e as int));
    if !mantissa_between(v, from, e) {
        return false;
    }
    if e == n {
        return true;
    }
    let ghost tail = s.skip(e - from + 1);
    assert(tail =~= v@.subrange(e + 1, n as int));
    let start: usize = if e + 1 < n && (v[e + 1] == '+' || v[e + 1] == '-') {
        e + 2
    } else {
        e + 1
    };
    assert(unsigned_part(tail) =~= v@.subrange(start as int, n as int));
    start < n && digits_between(v, start, n)
}

/// Whether a text is the decimal form of a floating-point number.
pub fn float_text(s: &str) -> (r: bool)
    ensures
        r == is_float_text(s@),
{
    let v = chars_of(s);
    let from: usize = if v.len() > 0 && (v[0] == '+' || v[0] == '-') {
        1
    } else {
        0
    };
    assert(unsigned_part(v@) =~= v@.skip(from as int));
    word_from(&v, from, "inf") || word_from(&v, from, "infinity") || word_from(&v, from, "nan")
        || number_from(&v, from)
}

/// The number that a JSON document holds, as a number or as the text of one.
pub open spec fn json_number(v: Option<JsonView>) -> Option<QuotedView> {
    match v {
        Some(JsonView::Text(s)) => if is_float_text(s) {
            Some(QuotedView::Text(s))
        } else {
            None
        },
        Some(JsonView::Number(n)) => Some(QuotedView::Bits(n.bits)),
        _ => None,
    }
}

/// The number that a JSON document holds, as a number or as the text of one.
pub fn number_of_json(v: Option<&Json>) -> (r: Option<Quoted>)
    ensures
        opt_quoted(r) == json_number(
            match v {
                Some(j) => Some(j.view()),
                None => None,
            },
        ),
{
    match v {
        Some(Json::Text(s)) => if float_text(s.as_str()) {
            Some(Quoted::Text(s.clone()))
        } else {
            None
        },
        Some(Json::Number(n)) => Some(Quoted::Bits(n.bits)),
        _ => None,
    }
}


// ── Numbers by their bits ──

/// A 64-bit binary floating-point number, held by its bit pattern. The pattern orders numbers
/// as sign and magnitude do; this is what comparisons go by.
#[derive(Clone, Copy, Debug, PartialEq, Eq, Hash, Structural)]
pub struct Real {
    pub bits: u64,
}

/// Where the magnitudes of infinity end: a pattern above stands for no number.
pub const INFINITY_BITS: u64 = 0x7FF0_0000_0000_0000;

/// The bit that holds the sign.
pub const SIGN_BIT: u64 = 0x8000_0000_0000_0000;

impl Real {
    /// The magnitude bits, with the sign of the number. Both zeros give 0.
    pub open spec fn key(self) -> int {
        if self.bits < SIGN_BIT {
            self.bits as int
        } else {
            SIGN_BIT - self.bits
        }
    }

    pub open spec fn nan(self) -> bool {
        self.key() > INFINITY_BITS || self.key() < -INFINITY_BITS
    }

    pub open spec fn lt(self, other: Real) -> bool {
        !self.nan() && !other.nan() && self.key() < other.key()
    }

    pub open spec fn le(self, other: Real) -> bool {
        !self.nan() && !other.nan() && self.key() <= other.key()
    }

    pub open spec fn same(self, other: Real) -> bool {
        !self.nan() && !other.nan() && self.key() == other.key()
    }

    /// Greater than zero.
    pub open spec fn pos(self) -> bool {
        0 < self.key() <= INFINITY_BITS
    }

    pub open spec fn magnitude(self) -> Real {
        if self.bits < SIGN_BIT {
            self
        } else {
            Real { bits: (self.bits - SIGN_BIT) as u64 }
        }
    }

    pub open spec fn negation(self) -> Real {
        if self.bits < SIGN_BIT {
            Real { bits: (self.bits + SIGN_BIT) as u64 }
        } else {
            Real { bits: (self.bits - SIGN_BIT) as u64 }
        }
    }

    /// The smaller of two numbers; the other one where one is not a number.
    pub open spec fn lesser(self, other: Real) -> Real {
        if self.nan() {
            other
        } else if other.nan() {
            self
        } else if self.key() <= other.key() {
            self
        } else {
            other
        }
    }

    /// The larger of two numbers; the other one where one is not a number.
    pub open spec fn greater(self, other: Real) -> Real {
        if self.nan() {
            other
        } else if other.nan() {
            self
        } else if self.key() >= other.key() {
            self
        } else {
            other
        }
    }

    pub fn zero() -> (r: Real)
        ensures
            r == (Real { bits: 0 }),
            r.key() == 0,
    {
        Real { bits: 0 }
    }

    /// An integer that orders numbers as their values do.
    pub fn sort_key(&self) -> (k: i64)
        ensures
            k == self.key(),
    {
        if self.bits < SIGN_BIT {
            self.bits as i64
        } else {
            (SIGN_BIT as i128 - self.bits as i128) as i64
        }
    }

    pub fn is_nan(&self) -> (r: bool)
        ensures
            r == self.nan(),
    {
        let k: i64 = self.sort_key();
        k > INFINITY_BITS as i64 || k < -(INFINITY_BITS as i64)
    }

    /// `self < other`
    pub fn less(&self, other: Real) -> (r: bool)
        ensures
            r == self.lt(other),
    {
        !self.is_nan() && !other.is_nan() && self.sort_key() < other.sort_key()
    }

    /// `self <= other`
    pub fn at_most(&self, other: Real) -> (r: bool)
        ensures
            r == self.le(other),
    {
        !self.is_nan() && !other.is_nan() && self.sort_key() <= other.sort_key()
    }

    /// `self == other`
    pub fn equals(&self, other: Real) -> (r: bool)
        ensures
            r == self.same(other),
    {
        !self.is_nan() && !other.is_nan() && self.sort_key() == other.sort_key()
    }

    /// `self > 0`
    pub fn is_positive(&self) -> (r: bool)
        ensures
            r == self.pos(),
    {
        let k: i64 = self.sort_key();
        0 < k && k <= INFINITY_BITS as i64
    }

    /// The number without its sign.
    pub fn abs(&self) -> (r: Real)
        ensures
            r == self.magnitude(),
            r.nan() == self.nan(),
            r.key() == if self.key() >= 0 {
                self.key()
            } else {
                -self.key()
            },
    {
        if self.bits < SIGN_BIT {
            *self
        } else {
            Real { bits: self.bits - SIGN_BIT }
        }
    }

    /// The number with the other sign.
    pub fn neg(&self) -> (r: Real)
        ensures
            r == self.negation(),
            r.nan() == self.nan(),
            r.key() == -self.key(),
    {
        if self.bits < SIGN_BIT {
            Real { bits: self.bits + SIGN_BIT }
        } else {
            Real { bits: self.bits - SIGN_BIT }
        }
    }

    /// The smaller of two numbers; the other one where one is not a number.
    pub fn min(&self, other: Real) -> (r: Real)
        ensures
            r == self.lesser(other),
    {
        if self.is_nan() {
            other
        } else if other.is_nan() {
            *self
        } else if self.sort_key() <= other.sort_key() {
            *self
        } else {
            other
        }
    }

    /// The larger of two numbers; the other one where one is not a number.
    pub fn max(&self, other: Real) -> (r: Real)
        ensures
            r == self.greater(other),
    {
        if self.is_nan() {
            other
        } else if other.is_nan() {
            *self
        } else if self.sort_key() >= other.sort_key() {
            *self
        } else {
            other
        }
    }
}

/// Of numbers that are numbers, exactly one is smaller or both are equal; smaller goes over
/// in chains; nothing compares with what is not a number.
pub proof fn law_real_order(a: Real, b: Real, c: Real)
    ensures
        !a.nan() && !b.nan() ==> (a.lt(b) || b.lt(a) || a.same(b)),
        !(a.lt(b) && b.lt(a)),
        !(a.lt(b) && a.same(b)),
        a.lt(b) && b.lt(c) ==> a.lt(c),
        a.le(b) == (a.lt(b) || a.same(b)),
        a.nan() ==> !a.lt(b) && !b.lt(a) && !a.le(b) && !b.le(a) && !a.same(b),
        a.pos() == (Real { bits: 0 }).lt(a),
{
}

/// The smaller of numbers is one of them and no larger than either.
pub proof fn law_lesser(a: Real, b: Real)
    ensures
        a.lesser(b) == a || a.lesser(b) == b,
        !a.nan() && !b.nan() ==> a.lesser(b).le(a) && a.lesser(b).le(b),
        !a.nan() || !b.nan() ==> !a.lesser(b).nan(),
{
}

/// The larger of numbers is one of them and no smaller than either.
pub proof fn law_greater(a: Real, b: Real)
    ensures
        a.greater(b) == a || a.greater(b) == b,
        !a.nan() && !b.nan() ==> a.le(a.greater(b)) && b.le(a.greater(b)),
        !a.nan() || !b.nan() ==> !a.greater(b).nan(),
{
}

/// Positive numbers are ordered as their bits are, negative ones the other way round; every
/// negative number is below zero, and both zeros are the same.
pub proof fn law_real_bits(a: Real, b: Real)
    ensures
        a.bits <= 0x7FF0_0000_0000_0000 && b.bits <= 0x7FF0_0000_0000_0000 ==> (a.lt(b) <==> a.bits
            < b.bits),
        0x8000_0000_0000_0000 <= a.bits <= 0xFFF0_0000_0000_0000 && 0x8000_0000_0000_0000 <= b.bits
            <= 0xFFF0_0000_0000_0000 ==> (a.lt(b) <==> b.bits < a.bits),
        0x8000_0000_0000_0000 < a.bits <= 0xFFF0_0000_0000_0000 && b.bits <= 0x7FF0_0000_0000_0000
            ==> a.lt(b),
        (Real { bits: 0 }).same(Real { bits: 0x8000_0000_0000_0000 }),
        a.nan() <==> (0x7FF0_0000_0000_0000 < a.bits < 0x8000_0000_0000_0000 || 0xFFF0_0000_0000_0000
            < a.bits),
{
}

/// The magnitude of a number is the number or its opposite, whichever is not negative; taking
/// the opposite twice gives the number back, and turns the order round.
pub proof fn law_real_signs(a: Real, b: Real)
    ensures
        a.magnitude() == a || a.magnitude() == a.negation(),
        !a.magnitude().lt(Real { bits: 0 }),
        a.negation().negation() == a,
        a.negation() != a,
        a.lt(b) <==> b.negation().lt(a.negation()),
        a.magnitude() == a.negation().magnitude(),
        a.pos() <==> a.negation().lt(Real { bits: 0 }),
        a.nan() == a.negation().nan(),
{
}

/// Where one of two is not a number, the smaller and the larger are the other one.
pub proof fn law_lesser_of_nan(a: Real, b: Real)
    ensures
        a.nan() ==> a.lesser(b) == b && a.greater(b) == b,
        b.nan() && !a.nan() ==> a.lesser(b) == a && a.greater(b) == a,
{
}

/// The number of a document is that of a number by its bits, or that of a text which is the
/// decimal form of one, as it stands; nothing else has a number.
pub proof fn law_json_number(v: Option<JsonView>)
    ensures
        v matches Some(JsonView::Number(n)) ==> json_number(v) == Some(QuotedView::Bits(n.bits)),
        v matches Some(JsonView::Text(s)) ==> (json_number(v) is Some <==> is_float_text(s)) && (
        is_float_text(s) ==> json_number(v) == Some(QuotedView::Text(s))),
        v is None ==> json_number(v) is None,
        v matches Some(x) ==> (x is Null || x is Bool || x is List || x is Object) ==> json_number(
            v,
        ) is None,
{
}

/// What a quoted number holds is its text or its bits.
pub proof fn law_quoted_view(q: Quoted)
    ensures
        q matches Quoted::Text(s) ==> q@ == QuotedView::Text(s@),
        q matches Quoted::Bits(n) ==> q@ == QuotedView::Bits(n),
        opt_quoted(Some(q)) == Some(q@),
        opt_quoted(None) is None,
{
}

proof fn lemma_digits_only(a: Seq<char>)
    requires
        all_digits(a),
        a.len() > 0,
    ensures
        first_index(a, 'e') == a.len(),
        first_index(a, '.') == a.len(),
        unsigned_part(a) == a,
        is_mantissa(a),
        is_number(a),
        is_float_text(a),
{
    assert(is_digit(a[0]));
    lemma_first_index(a, 'e', a.len() as int);
    lemma_first_index(a, '.', a.len() as int);
    assert(a.take(a.len() as int) =~= a);
}

/// A run of digits is a number, with one point in it or at either end too, and with an exponent
/// behind it. Without a digit there is no number.
pub proof fn law_number_texts(a: Seq<char>, b: Seq<char>)
    requires
        all_digits(a),
        all_digits(b),
    ensures
        a.len() > 0 ==> is_float_text(a),
        a.len() + b.len() > 0 ==> is_float_text(a.push('.') + b),
        a.len() > 0 && b.len() > 0 ==> is_float_text(a.push('e') + b),
        a.len() > 0 && b.len() > 0 ==> is_float_text(a.push('E').push('-') + b),
        a.len() > 0 ==> !is_float_text(a.push('e')),
        !is_float_text(Seq::empty()),
        !is_float_text(seq!['.']),
{
    reveal_strlit("inf");
    reveal_strlit("infinity");
    reveal_strlit("nan");
    assert("inf"@.len() == 3 && "infinity"@.len() == 8 && "nan"@.len() == 3);
    let none = Seq::<char>::empty();
    if a.len() > 0 {
        lemma_digits_only(a);
        let e = a.push('e');
        let n = a.len() as int;
        assert forall|i: int| 0 <= i < n implies ascii_lower(#[trigger] e[i]) != 'e' by {
            assert(is_digit(a[i]));
        }
        lemma_first_index(e, 'e', n);
        assert(is_digit(a[0]));
        assert(unsigned_part(e) == e);
        assert(unsigned_part(e.skip(n + 1)).len() == 0);
        assert(ascii_lower(e[0]) == e[0]);
        assert(e.map_values(|c: char| ascii_lower(c))[0] == e[0]);
        assert("inf"@[0] == 'i' && "infinity"@[0] == 'i' && "nan"@[0] == 'n');
        if b.len() > 0 {
            assert(is_digit(b[0]));
            let s = e + b;
            assert forall|i: int| 0 <= i < n implies ascii_lower(#[trigger] s[i]) != 'e' by {
                assert(is_digit(a[i]));
            }
            lemma_first_index(s, 'e', n);
            assert(s.take(n) =~= a);
            assert(s.skip(n + 1) =~= b);
            let t = a.push('E').push('-') + b;
            assert forall|i: int| 0 <= i < n implies ascii_lower(#[trigger] t[i]) != 'e' by {
                assert(is_digit(a[i]));
            }
            lemma_first_index(t, 'e', n);
            assert(t.take(n) =~= a);
            assert(t.skip(n + 1) =~= seq!['-'] + b);
            assert(unsigned_part(t.skip(n + 1)) =~= b);
        }
    }
    if a.len() + b.len() > 0 {
        let s = a.push('.') + b;
        let n = a.len() as int;
        assert forall|i: int| 0 <= i < s.len() implies ascii_lower(#[trigger] s[i]) != 'e' by {
            if i < n {
                assert(is_digit(a[i]));
            } else if i > n {
                assert(is_digit(b[i - n - 1]));
            }
        }
        lemma_first_index(s, 'e', s.len() as int);
        assert forall|i: int| 0 <= i < n implies ascii_lower(#[trigger] s[i]) != '.' by {
            assert(is_digit(a[i]));
        }
        lemma_first_index(s, '.', n);
        assert(s.take(s.len() as int) =~= s);
        assert(s.take(n) =~= a);
        assert(s.skip(n + 1) =~= b);
        if n > 0 {
            assert(is_digit(a[0]));
        }
        assert(unsigned_part(s) == s);
    }
    assert(unsigned_part(none) == none);
    assert(none.map_values(|c: char| ascii_lower(c)).len() == 0);
    assert(none.take(first_index(none, 'e')).len() == 0);
    let p = seq!['.'];
    lemma_first_index(p, 'e', 1);
    lemma_first_index(p, '.', 0);
    assert(p.take(1) =~= p);
    assert(p.map_values(|c: char| ascii_lower(c)).len() == 1);
}

/// A sign in front of a number, or of one of the words for what is no finite number, makes a
/// number; a second sign does not.
pub proof fn law_signed_number(s: Seq<char>)
    requires
        s.len() > 0,
        !is_sign(s[0]),
    ensures
        is_float_text(seq!['-'] + s) == is_float_text(s),
        is_float_text(seq!['+'] + s) == is_float_text(s),
        is_float_text("inf"@) && is_float_text("infinity"@) && is_float_text("nan"@),
{
    assert((seq!['-'] + s).skip(1) =~= s);
    assert((seq!['+'] + s).skip(1) =~= s);
    reveal_strlit("inf");
    reveal_strlit("infinity");
    reveal_strlit("nan");
    assert("inf"@.map_values(|c: char| ascii_lower(c)) =~= "inf"@);
    assert("infinity"@.map_values(|c: char| ascii_lower(c)) =~= "infinity"@);
    assert("nan"@.map_values(|c: char| ascii_lower(c)) =~= "nan"@);
}

} // verus!
