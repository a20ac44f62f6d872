//! `Period`: a monthly release of the data, written `YYYY-MM`.

use vstd::prelude::*;
use crate::error::Error;
use crate::text::{
    all_digits, chars_of, decimal, digit_char, digit_to_char, digit_value, digits_value,
    is_digit, push_decimal,
};

verus! {

/// A monthly release of the data, such as `2026-04`. Periods order by year,
/// then by month.
#[derive(Clone, Copy, Debug, PartialEq, Eq, Structural, PartialOrd, Ord, Hash)]
pub struct Period {
    pub year: u16,
    pub month: u8,
}

/// `10` to the power `k`.
pub open spec fn pow10(k: nat) -> nat
    decreases k,
{
    if k == 0 {
        1
    } else {
        10 * pow10((k - 1) as nat)
    }
}

/// The last `k` decimal digits of `n`, with leading zeros.
pub open spec fn padded(n: nat, k: nat) -> Seq<char>
    decreases k,
{
    if k == 0 {
        Seq::empty()
    } else {
        padded(n / 10, (k - 1) as nat).push(digit_char(n % 10))
    }
}

/// `n` written with at least `k` digits, zero-padded on the left, as the
/// format `{:0k}` writes it.
pub open spec fn zero_padded(n: nat, k: nat) -> Seq<char> {
    if n < pow10(k) {
        padded(n, k)
    } else {
        decimal(n)
    }
}

impl Period {
    /// Whether the period is a real month with a four-digit year.
    pub open spec fn is_valid(self) -> bool {
        self.year <= 9999 && 1 <= self.month <= 12
    }

    /// Whether `self` comes strictly before `other`.
    pub open spec fn precedes(self, other: Period) -> bool {
        self.year < other.year || (self.year == other.year && self.month < other.month)
    }

    /// The text of a period: `YYYY-MM`.
    pub open spec fn text(self) -> Seq<char> {
        zero_padded(self.year as nat, 4) + seq!['-'] + zero_padded(self.month as nat, 2)
    }
}

/// The period that `s` writes, if it is exactly four digits, a dash, and two
/// digits naming a month from 01 to 12.
pub open spec fn parse_period_spec(s: Seq<char>) -> Option<Period> {
    if s.len() == 7 && all_digits(s.subrange(0, 4)) && s[4] == '-' && all_digits(
        s.subrange(5, 7),
    ) && 1 <= digits_value(s.subrange(5, 7)) <= 12 {
        Some(
            Period {
                year: digits_value(s.subrange(0, 4)) as u16,
                month: digits_value(s.subrange(5, 7)) as u8,
            },
        )
    } else {
        None
    }
}

/// Appends the last `k` digits of `n` to `s`, zero-padded on the left.
fn push_padded(s: &mut String, n: u64, k: u64)
    ensures
        final(s)@ == old(s)@ + padded(n as nat, k as nat),
    decreases k,
{
    if k > 0 {
        push_padded(s, n / 10, k - 1);
        s.push(digit_to_char(n % 10));
    }
}

/// Appends `n` to `s` the way the format `{:0k}` writes it.
fn push_zero_padded(s: &mut String, n: u64, k: u64, bound: u64)
    requires
        bound == pow10(k as nat),
    ensures
        final(s)@ == old(s)@ + zero_padded(n as nat, k as nat),
{
    if n < bound {
        push_padded(s, n, k);
    } else {
        push_decimal(s, n);
    }
}

proof fn lemma_value4(t: Seq<char>)
    requires
        t.len() == 4,
    ensures
        digits_value(t) == digit_value(t[0]) * 1000 + digit_value(t[1]) * 100 + digit_value(t[2])
            * 10 + digit_value(t[3]),
{
    let t3 = t.drop_last();
    let t2 = t3.drop_last();
    let t1 = t2.drop_last();
    assert(t1.drop_last().len() == 0);
    assert(digits_value(t1.drop_last()) == 0);
    assert(t1.last() == t[0]);
    assert(t2.last() == t[1]);
    assert(t3.last() == t[2]);
    assert(t.last() == t[3]);
    assert(digits_value(t1) == digit_value(t[0]));
    assert(digits_value(t2) == digits_value(t1) * 10 + digit_value(t[1]));
    assert(digits_value(t3) == digits_value(t2) * 10 + digit_value(t[2]));
}

proof fn lemma_value2(t: Seq<char>)
    requires
        t.len() == 2,
    ensures
        digits_value(t) == digit_value(t[0]) * 10 + digit_value(t[1]),
{
    let t1 = t.drop_last();
    assert(t1.drop_last().len() == 0);
    assert(digits_value(t1.drop_last()) == 0);
    assert(t1.last() == t[0]);
    assert(t.last() == t[1]);
    assert(digits_value(t1) == digit_value(t[0]));
}

/// The digit value of an ASCII digit character.
fn char_digit(c: char) -> (d: u64)
    requires
        is_digit(c),
    ensures
        d as nat == digit_value(c),
        d < 10,
{
    (c as u32 - 48u32) as u64
}

impl Period {
    /// Reads a period written `YYYY-MM`; any other text is an
    /// `Error::InvalidPeriod` holding it.
    pub fn parse(s: &str) -> (r: Result<Period, Error>)
        ensures
            r matches Ok(p) ==> parse_period_spec(s@) == Some(p),
            r is Err <==> parse_period_spec(s@) is None,
            r matches Err(e) ==> (e matches Error::InvalidPeriod(t) && t@ == s@),
    {
        match Self::parse_chars(&chars_of(s)) {
            Some(p) => Ok(p),
            None => Err(Error::InvalidPeriod(String::from_str(s))),
        }
    }

    /// Reads a period from its characters.
    fn parse_chars(v: &Vec<char>) -> (r: Option<Period>)
        ensures
            r == parse_period_spec(v@),
    {
        if v.len() != 7 {
            return None;
        }
        let ok = '0' <= v[0] && v[0] <= '9' && '0' <= v[1] && v[1] <= '9' && '0' <= v[2] && v[2]
            <= '9' && '0' <= v[3] && v[3] <= '9' && v[4] == '-' && '0' <= v[5] && v[5] <= '9'
            && '0' <= v[6] && v[6] <= '9';
        let ghost y = v@.subrange(0, 4);
        let ghost m = v@.subrange(5, 7);
        if !ok {
            assert(!(all_digits(y) && v@[4] == '-' && all_digits(m))) by {
                if all_digits(y) && all_digits(m) {
                    assert(is_digit(y[0]) && is_digit(y[1]) && is_digit(y[2]) && is_digit(y[3]));
                    assert(is_digit(m[0]) && is_digit(m[1]));
                }
            }
            return None;
        }
        assert(all_digits(y));
        assert(all_digits(m));
        proof {
            lemma_value4(y);
            lemma_value2(m);
        }
        let year: u64 = char_digit(v[0]) * 1000 + char_digit(v[1]) * 100 + char_digit(v[2]) * 10
            + char_digit(v[3]);
        let month: u64 = char_digit(v[5]) * 10 + char_digit(v[6]);
        if month < 1 || month > 12 {
            return None;
        }
        Some(Period { year: year as u16, month: month as u8 })
    }

    /// The period written `YYYY-MM`, as `{:04}-{:02}` writes it.
    pub fn to_string(&self) -> (r: String)
        ensures
            r@ == self.text(),
    {
        proof {
            reveal_with_fuel(pow10, 5);
        }
        let mut r = String::new();
        push_zero_padded(&mut r, self.year as u64, 4, 10000);
        r.push('-');
        push_zero_padded(&mut r, self.month as u64, 2, 100);
        r
    }

    /// Whether `self` comes strictly before `other`.
    pub fn is_before(&self, other: &Period) -> (r: bool)
        ensures
            r == self.precedes(*other),
    {
        self.year < other.year || (self.year == other.year && self.month < other.month)
    }
}

proof fn lemma_padded(n: nat, k: nat)
    requires
        n < pow10(k),
    ensures
        padded(n, k).len() == k,
        all_digits(padded(n, k)),
        digits_value(padded(n, k)) == n,
    decreases k,
{
    if k > 0 {
        let p: nat = pow10((k - 1) as nat);
        assert(n / 10 < p) by (nonlinear_arith)
            requires
                n < 10 * p,
        ;
        lemma_padded(n / 10, (k - 1) as nat);
        let t = padded(n, k);
        assert(t.drop_last() == padded(n / 10, (k - 1) as nat));
        assert(digit_value(digit_char(n % 10)) == n % 10);
        assert forall|i: int| 0 <= i < t.len() implies is_digit(#[trigger] t[i]) by {
            if i < t.len() - 1 {
                assert(t[i] == padded(n / 10, (k - 1) as nat)[i]);
            }
        }
    }
}

proof fn lemma_digits_bound(t: Seq<char>)
    requires
        all_digits(t),
    ensures
        digits_value(t) < pow10(t.len()),
    decreases t.len(),
{
    if t.len() > 0 {
        let u = t.drop_last();
        assert(all_digits(u)) by {
            assert forall|i: int| 0 <= i < u.len() implies is_digit(#[trigger] u[i]) by {
                assert(u[i] == t[i]);
            }
        }
        lemma_digits_bound(u);
        assert(is_digit(t[t.len() - 1]));
    }
}

proof fn lemma_padded_digits(t: Seq<char>)
    requires
        all_digits(t),
    ensures
        padded(digits_value(t), t.len()) == t,
    decreases t.len(),
{
    if t.len() > 0 {
        let u = t.drop_last();
        assert(all_digits(u)) by {
            assert forall|i: int| 0 <= i < u.len() implies is_digit(#[trigger] u[i]) by {
                assert(u[i] == t[i]);
            }
        }
        lemma_padded_digits(u);
        let v: nat = digits_value(t);
        assert(is_digit(t[t.len() - 1]));
        assert(v / 10 == digits_value(u));
        assert(v % 10 == digit_value(t.last()));
        assert(digit_char(digit_value(t.last())) == t.last());
        assert(padded(v, t.len()) =~= t);
    }
}

/// Writing a valid period and reading the text back gives the same period.
pub proof fn law_period_text_parses_back(p: Period)
    requires
        p.is_valid(),
    ensures
        parse_period_spec(p.text()) == Some(p),
{
    reveal_with_fuel(pow10, 5);
    lemma_padded(p.year as nat, 4);
    lemma_padded(p.month as nat, 2);
    let y = padded(p.year as nat, 4);
    let m = padded(p.month as nat, 2);
    let t = p.text();
    assert(t == y + seq!['-'] + m);
    assert(t.subrange(0, 4) =~= y);
    assert(t.subrange(5, 7) =~= m);
}

/// Every text that reads as a period is a valid period, and is exactly the
/// text that the period writes.
pub proof fn law_parsed_period_is_canonical(s: Seq<char>)
    requires
        parse_period_spec(s) is Some,
    ensures
        parse_period_spec(s).unwrap().is_valid(),
        parse_period_spec(s).unwrap().text() == s,
{
    reveal_with_fuel(pow10, 5);
    let y = s.subrange(0, 4);
    let m = s.subrange(5, 7);
    lemma_digits_bound(y);
    lemma_digits_bound(m);
    lemma_padded_digits(y);
    lemma_padded_digits(m);
    let p = parse_period_spec(s).unwrap();
    assert(p.year as nat == digits_value(y));
    assert(p.month as nat == digits_value(m));
    assert(p.text() =~= s);
}

/// Whether `a` sorts strictly before `b`, character by character, a proper
/// prefix first.
pub open spec fn text_less(a: Seq<char>, b: Seq<char>) -> bool
    decreases a.len(),
{
    if a.len() == 0 {
        b.len() > 0
    } else if b.len() == 0 {
        false
    } else if a[0] != b[0] {
        (a[0] as u32) < (b[0] as u32)
    } else {
        text_less(a.drop_first(), b.drop_first())
    }
}

/// Between real months, `precedes` is the calendar order: one period comes
/// before another exactly when fewer months lie between year 0 and it. So a
/// later month of the same year, December included, comes after every
/// earlier one, and a later year after every month of an earlier one. The
/// order is strict and total: no period precedes itself, of two different
/// periods one precedes the other, and it is transitive.
pub proof fn law_precedes_is_chronological(p: Period, q: Period, r: Period)
    requires
        p.is_valid(),
        q.is_valid(),
        r.is_valid(),
    ensures
        p.precedes(q) <==> p.year * 12 + p.month < q.year * 12 + q.month,
        p.year == q.year ==> (p.precedes(q) <==> p.month < q.month),
        p.year < q.year ==> p.precedes(q),
        !p.precedes(p),
        p != q ==> (p.precedes(q) || q.precedes(p)),
        p.precedes(q) ==> !q.precedes(p),
        p.precedes(q) && q.precedes(r) ==> p.precedes(r),
{
}

proof fn lemma_text_less_append(a1: Seq<char>, a2: Seq<char>, b1: Seq<char>, b2: Seq<char>)
    requires
        a1.len() == b1.len(),
    ensures
        text_less(a1 + a2, b1 + b2) == (text_less(a1, b1) || (a1 == b1 && text_less(a2, b2))),
    decreases a1.len(),
{
    if a1.len() == 0 {
        assert(a1 + a2 =~= a2);
        assert(b1 + b2 =~= b2);
        assert(a1 =~= b1);
    } else {
        let a = a1 + a2;
        let b = b1 + b2;
        assert(a[0] == a1[0]);
        assert(b[0] == b1[0]);
        if a1[0] == b1[0] {
            assert(a.drop_first() =~= a1.drop_first() + a2);
            assert(b.drop_first() =~= b1.drop_first() + b2);
            lemma_text_less_append(a1.drop_first(), a2, b1.drop_first(), b2);
            if a1.drop_first() == b1.drop_first() {
                assert(a1 =~= b1) by {
                    assert forall|i: int| 0 <= i < a1.len() implies a1[i] == b1[i] by {
                        if i > 0 {
                            assert(a1[i] == a1.drop_first()[i - 1]);
                            assert(b1[i] == b1.drop_first()[i - 1]);
                        }
                    }
                }
            }
            if a1 == b1 {
                assert(a1.drop_first() =~= b1.drop_first());
            }
        } else {
            assert(a1 != b1);
        }
    }
}

proof fn lemma_text_less_digits(a: Seq<char>, b: Seq<char>)
    requires
        a.len() == b.len(),
        all_digits(a),
        all_digits(b),
    ensures
        text_less(a, b) == (digits_value(a) < digits_value(b)),
        (a == b) == (digits_value(a) == digits_value(b)),
    decreases a.len(),
{
    if a.len() > 0 {
        let a1 = a.drop_last();
        let b1 = b.drop_last();
        assert(all_digits(a1)) by {
            assert forall|i: int| 0 <= i < a1.len() implies is_digit(#[trigger] a1[i]) by {
                assert(a1[i] == a[i]);
            }
        }
        assert(all_digits(b1)) by {
            assert forall|i: int| 0 <= i < b1.len() implies is_digit(#[trigger] b1[i]) by {
                assert(b1[i] == b[i]);
            }
        }
        lemma_text_less_digits(a1, b1);
        let x = a.last();
        let y = b.last();
        assert(is_digit(a[a.len() - 1]));
        assert(is_digit(b[b.len() - 1]));
        assert(a =~= a1 + seq![x]);
        assert(b =~= b1 + seq![y]);
        lemma_text_less_append(a1, seq![x], b1, seq![y]);
        reveal_with_fuel(text_less, 2);
        assert(seq![x].drop_first() =~= Seq::<char>::empty());
        assert(seq![y].drop_first() =~= Seq::<char>::empty());
        assert(text_less(seq![x], seq![y]) == ((x as u32) < (y as u32)));
        if a1 == b1 && x == y {
            assert(a =~= b);
        }
        if a == b {
            assert(a1 =~= b1);
        }
    } else {
        assert(a =~= b);
    }
}

/// The text `YYYY-MM` of real months sorts as the months do: of two valid
/// periods, one precedes the other exactly when its text comes first
/// character by character.
pub proof fn law_period_text_order(p: Period, q: Period)
    requires
        p.is_valid(),
        q.is_valid(),
    ensures
        p.precedes(q) <==> text_less(p.text(), q.text()),
{
    reveal_with_fuel(pow10, 5);
    lemma_padded(p.year as nat, 4);
    lemma_padded(p.month as nat, 2);
    lemma_padded(q.year as nat, 4);
    lemma_padded(q.month as nat, 2);
    let y1 = padded(p.year as nat, 4);
    let m1 = padded(p.month as nat, 2);
    let y2 = padded(q.year as nat, 4);
    let m2 = padded(q.month as nat, 2);
    let d = seq!['-'];
    assert(p.text() == (y1 + d) + m1);
    assert(q.text() == (y2 + d) + m2);
    lemma_text_less_append(y1 + d, m1, y2 + d, m2);
    lemma_text_less_append(y1, d, y2, d);
    reveal_with_fuel(text_less, 2);
    assert(d.drop_first() =~= Seq::<char>::empty());
    assert(!text_less(d, d));
    lemma_text_less_digits(y1, y2);
    lemma_text_less_digits(m1, m2);
    if y1 + d == y2 + d {
        assert(y1 =~= (y1 + d).subrange(0, 4));
        assert(y2 =~= (y2 + d).subrange(0, 4));
    }
}

impl std::str::FromStr for Period {
    type Err = Error;

    /// Reads a period written `YYYY-MM`, as `Period::parse` does.
    fn from_str(s: &str) -> (r: Result<Period, Error>)
        ensures
            r is Err <==> parse_period_spec(s@) is None,
            r matches Ok(p) ==> parse_period_spec(s@) == Some(p),
            r matches Err(e) ==> (e matches Error::InvalidPeriod(t) && t@ == s@),
    {
        Period::parse(s)
    }
}

} // verus!
