//! Character-level helpers shared by the parsers and SQL builders.

use vstd::prelude::*;

verus! {

/// `String::push` appends one character at the end of the string.
pub assume_specification[ String::push ](s: &mut String, ch: char)
    ensures
        final(s)@ == old(s)@.push(ch),
;

/// Whether `c` is one of the ASCII digits `0`..=`9`.
pub open spec fn is_digit(c: char) -> bool {
    '0' <= c && c <= '9'
}

/// The value of an ASCII digit.
pub open spec fn digit_value(c: char) -> nat {
    (c as int - '0' as int) as nat
}

/// The ASCII digit that stands for `d` (`d < 10`).
pub open spec fn digit_char(d: nat) -> char {
    ('0' as int + d) as char
}

/// Decimal representation of `n`, without sign or leading zeros.
pub open spec fn decimal(n: nat) -> Seq<char>
    decreases n,
{
    if n < 10 {
        seq![digit_char(n)]
    } else {
        decimal(n / 10).push(digit_char(n % 10))
    }
}

/// The ASCII digit for `d`.
pub fn digit_to_char(d: u64) -> (c: char)
    requires
        d < 10,
    ensures
        c == digit_char(d as nat),
{
    let b: u8 = 48u8 + (d as u8);
    b as char
}

/// Appends the decimal representation of `n` to `s`.
pub fn push_decimal(s: &mut String, n: u64)
    ensures
        final(s)@ == old(s)@ + decimal(n as nat),
    decreases n,
{
    if n >= 10 {
        push_decimal(s, n / 10);
    }
    s.push(digit_to_char(n % 10));
}


/// The characters of `s`, in order.
pub fn chars_of(s: &str) -> (r: Vec<char>)
    ensures
        r@ == s@,
{
    let mut r: Vec<char> = Vec::new();
    for c in it: s.chars()
        invariant
            it.seq() == s@,
            r@ == it.seq().take(it.index() as int),
    {
        r.push(c);
    }
    r
}


/// A string made of the characters `v[from..to]`.
pub fn string_from_chars(v: &Vec<char>, from: usize, to: usize) -> (r: String)
    requires
        from <= to <= v@.len(),
    ensures
        r@ == v@.subrange(from as int, to as int),
{
    let mut r = String::new();
    let mut i: usize = from;
    while i < to
        invariant
            from <= i <= to <= v@.len(),
            r@ == v@.subrange(from as int, i as int),
        decreases to - i,
    {
        r.push(v[i]);
        assert(v@.subrange(from as int, i + 1) == v@.subrange(from as int, i as int).push(v@[i as int]));
        i = i + 1;
    }
    r
}

/// The ASCII digits of `s`, in order; every other character is dropped.
pub open spec fn only_digits(s: Seq<char>) -> Seq<char>
    decreases s.len(),
{
    if s.len() == 0 {
        Seq::empty()
    } else if is_digit(s.last()) {
        only_digits(s.drop_last()).push(s.last())
    } else {
        only_digits(s.drop_last())
    }
}

/// Keeping the digits of a text that holds only digits changes nothing.
pub proof fn lemma_only_digits_idempotent(s: Seq<char>)
    ensures
        only_digits(only_digits(s)) == only_digits(s),
    decreases s.len(),
{
    if s.len() > 0 {
        lemma_only_digits_idempotent(s.drop_last());
        let r = only_digits(s.drop_last());
        if is_digit(s.last()) {
            assert(r.push(s.last()).drop_last() == r);
        }
    }
}

/// The digits kept from a text are its ASCII digits in order, every other
/// character dropped (vstd's `filter`): they are all digits, and a text of
/// digits alone is kept whole.
pub proof fn law_only_digits_filters_digits(s: Seq<char>)
    ensures
        only_digits(s) == s.filter(|c: char| is_digit(c)),
        all_digits(only_digits(s)),
        all_digits(s) ==> only_digits(s) == s,
        only_digits(s).len() <= s.len(),
    decreases s.len(),
{
    reveal(Seq::filter);
    if s.len() > 0 {
        let u = s.drop_last();
        law_only_digits_filters_digits(u);
        let r = only_digits(u);
        if is_digit(s.last()) {
            assert forall|i: int| 0 <= i < r.push(s.last()).len() implies is_digit(
                #[trigger] r.push(s.last())[i],
            ) by {
                if i < r.len() {
                    assert(r.push(s.last())[i] == r[i]);
                }
            }
        }
        if all_digits(s) {
            assert forall|i: int| 0 <= i < u.len() implies is_digit(#[trigger] u[i]) by {
                assert(u[i] == s[i]);
            }
            assert(is_digit(s[s.len() - 1]));
            assert(u.push(s.last()) =~= s);
        }
    }
}

/// Keeps the ASCII digits of `s`, dropping every other character.
pub fn keep_digits(s: &str) -> (r: String)
    ensures
        r@ == only_digits(s@),
{
    let v = chars_of(s);
    let mut r = String::new();
    let mut i: usize = 0;
    while i < v.len()
        invariant
            i <= v@.len(),
            v@ == s@,
            r@ == only_digits(v@.take(i as int)),
        decreases v.len() - i,
    {
        let c: char = v[i];
        assert(v@.take(i + 1).drop_last() == v@.take(i as int));
        if '0' <= c && c <= '9' {
            r.push(c);
        }
        i = i + 1;
    }
    assert(v@.take(v@.len() as int) == v@);
    r
}

/// `s` with every single quote doubled, as SQL string literals require.
pub open spec fn escape_quotes(s: Seq<char>) -> Seq<char>
    decreases s.len(),
{
    if s.len() == 0 {
        Seq::empty()
    } else if s.last() == '\'' {
        escape_quotes(s.drop_last()).push('\'').push('\'')
    } else {
        escape_quotes(s.drop_last()).push(s.last())
    }
}

/// Doubles every single quote of `s`, so that it can stand inside a SQL
/// string literal.
pub fn sanitize(s: &str) -> (r: String)
    ensures
        r@ == escape_quotes(s@),
{
    let v = chars_of(s);
    let mut r = String::new();
    let mut i: usize = 0;
    while i < v.len()
        invariant
            i <= v@.len(),
            v@ == s@,
            r@ == escape_quotes(v@.take(i as int)),
        decreases v.len() - i,
    {
        let c: char = v[i];
        assert(v@.take(i + 1).drop_last() == v@.take(i as int));
        if c == '\'' {
            r.push('\'');
            r.push('\'');
        } else {
            r.push(c);
        }
        i = i + 1;
    }
    assert(v@.take(v@.len() as int) == v@);
    r
}

/// The text that a SQL string literal body stands for, read from its end:
/// a doubled quote stands for one quote, any other character for itself; a
/// lone quote would close the literal, so there is no such text.
pub open spec fn read_literal_body(t: Seq<char>) -> Option<Seq<char>>
    decreases t.len(),
{
    if t.len() == 0 {
        Some(Seq::empty())
    } else if t.last() == '\'' {
        if t.len() >= 2 && t[t.len() - 2] == '\'' {
            match read_literal_body(t.subrange(0, t.len() - 2)) {
                Some(r) => Some(r.push('\'')),
                None => None,
            }
        } else {
            None
        }
    } else {
        match read_literal_body(t.drop_last()) {
            Some(r) => Some(r.push(t.last())),
            None => None,
        }
    }
}

/// A value with its quotes doubled, placed between quotes, reads back as
/// exactly that value: it cannot end the literal early.
pub proof fn law_escaped_value_reads_back(s: Seq<char>)
    ensures
        read_literal_body(escape_quotes(s)) == Some(s),
    decreases s.len(),
{
    if s.len() > 0 {
        law_escaped_value_reads_back(s.drop_last());
        let e = escape_quotes(s.drop_last());
        if s.last() == '\'' {
            let t = e.push('\'').push('\'');
            assert(t.subrange(0, t.len() - 2) == e);
            assert(s.drop_last().push('\'') == s);
        } else {
            let t = e.push(s.last());
            assert(t.drop_last() == e);
            assert(s.drop_last().push(s.last()) == s);
        }
    }
}

/// `s` without its trailing slashes.
pub open spec fn trim_end_slashes(s: Seq<char>) -> Seq<char>
    decreases s.len(),
{
    if s.len() > 0 && s.last() == '/' {
        trim_end_slashes(s.drop_last())
    } else {
        s
    }
}

/// The part of `s` after its last slash; all of `s` when it has none.
pub open spec fn after_last_slash(s: Seq<char>) -> Seq<char>
    decreases s.len(),
{
    if s.len() == 0 {
        s
    } else if s.last() == '/' {
        Seq::empty()
    } else {
        after_last_slash(s.drop_last()).push(s.last())
    }
}

/// The index just past the last slash of `v[..end]`, or 0 when there is none.
fn segment_start(v: &Vec<char>, end: usize) -> (j: usize)
    requires
        end <= v@.len(),
    ensures
        j <= end,
        after_last_slash(v@.take(end as int)) == v@.subrange(j as int, end as int),
{
    let mut j: usize = end;
    while j > 0 && v[j - 1] != '/'
        invariant
            j <= end <= v@.len(),
            after_last_slash(v@.take(end as int)) == after_last_slash(v@.take(j as int))
                + v@.subrange(j as int, end as int),
        decreases j,
    {
        let ghost t = v@.take(j as int);
        assert(t.drop_last() == v@.take(j - 1));
        assert(v@.subrange(j - 1, end as int) == seq![v@[j - 1]] + v@.subrange(j as int, end as int));
        j = j - 1;
    }
    j
}

/// The number of characters left in `v[..end]` once trailing slashes are removed.
fn trimmed_end(v: &Vec<char>, end: usize) -> (k: usize)
    requires
        end <= v@.len(),
    ensures
        k <= end,
        trim_end_slashes(v@.take(end as int)) == v@.take(k as int),
{
    let mut k: usize = end;
    while k > 0 && v[k - 1] == '/'
        invariant
            k <= end <= v@.len(),
            trim_end_slashes(v@.take(end as int)) == trim_end_slashes(v@.take(k as int)),
        decreases k,
    {
        assert(v@.take(k as int).drop_last() == v@.take(k - 1));
        k = k - 1;
    }
    k
}

/// What `s.rsplit('/').next()` yields: the part after the last slash.
pub fn after_last_slash_of(s: &str) -> (r: String)
    ensures
        r@ == after_last_slash(s@),
{
    let v = chars_of(s);
    assert(v@.take(v@.len() as int) == v@);
    let j: usize = segment_start(&v, v.len());
    string_from_chars(&v, j, v.len())
}

/// The last path segment of `s` once trailing slashes are removed.
pub fn last_segment(s: &str) -> (r: String)
    ensures
        r@ == after_last_slash(trim_end_slashes(s@)),
{
    let v = chars_of(s);
    assert(v@.take(v@.len() as int) == v@);
    let k: usize = trimmed_end(&v, v.len());
    let j: usize = segment_start(&v, k);
    string_from_chars(&v, j, k)
}

/// `s` without its trailing slashes.
pub fn trim_trailing_slashes(s: &str) -> (r: String)
    ensures
        r@ == trim_end_slashes(s@),
{
    let v = chars_of(s);
    assert(v@.take(v@.len() as int) == v@);
    let k: usize = trimmed_end(&v, v.len());
    string_from_chars(&v, 0, k)
}

/// Whether `s` ends with `suffix`.
pub open spec fn ends_with(s: Seq<char>, suffix: Seq<char>) -> bool {
    suffix.len() <= s.len() && s.subrange(s.len() - suffix.len(), s.len() as int) == suffix
}

/// Whether `s` holds `p` as a contiguous part.
pub open spec fn contains(s: Seq<char>, p: Seq<char>) -> bool {
    exists|i: int| 0 <= i <= s.len() - p.len() && #[trigger] s.subrange(i, i + p.len()) == p
}

/// Whether `v[at..]` starts with `p`.
fn matches_at(v: &Vec<char>, p: &Vec<char>, at: usize) -> (r: bool)
    requires
        at + p@.len() <= v@.len(),
    ensures
        r == (v@.subrange(at as int, at + p@.len()) == p@),
{
    let n: usize = v.len();
    let mut i: usize = 0;
    while i < p.len()
        invariant
            i <= p@.len(),
            n == v@.len(),
            at + p@.len() <= v@.len(),
            forall|k: int| 0 <= k < i ==> v@[at + k] == p@[k],
        decreases p.len() - i,
    {
        assert(at + i < n);
        if v[at + i] != p[i] {
            assert(v@.subrange(at as int, at + p@.len())[i as int] != p@[i as int]);
            return false;
        }
        i = i + 1;
    }
    assert(v@.subrange(at as int, at + p@.len()) =~= p@);
    true
}

/// Whether `s` ends with `suffix`.
pub fn chars_end_with(s: &Vec<char>, suffix: &Vec<char>) -> (r: bool)
    ensures
        r == ends_with(s@, suffix@),
{
    if suffix.len() > s.len() {
        false
    } else {
        matches_at(s, suffix, s.len() - suffix.len())
    }
}

/// Whether `s` holds `p` as a contiguous part.
pub fn chars_contain(s: &Vec<char>, p: &Vec<char>) -> (r: bool)
    ensures
        r == contains(s@, p@),
{
    if p.len() > s.len() {
        return false;
    }
    if p.len() == 0 {
        assert(s@.subrange(0int, 0int + p@.len()) =~= p@);
        return true;
    }
    let stop: usize = s.len() - p.len() + 1;
    let mut i: usize = 0;
    while i < stop
        invariant
            stop + p@.len() == s@.len() + 1,
            i <= stop,
            forall|k: int| 0 <= k < i ==> #[trigger] s@.subrange(k, k + p@.len()) != p@,
        decreases stop - i,
    {
        if matches_at(s, p, i) {
            return true;
        }
        i = i + 1;
    }
    false
}

/// Whether every character of `s` is an ASCII digit.
pub open spec fn all_digits(s: Seq<char>) -> bool {
    forall|i: int| 0 <= i < s.len() ==> is_digit(#[trigger] s[i])
}

/// The number that the ASCII digits `s` spell in base 10.
pub open spec fn digits_value(s: Seq<char>) -> nat
    decreases s.len(),
{
    if s.len() == 0 {
        0
    } else {
        digits_value(s.drop_last()) * 10 + digit_value(s.last())
    }
}

/// What `u64::from_str` accepts: an optional `+`, then one or more ASCII
/// digits whose value fits in a `u64`.
pub open spec fn parse_u64_spec(s: Seq<char>) -> Option<u64> {
    let body = if s.len() > 0 && s[0] == '+' { s.drop_first() } else { s };
    if body.len() > 0 && all_digits(body) && digits_value(body) <= u64::MAX {
        Some(digits_value(body) as u64)
    } else {
        None
    }
}

/// A longer run of digits spells at least as much as its prefix.
proof fn lemma_digits_value_prefix(s: Seq<char>, k: int)
    requires
        0 <= k <= s.len(),
        all_digits(s),
    ensures
        digits_value(s.take(k)) <= digits_value(s),
    decreases s.len(),
{
    if k < s.len() {
        assert(all_digits(s.drop_last()));
        assert(s.drop_last().take(k) == s.take(k));
        lemma_digits_value_prefix(s.drop_last(), k);
    } else {
        assert(s.take(k) == s);
    }
}

/// Parses a decimal `u64` the way `u64::from_str` does.
pub fn parse_u64(s: &str) -> (r: Option<u64>)
    ensures
        r == parse_u64_spec(s@),
{
    let v = chars_of(s);
    let start: usize = if v.len() > 0 && v[0] == '+' { 1 } else { 0 };
    let ghost body = if s@.len() > 0 && s@[0] == '+' { s@.drop_first() } else { s@ };
    assert(body == v@.subrange(start as int, v@.len() as int));
    if start >= v.len() {
        return None;
    }
    let mut acc: u64 = 0;
    let mut i: usize = start;
    while i < v.len()
        invariant
            start <= i <= v@.len(),
            start < v@.len(),
            body == (if s@.len() > 0 && s@[0] == '+' { s@.drop_first() } else { s@ }),
            body == v@.subrange(start as int, v@.len() as int),
            all_digits(body.take(i - start)),
            acc as nat == digits_value(body.take(i - start)),
        decreases v.len() - i,
    {
        let c: char = v[i];
        let ghost pre = body.take(i - start);
        let ghost next = body.take(i + 1 - start);
        assert(next.drop_last() == pre);
        assert(next.last() == c);
        if !('0' <= c && c <= '9') {
            assert(!is_digit(body[i - start]));
            return None;
        }
        let d: u64 = (c as u32 - 48u32) as u64;
        assert(all_digits(next));
        if acc > 1844674407370955161u64 || (acc == 1844674407370955161u64 && d > 5) {
            proof {
                if all_digits(body) {
                    lemma_digits_value_prefix(body, i + 1 - start);
                }
            }
            return None;
        }
        acc = acc * 10 + d;
        i = i + 1;
    }
    assert(body.take(i - start) == body);
    Some(acc)
}

/// Whether `c` is an ASCII character.
pub open spec fn is_ascii_char(c: char) -> bool {
    (c as u32) < 128
}

/// Whether every character of `s` is ASCII.
pub open spec fn all_ascii(s: Seq<char>) -> bool {
    forall|i: int| 0 <= i < s.len() ==> is_ascii_char(#[trigger] s[i])
}

/// The ASCII lower case of `c`: `A`..=`Z` become `a`..=`z`, all else stays.
pub open spec fn ascii_lower_char(c: char) -> char {
    if 'A' <= c && c <= 'Z' {
        ((c as u32) + 32) as char
    } else {
        c
    }
}

/// The ASCII upper case of `c`: `a`..=`z` become `A`..=`Z`, all else stays.
pub open spec fn ascii_upper_char(c: char) -> char {
    if 'a' <= c && c <= 'z' {
        ((c as u32) - 32) as char
    } else {
        c
    }
}

/// `s` with every character mapped to its ASCII lower case.
pub open spec fn ascii_lower(s: Seq<char>) -> Seq<char> {
    s.map_values(|c: char| ascii_lower_char(c))
}

/// `s` with every character mapped to its ASCII upper case.
pub open spec fn ascii_upper(s: Seq<char>) -> Seq<char> {
    s.map_values(|c: char| ascii_upper_char(c))
}

/// Upper-casing forgets any earlier change of ASCII case: the upper case of
/// the lower case, or of the upper case, of an ASCII text is its upper case,
/// and both stay ASCII.
pub proof fn lemma_ascii_case_round(s: Seq<char>)
    requires
        all_ascii(s),
    ensures
        all_ascii(ascii_lower(s)),
        all_ascii(ascii_upper(s)),
        ascii_upper(ascii_lower(s)) == ascii_upper(s),
        ascii_upper(ascii_upper(s)) == ascii_upper(s),
{
    assert forall|i: int| 0 <= i < s.len() implies is_ascii_char(#[trigger] ascii_lower(s)[i])
        && is_ascii_char(ascii_upper(s)[i]) by {
        assert(is_ascii_char(s[i]));
    }
    assert(ascii_upper(ascii_lower(s)) =~= ascii_upper(s));
    assert(ascii_upper(ascii_upper(s)) =~= ascii_upper(s));
}

/// What `str::to_lowercase` returns for a string: its lower-case mapping
/// under the Unicode `Lowercase` property (with the context-dependent rule
/// for the final capital sigma).
pub uninterp spec fn spec_to_lowercase(s: Seq<char>) -> Seq<char>;

/// What `str::to_uppercase` returns for a string: its upper-case mapping
/// under the Unicode `Uppercase` property.
pub uninterp spec fn spec_to_uppercase(s: Seq<char>) -> Seq<char>;

/// Calls `str::to_lowercase`; the result is named by `spec_to_lowercase`.
/// On ASCII text the Unicode mapping is the ASCII one: `A`..=`Z` become
/// `a`..=`z` and every other character stays.
#[verifier::external_body]
pub(crate) fn to_lowercase(s: &str) -> (r: String)
    ensures
        r@ == spec_to_lowercase(s@),
        all_ascii(s@) ==> r@ == ascii_lower(s@),
{
    s.to_lowercase()
}

/// Calls `str::to_uppercase`; the result is named by `spec_to_uppercase`.
/// On ASCII text the Unicode mapping is the ASCII one: `a`..=`z` become
/// `A`..=`Z` and every other character stays.
#[verifier::external_body]
pub(crate) fn to_uppercase(s: &str) -> (r: String)
    ensures
        r@ == spec_to_uppercase(s@),
        all_ascii(s@) ==> r@ == ascii_upper(s@),
{
    s.to_uppercase()
}

/// Whether `c` has the Unicode `White_Space` property, as
/// `char::is_whitespace` tests it.
pub open spec fn is_white_space(c: char) -> bool {
    let u = c as u32;
    (0x09 <= u && u <= 0x0d) || u == 0x20 || u == 0x85 || u == 0xa0 || u == 0x1680 || (0x2000
        <= u && u <= 0x200a) || u == 0x2028 || u == 0x2029 || u == 0x202f || u == 0x205f || u
        == 0x3000
}

/// `s` without its leading white space.
pub open spec fn trim_start_spec(s: Seq<char>) -> Seq<char>
    decreases s.len(),
{
    if s.len() > 0 && is_white_space(s[0]) {
        trim_start_spec(s.drop_first())
    } else {
        s
    }
}

/// `s` without its trailing white space.
pub open spec fn trim_end_spec(s: Seq<char>) -> Seq<char>
    decreases s.len(),
{
    if s.len() > 0 && is_white_space(s.last()) {
        trim_end_spec(s.drop_last())
    } else {
        s
    }
}

/// `s` without its leading and trailing white space, as `str::trim` gives it.
pub open spec fn trim_spec(s: Seq<char>) -> Seq<char> {
    trim_end_spec(trim_start_spec(s))
}

/// Whether `c` has the Unicode `White_Space` property.
fn white_space(c: char) -> (r: bool)
    ensures
        r == is_white_space(c),
{
    let u = c as u32;
    (0x09 <= u && u <= 0x0d) || u == 0x20 || u == 0x85 || u == 0xa0 || u == 0x1680 || (0x2000
        <= u && u <= 0x200a) || u == 0x2028 || u == 0x2029 || u == 0x202f || u == 0x205f || u
        == 0x3000
}

/// `s` without its leading and trailing white space.
pub fn trim(s: &str) -> (r: String)
    ensures
        r@ == trim_spec(s@),
{
    let v = chars_of(s);
    let n: usize = v.len();
    let mut a: usize = 0;
    assert(v@.subrange(0, n as int) == v@);
    while a < n && white_space(v[a])
        invariant
            a <= n,
            n == v@.len(),
            trim_start_spec(v@) == trim_start_spec(v@.subrange(a as int, n as int)),
        decreases n - a,
    {
        assert(v@.subrange(a as int, n as int).drop_first() == v@.subrange(a + 1, n as int));
        a = a + 1;
    }
    let mut b: usize = n;
    while b > a && white_space(v[b - 1])
        invariant
            a <= b <= n,
            n == v@.len(),
            trim_end_spec(v@.subrange(a as int, n as int)) == trim_end_spec(
                v@.subrange(a as int, b as int),
            ),
        decreases b - a,
    {
        assert(v@.subrange(a as int, b as int).drop_last() == v@.subrange(a as int, b - 1));
        b = b - 1;
    }
    string_from_chars(&v, a, b)
}

} // verus!
