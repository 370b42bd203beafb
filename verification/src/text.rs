//! Text helpers for the textual forms of the library's values: splitting,
//! decimal numbers and string building, all over the characters of a
//! string.

use vstd::prelude::*;

verus! {

/// The characters of `s`.
pub fn chars_of(s: &str) -> (r: Vec<char>)
    ensures
        r@ == s@,
{
    broadcast use vstd::string::axiom_spec_iter;

    let mut v: Vec<char> = Vec::new();
    for c in it: s.chars()
        invariant
            v@ == it.seq().take(it.index() as int),
    {
        v.push(c);
    }
    v
}

/// `String::push`: appends one character.
#[verifier::external_body]
pub fn string_push(s: &mut String, c: char)
    ensures
        final(s)@ == old(s)@.push(c),
{
    s.push(c);
}

/// Appends the characters of `cs`.
pub fn push_chars(s: &mut String, cs: &[char])
    ensures
        final(s)@ == old(s)@ + cs@,
{
    let mut i: usize = 0;
    while i < cs.len()
        invariant
            i <= cs@.len(),
            s@ =~= old(s)@ + cs@.subrange(0, i as int),
        decreases cs@.len() - i,
    {
        string_push(s, cs[i]);
        i = i + 1;
    }
    assert(cs@.subrange(0, cs@.len() as int) =~= cs@);
}

/// Appends the characters of `t`.
pub fn push_str(s: &mut String, t: &str)
    ensures
        final(s)@ == old(s)@ + t@,
{
    let cs = chars_of(t);
    push_chars(s, cs.as_slice());
}

/// The string with the characters of `cs`.
pub fn string_from_chars(cs: &[char]) -> (r: String)
    ensures
        r@ == cs@,
{
    let mut s = String::new();
    push_chars(&mut s, cs);
    assert(s@ =~= cs@);
    s
}

/// A copy of `s[start..end]`.
pub fn sub_chars(s: &[char], start: usize, end: usize) -> (r: Vec<char>)
    requires
        start <= end <= s@.len(),
    ensures
        r@ == s@.subrange(start as int, end as int),
{
    let mut v: Vec<char> = Vec::new();
    let mut i = start;
    while i < end
        invariant
            start <= i <= end,
            end <= s@.len(),
            v@ =~= s@.subrange(start as int, i as int),
        decreases end - i,
    {
        v.push(s[i]);
        i = i + 1;
    }
    v
}

/// Whether two character sequences are equal.
pub fn chars_eq(a: &[char], b: &[char]) -> (r: bool)
    ensures
        r == (a@ == b@),
{
    if a.len() != b.len() {
        return false;
    }
    let mut i: usize = 0;
    while i < a.len()
        invariant
            a@.len() == b@.len(),
            i <= a@.len(),
            forall|k: int| 0 <= k < i ==> a@[k] == b@[k],
        decreases a@.len() - i,
    {
        if a[i] != b[i] {
            return false;
        }
        i = i + 1;
    }
    assert(a@ =~= b@);
    true
}

// ---------------------------------------------------------------------------
// Searching and splitting
// ---------------------------------------------------------------------------

/// Whether `pat` occurs in `s` at `i`.
pub open spec fn matches_at(s: Seq<char>, i: int, pat: Seq<char>) -> bool {
    0 <= i && i + pat.len() <= s.len() && s.subrange(i, i + pat.len()) == pat
}

/// The index of the first occurrence of `pat` in `s`.
pub open spec fn index_of(s: Seq<char>, pat: Seq<char>) -> Option<int>
    decreases s.len(),
{
    if s.len() < pat.len() {
        None
    } else if s.subrange(0, pat.len() as int) == pat {
        Some(0)
    } else if s.len() == 0 {
        None
    } else {
        match index_of(s.skip(1), pat) {
            Some(i) => Some(i + 1),
            None => None,
        }
    }
}

/// The first occurrence of `pat` is the occurrence with no occurrence before
/// it.
pub proof fn lemma_index_of(s: Seq<char>, pat: Seq<char>)
    ensures
        index_of(s, pat) matches Some(j) ==> matches_at(s, j, pat) && forall|i: int| 0 <= i < j ==> !matches_at(s, i, pat),
        index_of(s, pat) is None ==> forall|i: int| !matches_at(s, i, pat),
    decreases s.len(),
{
    if s.len() >= pat.len() && s.subrange(0, pat.len() as int) != pat && s.len() > 0 {
        lemma_index_of(s.skip(1), pat);
        assert forall|i: int| matches_at(s, i, pat) implies (i == 0 || matches_at(s.skip(1), i - 1, pat)) by {
            if i > 0 {
                assert(s.skip(1).subrange(i - 1, i - 1 + pat.len()) =~= s.subrange(i, i + pat.len()));
            }
        }
        if let Some(j) = index_of(s.skip(1), pat) {
            assert(s.skip(1).subrange(j, j + pat.len()) =~= s.subrange(j + 1, j + 1 + pat.len()));
        }
    }
}

/// Occurrences in `s.skip(from)` are the occurrences in `s` after `from`.
proof fn lemma_matches_skip(s: Seq<char>, from: int, k: int, pat: Seq<char>)
    requires
        0 <= from <= s.len(),
        0 <= k,
    ensures
        matches_at(s.skip(from), k, pat) == matches_at(s, from + k, pat),
{
    if k + pat.len() <= s.len() - from {
        assert(s.skip(from).subrange(k, k + pat.len()) =~= s.subrange(from + k, from + k + pat.len()));
    }
}

/// The index of the first occurrence of `pat` in `s` at or after `from`.
pub fn find(s: &[char], from: usize, pat: &[char]) -> (r: Option<usize>)
    requires
        from <= s@.len(),
    ensures
        match index_of(s@.skip(from as int), pat@) {
            Some(j) => r matches Some(p) && p == from + j,
            None => r is None,
        },
{
    if pat.len() > s.len() - from {
        proof {
            lemma_index_of(s@.skip(from as int), pat@);
        }
        return None;
    }
    if pat.len() == 0 {
        proof {
            assert(s@.skip(from as int).subrange(0, 0) =~= pat@);
        }
        return Some(from);
    }
    let last = s.len() - pat.len();
    let mut i = from;
    while i <= last
        invariant
            from <= i,
            from <= s@.len(),
            pat@.len() >= 1,
            last + pat.len() == s.len(),
            forall|k: int| from <= k < i ==> !matches_at(s@, k, pat@),
        decreases last + 1 - i,
    {
        let cand = sub_chars(s, i, i + pat.len());
        if chars_eq(cand.as_slice(), pat) {
            proof {
                let t = s@.skip(from as int);
                lemma_index_of(t, pat@);
                lemma_matches_skip(s@, from as int, i - from, pat@);
                assert forall|k: int| 0 <= k < i - from implies !matches_at(t, k, pat@) by {
                    lemma_matches_skip(s@, from as int, k, pat@);
                }
                if let Some(j) = index_of(t, pat@) {
                    if j > i - from {
                        assert(!matches_at(t, i - from, pat@));
                    }
                    lemma_matches_skip(s@, from as int, j, pat@);
                }
            }
            return Some(i);
        }
        i = i + 1;
    }
    proof {
        let t = s@.skip(from as int);
        lemma_index_of(t, pat@);
        if let Some(j) = index_of(t, pat@) {
            lemma_matches_skip(s@, from as int, j, pat@);
        }
    }
    None
}

/// The pieces of `s` between the occurrences of `sep`.
pub open spec fn split(s: Seq<char>, sep: char) -> Seq<Seq<char>>
    decreases s.len(),
{
    match index_of(s, seq![sep]) {
        Some(i) => if 0 <= i < s.len() {
            seq![s.take(i)] + split(s.skip(i + 1), sep)
        } else {
            seq![s]
        },
        None => seq![s],
    }
}

/// The text before and after the first occurrence of `pat`.
pub open spec fn split_once(s: Seq<char>, pat: Seq<char>) -> Option<(Seq<char>, Seq<char>)> {
    match index_of(s, pat) {
        Some(i) => Some((s.take(i), s.skip(i + pat.len()))),
        None => None,
    }
}

/// The character sequences of a list of character vectors.
pub open spec fn views(v: Seq<Vec<char>>) -> Seq<Seq<char>> {
    v.map_values(|x: Vec<char>| x@)
}

/// The pieces of `s` between the occurrences of `sep`.
pub fn split_chars(s: &[char], sep: char) -> (r: Vec<Vec<char>>)
    ensures
        views(r@) == split(s@, sep),
{
    let mut pat: Vec<char> = Vec::new();
    pat.push(sep);
    assert(pat@ =~= seq![sep]);
    let mut done: Vec<Vec<char>> = Vec::new();
    let mut start: usize = 0;
    let slen = s.len();
    assert(s@.skip(0) =~= s@);
    assert(views(done@) + split(s@, sep) =~= split(s@, sep));
    loop
        invariant
            start <= s@.len(),
            slen == s@.len(),
            pat@ == seq![sep],
            views(done@) + split(s@.skip(start as int), sep) == split(s@, sep),
        decreases s@.len() - start,
    {
        let ghost t = s@.skip(start as int);
        proof {
            lemma_index_of(t, seq![sep]);
        }
        match find(s, start, pat.as_slice()) {
            Some(k) => {
                proof {
                    let j = index_of(t, seq![sep])->Some_0;
                    assert(k == start + j);
                    assert(matches_at(t, j, seq![sep]));
                }
                let piece = sub_chars(s, start, k);
                proof {
                    assert(t.take(k - start) =~= piece@);
                    assert(t.skip(k - start + 1) =~= s@.skip(k + 1));
                    assert(split(t, sep) =~= seq![piece@] + split(s@.skip(k + 1), sep));
                }
                let ghost old_done = done@;
                done.push(piece);
                assert(views(done@) =~= views(old_done).push(piece@));
                assert(views(done@) + split(s@.skip(k + 1), sep) =~= views(old_done) + split(t, sep));
                start = k + 1;
            },
            None => {
                let piece = sub_chars(s, start, s.len());
                assert(piece@ =~= t);
                assert(split(t, sep) =~= seq![t]);
                let ghost old_done = done@;
                done.push(piece);
                assert(views(done@) =~= views(old_done).push(t));
                assert(views(done@) =~= views(old_done) + split(t, sep));
                return done;
            },
        }
    }
}

/// The text before and after the first occurrence of `pat`.
pub fn split_once_chars(s: &[char], pat: &[char]) -> (r: Option<(Vec<char>, Vec<char>)>)
    ensures
        match split_once(s@, pat@) {
            Some((a, b)) => r matches Some((x, y)) && x@ == a && y@ == b,
            None => r is None,
        },
{
    assert(s@.skip(0) =~= s@);
    let slen = s.len();
    proof {
        lemma_index_of(s@, pat@);
    }
    match find(s, 0, pat) {
        Some(i) => {
            let a = sub_chars(s, 0, i);
            let b = sub_chars(s, i + pat.len(), s.len());
            assert(a@ =~= s@.take(i as int));
            assert(b@ =~= s@.skip(i + pat@.len()));
            Some((a, b))
        },
        None => None,
    }
}

// ---------------------------------------------------------------------------
// Decimal numbers
// ---------------------------------------------------------------------------

pub open spec fn is_digit(c: char) -> bool {
    48 <= c as u32 <= 57
}

pub open spec fn digit_value(c: char) -> nat {
    (c as u32 - 48) as nat
}

/// The character of a digit below ten.
pub open spec fn digit_char(d: nat) -> char {
    ((d + 48) as u8) as char
}

proof fn lemma_digit_char(d: nat)
    requires
        d < 10,
    ensures
        is_digit(digit_char(d)),
        digit_value(digit_char(d)) == d,
        digit_char(d) != '+',
{
}

/// The value of a string of decimal digits.
pub open spec fn digits_value(s: Seq<char>) -> nat
    decreases s.len(),
{
    if s.len() == 0 {
        0
    } else {
        digits_value(s.drop_last()) * 10 + digit_value(s.last())
    }
}

pub open spec fn all_digits(s: Seq<char>) -> bool {
    forall|i: int| 0 <= i < s.len() ==> is_digit(#[trigger] s[i])
}

/// The unsigned number that `s` writes, when it is at most `max`: an
/// optional `+`, then one or more decimal digits.
pub open spec fn spec_parse_unsigned(s: Seq<char>, max: nat) -> Option<nat> {
    let d = if s.len() > 0 && s[0] == '+' { s.skip(1) } else { s };
    if d.len() == 0 || !all_digits(d) || digits_value(d) > max {
        None
    } else {
        Some(digits_value(d))
    }
}

/// Why a decimal number could not be read, as std's integer parsing
/// reports it.
#[derive(Debug, Clone, Copy, PartialEq, Eq, Structural)]
pub enum IntErrorKind {
    /// The text is empty.
    Empty,
    /// A character is not a digit.
    InvalidDigit,
    /// The number is larger than the type holds.
    PosOverflow,
}

/// The first fault met reading the digits `d` after the value `acc`,
/// from the front: a character that is not a digit, or a value above
/// `max`; `None` when there is none.
pub open spec fn digits_fault(d: Seq<char>, acc: nat, max: nat) -> Option<IntErrorKind>
    decreases d.len(),
{
    if d.len() == 0 {
        None
    } else if !is_digit(d[0]) {
        Some(IntErrorKind::InvalidDigit)
    } else if acc * 10 + digit_value(d[0]) > max {
        Some(IntErrorKind::PosOverflow)
    } else {
        digits_fault(d.skip(1), acc * 10 + digit_value(d[0]), max)
    }
}

/// Why `s` is not an unsigned number of at most `max`: empty text, a sign
/// with nothing after it, or the first fault among the digits (a text
/// without fault reads, so `PosOverflow` there is never reported).
pub open spec fn spec_unsigned_error(s: Seq<char>, max: nat) -> IntErrorKind {
    if s.len() == 0 {
        IntErrorKind::Empty
    } else {
        let d = if s[0] == '+' { s.skip(1) } else { s };
        if d.len() == 0 {
            IntErrorKind::InvalidDigit
        } else {
            match digits_fault(d, 0, max) {
                Some(k) => k,
                None => IntErrorKind::PosOverflow,
            }
        }
    }
}

/// Why `s` is not an unsigned number of at most `max`.
pub fn unsigned_error(s: &[char], max: u64) -> (r: IntErrorKind)
    requires
        max < 0x1000_0000_0000_0000,
    ensures
        r == spec_unsigned_error(s@, max as nat),
{
    if s.len() == 0 {
        return IntErrorKind::Empty;
    }
    let start: usize = if s[0] == '+' { 1 } else { 0 };
    let ghost d = if s@[0] == '+' { s@.skip(1) } else { s@ };
    assert(d =~= s@.skip(start as int));
    if start >= s.len() {
        return IntErrorKind::InvalidDigit;
    }
    let mut acc: u64 = 0;
    let mut i: usize = start;
    while i < s.len()
        invariant
            start <= i <= s@.len(),
            s@.len() > 0,
            start == (if s@[0] == '+' { 1usize } else { 0usize }),
            d == (if s@[0] == '+' { s@.skip(1) } else { s@ }),
            d == s@.skip(start as int),
            d.len() > 0,
            acc <= max,
            max < 0x1000_0000_0000_0000,
            digits_fault(d, 0, max as nat) == digits_fault(s@.skip(i as int), acc as nat, max as nat),
        decreases s@.len() - i,
    {
        let ghost rest = s@.skip(i as int);
        assert(rest[0] == s@[i as int]);
        assert(rest.skip(1) =~= s@.skip(i + 1));
        let c = s[i] as u32;
        if c < 48 || c > 57 {
            return IntErrorKind::InvalidDigit;
        }
        let a = acc * 10 + (c - 48) as u64;
        if a > max {
            return IntErrorKind::PosOverflow;
        }
        acc = a;
        i = i + 1;
    }
    IntErrorKind::PosOverflow
}

/// The decimal digits of `n`, without leading zeros.
pub open spec fn decimal(n: nat) -> Seq<char>
    decreases n,
{
    if n < 10 {
        seq![digit_char(n)]
    } else {
        decimal(n / 10).push(digit_char(n % 10))
    }
}

proof fn lemma_digits_value_prefix(s: Seq<char>, k: int)
    requires
        0 <= k <= s.len(),
        all_digits(s),
    ensures
        digits_value(s.take(k)) <= digits_value(s),
    decreases s.len(),
{
    if k < s.len() {
        lemma_digits_value_prefix(s.drop_last(), k);
        assert(s.drop_last().take(k) =~= s.take(k));
    } else {
        assert(s.take(k) =~= s);
    }
}

/// The unsigned number that `s` writes, when it is at most `max`.
pub fn parse_unsigned(s: &[char], max: u64) -> (r: Option<u64>)
    ensures
        match spec_parse_unsigned(s@, max as nat) {
            Some(v) => r == Some(v as u64),
            None => r is None,
        },
{
    let start: usize = if s.len() > 0 && s[0] == '+' { 1 } else { 0 };
    let ghost d = s@.skip(start as int);
    assert(s@.skip(0) =~= s@);
    if start >= s.len() {
        return None;
    }
    let mut acc: u64 = 0;
    let mut i = start;
    while i < s.len()
        invariant
            start <= i <= s@.len(),
            start < s@.len(),
            start == (if s@.len() > 0 && s@[0] == '+' { 1int } else { 0int }),
            d == s@.skip(start as int),
            d == (if start == 1 { s@.skip(1) } else { s@ }),
            all_digits(d.take(i - start)),
            acc == digits_value(d.take(i - start)),
            acc <= max,
        decreases s@.len() - i,
    {
        let c = s[i] as u32;
        assert(d.take(i - start + 1).drop_last() =~= d.take(i - start));
        if c < 48 || c > 57 {
            assert(!is_digit(d[i - start]));
            return None;
        }
        let digit = (c - 48) as u64;
        assert(digit_value(d[i - start]) == digit);
        if digit > max || acc > (max - digit) / 10 {
            proof {
                assert(acc * 10 + digit > max) by (nonlinear_arith)
                    requires
                        digit > max || acc > (max - digit) / 10,
                ;
                assert(digits_value(d.take(i - start + 1)) == acc * 10 + digit);
                if all_digits(d) {
                    lemma_digits_value_prefix(d, i - start + 1);
                }
            }
            return None;
        }
        assert(acc * 10 <= max - digit) by (nonlinear_arith)
            requires
                acc <= (max - digit) / 10,
                digit <= max,
        ;
        acc = acc * 10 + digit;
        i = i + 1;
    }
    assert(d.take(i - start) =~= d);
    assert(all_digits(d));
    assert(digits_value(d) == acc);
    assert(d.len() > 0);
    assert(spec_parse_unsigned(s@, max as nat) == Some(acc as nat));
    Some(acc)
}

/// Appends the decimal digits of `n`.
pub fn push_decimal(s: &mut String, n: u64)
    ensures
        final(s)@ == old(s)@ + decimal(n as nat),
    decreases n,
{
    if n >= 10 {
        push_decimal(s, n / 10);
    }
    string_push(s, ((n % 10) as u8 + 48) as char);
}

proof fn lemma_decimal_digits(n: nat)
    ensures
        all_digits(decimal(n)),
        decimal(n).len() > 0,
        decimal(n)[0] != '+',
        digits_value(decimal(n)) == n,
    decreases n,
{
    lemma_digit_char(n % 10);
    if n < 10 {
        lemma_digit_char(n);
        assert(decimal(n).drop_last() =~= Seq::<char>::empty());
        assert(digits_value(Seq::<char>::empty()) == 0);
        assert(decimal(n).last() == digit_char(n));
        assert(digits_value(decimal(n)) == digits_value(decimal(n).drop_last()) * 10 + digit_value(decimal(n).last()));
    } else {
        lemma_decimal_digits(n / 10);
        assert(decimal(n).drop_last() =~= decimal(n / 10));
        assert(decimal(n).last() == digit_char(n % 10));
        assert(digits_value(decimal(n)) == digits_value(decimal(n / 10)) * 10 + digit_value(digit_char(n % 10)));
        assert(n == (n / 10) * 10 + n % 10);
        assert forall|i: int| 0 <= i < decimal(n).len() implies is_digit(#[trigger] decimal(n)[i]) by {
            if i < decimal(n).len() - 1 {
                assert(decimal(n)[i] == decimal(n / 10)[i]);
            }
        }
    }
}

/// Reading the decimal digits of a number at most `max` gives the number.
pub proof fn lemma_decimal_roundtrip(n: nat, max: nat)
    requires
        n <= max,
    ensures
        spec_parse_unsigned(decimal(n), max) == Some(n),
{
    lemma_decimal_digits(n);
}

/// An occurrence with no occurrence before it is the first one.
pub proof fn lemma_index_of_unique(s: Seq<char>, pat: Seq<char>, j: int)
    requires
        matches_at(s, j, pat),
        forall|i: int| 0 <= i < j ==> !matches_at(s, i, pat),
    ensures
        index_of(s, pat) == Some(j),
{
    lemma_index_of(s, pat);
}

/// A text without the separator is one piece.
pub proof fn lemma_split_none(c: Seq<char>, sep: char)
    requires
        forall|i: int| 0 <= i < c.len() ==> c[i] != sep,
    ensures
        split(c, sep) == seq![c],
{
    lemma_index_of(c, seq![sep]);
    if let Some(j) = index_of(c, seq![sep]) {
        assert(c.subrange(j, j + 1)[0] == c[j]);
    }
}

/// A piece without the separator, the separator, and the rest: the piece
/// comes first, then the pieces of the rest.
pub proof fn lemma_split_after(a: Seq<char>, rest: Seq<char>, sep: char)
    requires
        forall|i: int| 0 <= i < a.len() ==> a[i] != sep,
    ensures
        split(a + seq![sep] + rest, sep) == seq![a] + split(rest, sep),
{
    let s = a + seq![sep] + rest;
    assert(s.subrange(a.len() as int, a.len() + 1int) =~= seq![sep]);
    assert forall|i: int| 0 <= i < a.len() implies !matches_at(s, i, seq![sep]) by {
        assert(s.subrange(i, i + 1)[0] == a[i]);
    }
    lemma_index_of_unique(s, seq![sep], a.len() as int);
    assert(s.take(a.len() as int) =~= a);
    assert(s.skip(a.len() + 1int) =~= rest);
}

/// Decimal digits are digits, and not a sign.
pub proof fn lemma_decimal_all_digits(n: nat)
    ensures
        all_digits(decimal(n)),
        decimal(n).len() > 0,
        decimal(n)[0] != '+',
{
    lemma_decimal_digits(n);
}

} // verus!
