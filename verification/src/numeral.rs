//! Numerals: the text of one number, as the sensor board or a host tool
//! writes it.
//!
//! The crate never computes with binary floating point. It carries every
//! number as the ASCII text that denotes it and guarantees that the text
//! follows the grammar below, so that a host can turn it into a machine
//! number without a failure case.
//!
//! ```text
//! Numeral     ::= Sign? ( Special | Number )
//! Special     ::= 'inf' | 'infinity' | 'nan'          (letters in either case)
//! Number      ::= Significand Exponent?
//! Significand ::= Digit+ | Digit+ '.' Digit* | Digit* '.' Digit+
//! Exponent    ::= ( 'e' | 'E' ) Sign? Digit+
//! Sign        ::= '+' | '-'
//! Digit       ::= '0' ... '9'
//! ```

use vstd::prelude::*;
use vstd::slice::slice_subrange;
use vstd::slice::slice_to_vec;

verus! {

pub const PLUS: u8 = 0x2b;

pub const MINUS: u8 = 0x2d;

pub const DOT: u8 = 0x2e;

pub const UPPER_E: u8 = 0x45;

pub const LOWER_E: u8 = 0x65;

/// ASCII decimal digit.
pub open spec fn is_digit(b: u8) -> bool {
    0x30 <= b <= 0x39
}

/// `+` or `-`.
pub open spec fn is_sign(b: u8) -> bool {
    b == PLUS || b == MINUS
}

/// Every byte of `s` is a digit. Holds of the empty sequence.
pub open spec fn all_digits(s: Seq<u8>) -> bool {
    forall|i: int| 0 <= i < s.len() ==> is_digit(#[trigger] s[i])
}

/// `s` without its leading sign, if it has one.
pub open spec fn without_sign(s: Seq<u8>) -> Seq<u8> {
    if s.len() > 0 && is_sign(s[0]) {
        s.skip(1)
    } else {
        s
    }
}

/// `s` has a dot at `k`, digits and nothing else around it, and at least one
/// digit.
pub open spec fn dot_splits(s: Seq<u8>, k: int) -> bool {
    &&& 0 <= k < s.len()
    &&& s[k] == DOT
    &&& s.len() > 1
    &&& all_digits(s.take(k))
    &&& all_digits(s.skip(k + 1))
}

/// `Digit+ | Digit+ '.' Digit* | Digit* '.' Digit+`
pub open spec fn is_significand(s: Seq<u8>) -> bool {
    ||| s.len() > 0 && all_digits(s)
    ||| exists|k: int| #[trigger] dot_splits(s, k)
}

/// `( 'e' | 'E' ) Sign? Digit+`
pub open spec fn is_exponent(s: Seq<u8>) -> bool {
    &&& s.len() > 0
    &&& (s[0] == LOWER_E || s[0] == UPPER_E)
    &&& without_sign(s.skip(1)).len() > 0
    &&& all_digits(without_sign(s.skip(1)))
}

/// The first `k` bytes of `s` are a significand and the rest, if any, is an
/// exponent.
pub open spec fn number_splits(s: Seq<u8>, k: int) -> bool {
    &&& 0 <= k <= s.len()
    &&& is_significand(s.take(k))
    &&& (k == s.len() || is_exponent(s.skip(k)))
}

/// `Significand Exponent?`
pub open spec fn is_number(s: Seq<u8>) -> bool {
    exists|k: int| #[trigger] number_splits(s, k)
}

/// An ASCII capital letter as its small letter, any other byte unchanged.
pub open spec fn folded(b: u8) -> u8 {
    if 0x41 <= b <= 0x5a {
        (b + 0x20) as u8
    } else {
        b
    }
}

/// `s` is `word` up to the case of its letters.
pub open spec fn spells(s: Seq<u8>, word: Seq<u8>) -> bool {
    &&& s.len() == word.len()
    &&& forall|i: int| 0 <= i < s.len() ==> folded(#[trigger] s[i]) == word[i]
}

/// The bytes of `inf`.
pub open spec fn word_inf() -> Seq<u8> {
    seq![0x69u8, 0x6eu8, 0x66u8]
}

/// The bytes of `nan`.
pub open spec fn word_nan() -> Seq<u8> {
    seq![0x6eu8, 0x61u8, 0x6eu8]
}

/// The bytes of `infinity`.
pub open spec fn word_infinity() -> Seq<u8> {
    seq![0x69u8, 0x6eu8, 0x66u8, 0x69u8, 0x6eu8, 0x69u8, 0x74u8, 0x79u8]
}

/// `'inf' | 'infinity' | 'nan'`, letters in either case.
pub open spec fn is_special(s: Seq<u8>) -> bool {
    spells(s, word_inf()) || spells(s, word_infinity()) || spells(s, word_nan())
}

/// The grammar of a numeral: what this crate accepts as the text of a number.
pub open spec fn is_numeral(s: Seq<u8>) -> bool {
    is_special(without_sign(s)) || is_number(without_sign(s))
}

/// Where the run of digits that starts at `from` ends: the first position at
/// or after `from` that holds no digit, or the length of `s`.
pub open spec fn digit_run_end(s: Seq<u8>, from: int) -> int
    decreases s.len() - from,
{
    if 0 <= from < s.len() && is_digit(s[from]) {
        digit_run_end(s, from + 1)
    } else {
        from
    }
}

/// The grammar of a number, read from left to right: digits, then a dot and
/// more digits, then an exponent.
pub open spec fn scans_as_number(s: Seq<u8>) -> bool {
    let a = digit_run_end(s, 0);
    let dotted = a < s.len() && s[a] == DOT;
    let m = if dotted {
        digit_run_end(s, a + 1)
    } else {
        a
    };
    let count = if dotted {
        m - 1
    } else {
        m
    };
    count > 0 && (m == s.len() || is_exponent(s.skip(m)))
}

proof fn lemma_digit_run(s: Seq<u8>, from: int)
    requires
        0 <= from <= s.len(),
    ensures
        from <= digit_run_end(s, from) <= s.len(),
        forall|i: int| from <= i < digit_run_end(s, from) ==> is_digit(#[trigger] s[i]),
        digit_run_end(s, from) == s.len() || !is_digit(s[digit_run_end(s, from)]),
    decreases s.len() - from,
{
    if from < s.len() && is_digit(s[from]) {
        lemma_digit_run(s, from + 1);
    }
}

proof fn lemma_digit_run_unique(s: Seq<u8>, from: int, end: int)
    requires
        0 <= from <= end <= s.len(),
        forall|i: int| from <= i < end ==> is_digit(#[trigger] s[i]),
        end == s.len() || !is_digit(s[end]),
    ensures
        digit_run_end(s, from) == end,
    decreases end - from,
{
    if from < end {
        assert(is_digit(s[from]));
        lemma_digit_run_unique(s, from + 1, end);
    }
}

proof fn lemma_scan_gives_number(s: Seq<u8>)
    requires
        scans_as_number(s),
    ensures
        is_number(s),
{
    let a = digit_run_end(s, 0);
    lemma_digit_run(s, 0);
    if a < s.len() && s[a] == DOT {
        let m = digit_run_end(s, a + 1);
        lemma_digit_run(s, a + 1);
        let t = s.take(m);
        assert(all_digits(t.take(a))) by {
            assert forall|i: int| 0 <= i < t.take(a).len() implies is_digit(
                #[trigger] t.take(a)[i],
            ) by {
                assert(t.take(a)[i] == s[i]);
            }
        }
        assert(all_digits(t.skip(a + 1))) by {
            assert forall|i: int| 0 <= i < t.skip(a + 1).len() implies is_digit(
                #[trigger] t.skip(a + 1)[i],
            ) by {
                assert(t.skip(a + 1)[i] == s[a + 1 + i]);
            }
        }
        assert(dot_splits(t, a));
        assert(number_splits(s, m));
    } else {
        let t = s.take(a);
        assert(all_digits(t)) by {
            assert forall|i: int| 0 <= i < t.len() implies is_digit(#[trigger] t[i]) by {
                assert(t[i] == s[i]);
            }
        }
        assert(number_splits(s, a));
    }
}

proof fn lemma_number_gives_scan(s: Seq<u8>)
    requires
        is_number(s),
    ensures
        scans_as_number(s),
{
    let k = choose|k: int| #[trigger] number_splits(s, k);
    let t = s.take(k);
    if k < s.len() {
        assert(s.skip(k)[0] == s[k]);
        assert(!is_digit(s[k]) && s[k] != DOT);
    }
    if t.len() > 0 && all_digits(t) {
        assert forall|i: int| 0 <= i < k implies is_digit(#[trigger] s[i]) by {
            assert(t[i] == s[i]);
        }
        lemma_digit_run_unique(s, 0, k);
    } else {
        let j = choose|j: int| #[trigger] dot_splits(t, j);
        assert(t[j] == s[j]);
        assert forall|i: int| 0 <= i < j implies is_digit(#[trigger] s[i]) by {
            assert(t.take(j)[i] == s[i]);
        }
        lemma_digit_run_unique(s, 0, j);
        assert forall|i: int| j + 1 <= i < k implies is_digit(#[trigger] s[i]) by {
            assert(t.skip(j + 1)[i - (j + 1)] == s[i]);
        }
        lemma_digit_run_unique(s, j + 1, k);
    }
}

/// Reading a number from left to right decides the grammar of a number.
pub proof fn lemma_number_scan(s: Seq<u8>)
    ensures
        is_number(s) == scans_as_number(s),
{
    if is_number(s) {
        lemma_number_gives_scan(s);
    }
    if scans_as_number(s) {
        lemma_scan_gives_number(s);
    }
}

/// Every byte of `s` is an ASCII character.
pub open spec fn is_ascii_text(s: Seq<u8>) -> bool {
    forall|i: int| 0 <= i < s.len() ==> #[trigger] s[i] < 0x80
}

proof fn lemma_spelled_word_is_ascii(s: Seq<u8>, word: Seq<u8>)
    requires
        spells(s, word),
        is_ascii_text(word),
    ensures
        is_ascii_text(s),
{
    assert forall|i: int| 0 <= i < s.len() implies #[trigger] s[i] < 0x80 by {
        assert(folded(s[i]) == word[i]);
    }
}

/// A numeral is made of ASCII characters, so it is text as it stands.
pub proof fn lemma_numeral_is_ascii(s: Seq<u8>)
    requires
        is_numeral(s),
    ensures
        is_ascii_text(s),
{
    let body = without_sign(s);
    if is_special(body) {
        if spells(body, word_inf()) {
            lemma_spelled_word_is_ascii(body, word_inf());
        } else if spells(body, word_infinity()) {
            lemma_spelled_word_is_ascii(body, word_infinity());
        } else {
            lemma_spelled_word_is_ascii(body, word_nan());
        }
    } else {
        lemma_number_scan(body);
        let a = digit_run_end(body, 0);
        lemma_digit_run(body, 0);
        let dotted = a < body.len() && body[a] == DOT;
        let m = if dotted {
            digit_run_end(body, a + 1)
        } else {
            a
        };
        if dotted {
            lemma_digit_run(body, a + 1);
        }
        assert forall|i: int| 0 <= i < body.len() implies #[trigger] body[i] < 0x80 by {
            if i >= m {
                let tail = body.skip(m);
                let rest = tail.skip(1);
                let digits = without_sign(rest);
                assert(tail[0] == body[m]);
                if i > m {
                    assert(rest[i - m - 1] == body[i]);
                    if digits.len() < rest.len() {
                        assert(is_sign(rest[0]));
                        if i > m + 1 {
                            assert(digits[i - m - 2] == body[i]);
                        }
                    } else {
                        assert(digits[i - m - 1] == body[i]);
                    }
                }
            }
        }
    }
    assert forall|i: int| 0 <= i < s.len() implies #[trigger] s[i] < 0x80 by {
        if body.len() < s.len() {
            if i > 0 {
                assert(body[i - 1] == s[i]);
            }
        }
    }
}

/// Tells whether a byte is an ASCII decimal digit.
fn digit(b: u8) -> (r: bool)
    ensures
        r == is_digit(b),
{
    0x30 <= b && b <= 0x39
}

/// An ASCII capital letter as its small letter, any other byte unchanged.
fn fold(b: u8) -> (r: u8)
    ensures
        r == folded(b),
{
    if 0x41 <= b && b <= 0x5a {
        b + 0x20
    } else {
        b
    }
}

/// Finds the end of the run of digits that starts at `from`.
fn scan_digits(s: &[u8], from: usize) -> (end: usize)
    requires
        from <= s@.len(),
    ensures
        end == digit_run_end(s@, from as int),
        from <= end <= s@.len(),
{
    let mut i: usize = from;
    while i < s.len() && digit(s[i])
        invariant
            from <= i <= s@.len(),
            digit_run_end(s@, from as int) == digit_run_end(s@, i as int),
        decreases s@.len() - i,
    {
        i += 1;
    }
    i
}

/// Decides `'inf' | 'infinity' | 'nan'`, letters in either case.
fn special(s: &[u8]) -> (r: bool)
    ensures
        r == is_special(s@),
{
    if s.len() == 3 {
        let a: u8 = fold(s[0]);
        let b: u8 = fold(s[1]);
        let c: u8 = fold(s[2]);
        (a == 0x69 && b == 0x6e && c == 0x66) || (a == 0x6e && b == 0x61 && c == 0x6e)
    } else if s.len() == 8 {
        fold(s[0]) == 0x69 && fold(s[1]) == 0x6e && fold(s[2]) == 0x66 && fold(s[3]) == 0x69
            && fold(s[4]) == 0x6e && fold(s[5]) == 0x69 && fold(s[6]) == 0x74 && fold(s[7])
            == 0x79
    } else {
        false
    }
}

/// Decides `( 'e' | 'E' ) Sign? Digit+` of the part of `s` from `from` on.
fn exponent(s: &[u8], from: usize) -> (r: bool)
    requires
        from < s@.len(),
    ensures
        r == is_exponent(s@.skip(from as int)),
{
    let ghost tail = s@.skip(from as int);
    assert(tail[0] == s@[from as int]);
    if s[from] != LOWER_E && s[from] != UPPER_E {
        return false;
    }
    let after: usize = from + 1;
    let signed: bool = after < s.len() && (s[after] == PLUS || s[after] == MINUS);
    let first: usize = if signed {
        after + 1
    } else {
        after
    };
    let end: usize = scan_digits(s, first);
    proof {
        lemma_digit_run(s@, first as int);
        let rest = tail.skip(1);
        assert(rest =~= s@.skip(after as int));
        if after < s@.len() {
            assert(rest[0] == s@[after as int]);
        }
        let digits = without_sign(rest);
        assert(digits =~= s@.skip(first as int));
        if end == s@.len() {
            assert forall|i: int| 0 <= i < digits.len() implies is_digit(#[trigger] digits[i]) by {
                assert(digits[i] == s@[first + i]);
            }
        } else {
            assert(digits[end - first] == s@[end as int]);
        }
    }
    end > first && end == s.len()
}

/// Decides `Significand Exponent?`.
fn number(s: &[u8]) -> (r: bool)
    ensures
        r == is_number(s@),
{
    proof {
        lemma_number_scan(s@);
    }
    let a: usize = scan_digits(s, 0);
    let dotted: bool = a < s.len() && s[a] == DOT;
    let m: usize = if dotted {
        scan_digits(s, a + 1)
    } else {
        a
    };
    let count: usize = if dotted {
        m - 1
    } else {
        m
    };
    if count == 0 {
        false
    } else if m == s.len() {
        true
    } else {
        exponent(s, m)
    }
}

/// Decides the grammar of a numeral.
pub fn is_numeral_text(s: &[u8]) -> (r: bool)
    ensures
        r == is_numeral(s@),
{
    let signed: bool = s.len() > 0 && (s[0] == PLUS || s[0] == MINUS);
    let start: usize = if signed {
        1
    } else {
        0
    };
    let body = slice_subrange(s, start, s.len());
    assert(body@ =~= without_sign(s@));
    special(body) || number(body)
}

/// The text of one number. Every value of this type follows the grammar of
/// [`is_numeral`].
#[derive(Debug, PartialEq, Eq)]
pub struct Numeral {
    text: Vec<u8>,
}

impl View for Numeral {
    type V = Seq<u8>;

    closed spec fn view(&self) -> Seq<u8> {
        self.text@
    }
}

impl Numeral {
    /// What holds of every numeral: its text follows the grammar.
    #[verifier::type_invariant]
    pub open spec fn well_formed(self) -> bool {
        is_numeral(self@)
    }

    /// Takes `text` as a numeral where it follows the grammar.
    pub fn parse(text: &[u8]) -> (r: Option<Numeral>)
        ensures
            r is Some == is_numeral(text@),
            r matches Some(n) ==> n@ == text@,
    {
        if is_numeral_text(text) {
            Some(Numeral { text: slice_to_vec(text) })
        } else {
            None
        }
    }

    /// The bytes of the numeral. They are ASCII and follow the grammar.
    pub fn as_bytes(&self) -> (b: &[u8])
        ensures
            b@ == self@,
            is_numeral(b@),
            is_ascii_text(b@),
    {
        proof {
            use_type_invariant(self);
            lemma_numeral_is_ascii(self@);
        }
        self.text.as_slice()
    }
}

impl Clone for Numeral {
    fn clone(&self) -> (r: Self)
        ensures
            r@ == self@,
    {
        proof {
            use_type_invariant(self);
        }
        Numeral { text: slice_to_vec(self.text.as_slice()) }
    }
}

/// The texts of the numerals in `values`, in order.
pub open spec fn texts(values: Seq<Numeral>) -> Seq<Seq<u8>> {
    Seq::new(values.len(), |i: int| values[i]@)
}

/// Copies a list of numerals.
pub fn copy_numerals(values: &Vec<Numeral>) -> (r: Vec<Numeral>)
    ensures
        texts(r@) == texts(values@),
{
    let mut copy: Vec<Numeral> = Vec::new();
    let mut i: usize = 0;
    while i < values.len()
        invariant
            i <= values@.len(),
            texts(copy@) == texts(values@).take(i as int),
        decreases values@.len() - i,
    {
        let ghost before = texts(copy@);
        copy.push(values[i].clone());
        assert(texts(copy@) =~= before.push(values@[i as int]@));
        assert(texts(copy@) =~= texts(values@).take(i as int + 1));
        i += 1;
    }
    assert(texts(values@).take(i as int) =~= texts(values@));
    copy
}

} // verus!
