//! Byte patterns written as text, such as `"8B 0D ? ? ? ? 46 3B"`, and the
//! search for their first occurrence in a byte image.

use vstd::prelude::*;
use vstd::string::StringSliceAdditionalSpecFns;

verus! {

/// One position of a byte pattern: a fixed byte, or a wildcard that accepts any byte.
#[derive(Clone, Copy, Debug, PartialEq, Eq, Structural)]
pub enum PatternByte {
    Exact(u8),
    Any,
}

impl PatternByte {
    /// Whether this pattern position accepts the byte `b`.
    pub open spec fn accepts(self, b: u8) -> bool {
        match self {
            PatternByte::Exact(x) => x == b,
            PatternByte::Any => true,
        }
    }
}

/// ASCII white space separates the tokens of a pattern.
pub open spec fn is_separator(b: u8) -> bool {
    b == 0x20u8 || (0x09u8 <= b && b <= 0x0du8)
}

/// The value of an ASCII hexadecimal digit, upper or lower case.
pub open spec fn hex_value(b: u8) -> Option<u8> {
    if 0x30u8 <= b && b <= 0x39u8 {
        Some((b - 0x30) as u8)
    } else if 0x41u8 <= b && b <= 0x46u8 {
        Some((b - 0x41 + 10) as u8)
    } else if 0x61u8 <= b && b <= 0x66u8 {
        Some((b - 0x61 + 10) as u8)
    } else {
        None
    }
}

/// What one token means: `?` is a wildcard, two hexadecimal digits are a
/// byte, anything else makes the pattern invalid.
pub open spec fn token_meaning(tok: Seq<u8>) -> Option<PatternByte> {
    if tok.len() == 1 && tok[0] == 0x3fu8 {
        Some(PatternByte::Any)
    } else if tok.len() == 2 && hex_value(tok[0]) is Some && hex_value(tok[1]) is Some {
        Some(PatternByte::Exact((hex_value(tok[0]).unwrap() * 16 + hex_value(tok[1]).unwrap()) as u8))
    } else {
        None
    }
}

/// The length of the run of non-separator bytes at the start of `s`.
pub open spec fn token_len(s: Seq<u8>) -> nat
    decreases s.len(),
{
    if s.len() == 0 || is_separator(s[0]) {
        0
    } else {
        1 + token_len(s.drop_first())
    }
}

pub proof fn lemma_token_len_bounds(s: Seq<u8>)
    ensures
        token_len(s) <= s.len(),
        s.len() > 0 && !is_separator(s[0]) ==> token_len(s) >= 1,
    decreases s.len(),
{
    if s.len() > 0 && !is_separator(s[0]) {
        lemma_token_len_bounds(s.drop_first());
    }
}

/// The pattern that the text `s` denotes: its white-space separated tokens,
/// each read by [`token_meaning`]; `None` when some token is invalid.
pub open spec fn pattern_tokens(s: Seq<u8>) -> Option<Seq<PatternByte>>
    decreases s.len(),
{
    if s.len() == 0 {
        Some(Seq::empty())
    } else if is_separator(s[0]) {
        pattern_tokens(s.drop_first())
    } else {
        let n = token_len(s);
        proof {
            lemma_token_len_bounds(s);
        }
        match token_meaning(s.take(n as int)) {
            None => None,
            Some(t) => match pattern_tokens(s.skip(n as int)) {
                None => None,
                Some(rest) => Some(seq![t] + rest),
            },
        }
    }
}


/// The sixteen hexadecimal digits in upper case, `0`–`9` then `A`–`F`.
pub open spec fn upper_hex_digits() -> Seq<u8> {
    seq![
        0x30u8, 0x31u8, 0x32u8, 0x33u8, 0x34u8, 0x35u8, 0x36u8, 0x37u8, 0x38u8, 0x39u8,
        0x41u8, 0x42u8, 0x43u8, 0x44u8, 0x45u8, 0x46u8,
    ]
}

/// The sixteen hexadecimal digits in lower case, `0`–`9` then `a`–`f`.
pub open spec fn lower_hex_digits() -> Seq<u8> {
    seq![
        0x30u8, 0x31u8, 0x32u8, 0x33u8, 0x34u8, 0x35u8, 0x36u8, 0x37u8, 0x38u8, 0x39u8,
        0x61u8, 0x62u8, 0x63u8, 0x64u8, 0x65u8, 0x66u8,
    ]
}

/// `c` is a hexadecimal digit, in either case, of value `d`.
pub open spec fn is_digit_of(c: u8, d: int) -> bool {
    0 <= d < 16 && (upper_hex_digits()[d] == c || lower_hex_digits()[d] == c)
}

/// The character of the digit `d`, in upper or lower case.
pub open spec fn digit_char(d: int, lower: bool) -> u8 {
    if lower {
        lower_hex_digits()[d]
    } else {
        upper_hex_digits()[d]
    }
}

proof fn lemma_digit_char_value(d: int, lower: bool)
    requires
        0 <= d < 16,
    ensures
        hex_value(digit_char(d, lower)) == Some(d as u8),
        !is_separator(digit_char(d, lower)),
        digit_char(d, lower) != 0x3fu8,
{
    if d == 0 {} else if d == 1 {} else if d == 2 {} else if d == 3 {} else if d == 4 {}
    else if d == 5 {} else if d == 6 {} else if d == 7 {} else if d == 8 {} else if d == 9 {}
    else if d == 10 {} else if d == 11 {} else if d == 12 {} else if d == 13 {} else if d == 14 {}
    else {}
}

/// Any two hexadecimal digits, each in either case, form the token of the
/// byte whose high nibble is the first digit and low nibble the second; a
/// text holding just those two digits is the pattern of that one byte.
pub proof fn law_two_hex_digits_are_a_byte(hi: int, lo: int, hi_lower: bool, lo_lower: bool)
    requires
        0 <= hi < 16,
        0 <= lo < 16,
    ensures
        token_meaning(seq![digit_char(hi, hi_lower), digit_char(lo, lo_lower)])
            == Some(PatternByte::Exact((16 * hi + lo) as u8)),
        pattern_tokens(seq![digit_char(hi, hi_lower), digit_char(lo, lo_lower)])
            == Some(seq![PatternByte::Exact((16 * hi + lo) as u8)]),
{
    lemma_digit_char_value(hi, hi_lower);
    lemma_digit_char_value(lo, lo_lower);
    let s = seq![digit_char(hi, hi_lower), digit_char(lo, lo_lower)];
    reveal_with_fuel(token_len, 3);
    assert(s.drop_first().drop_first() =~= Seq::<u8>::empty());
    assert(token_len(s) == 2);
    assert(s.take(2) =~= s);
    assert(s.skip(2) =~= Seq::<u8>::empty());
    assert(pattern_tokens(s.skip(2)) == Some(Seq::<PatternByte>::empty()));
    assert(token_meaning(s.take(2)) == Some(PatternByte::Exact((16 * hi + lo) as u8)));
    assert(seq![PatternByte::Exact((16 * hi + lo) as u8)] + Seq::<PatternByte>::empty()
        =~= seq![PatternByte::Exact((16 * hi + lo) as u8)]);
}

/// A two-byte token denotes a byte only when both bytes are hexadecimal
/// digits, and then it is the byte they spell.
pub proof fn law_byte_tokens_are_hex_digits(a: u8, b: u8)
    ensures
        token_meaning(seq![a, b]) matches Some(PatternByte::Exact(v)) ==> exists|hi: int, lo: int|
            is_digit_of(a, hi) && is_digit_of(b, lo) && v == 16 * hi + lo,
        token_meaning(seq![a, b]) != Some(PatternByte::Any),
{
    if let Some(PatternByte::Exact(v)) = token_meaning(seq![a, b]) {
        let hi = hex_value(a).unwrap() as int;
        let lo = hex_value(b).unwrap() as int;
        lemma_hex_value_is_digit(a);
        lemma_hex_value_is_digit(b);
        assert(is_digit_of(a, hi) && is_digit_of(b, lo) && v == 16 * hi + lo);
    }
}

proof fn lemma_hex_value_is_digit(c: u8)
    requires
        hex_value(c) is Some,
    ensures
        is_digit_of(c, hex_value(c).unwrap() as int),
{
    let d = hex_value(c).unwrap() as int;
    if d == 0 {} else if d == 1 {} else if d == 2 {} else if d == 3 {} else if d == 4 {}
    else if d == 5 {} else if d == 6 {} else if d == 7 {} else if d == 8 {} else if d == 9 {}
    else if d == 10 {} else if d == 11 {} else if d == 12 {} else if d == 13 {} else if d == 14 {}
    else {}
}

/// `?` alone is the wildcard token, and no other single byte is a token.
pub proof fn law_single_byte_tokens(c: u8)
    ensures
        token_meaning(seq![c]) == (if c == 0x3fu8 { Some(PatternByte::Any) } else { None::<PatternByte> }),
{
}

/// Tokens are separated by exactly the ASCII white-space bytes: space, tab,
/// line feed, vertical tab, form feed and carriage return.
pub proof fn law_separators_are_ascii_white_space(b: u8)
    ensures
        is_separator(b) <==> set![0x20u8, 0x09u8, 0x0au8, 0x0bu8, 0x0cu8, 0x0du8].contains(b),
{
}

/// White space in front of a pattern text does not change the pattern.
pub proof fn law_leading_white_space_is_ignored(s: Seq<u8>)
    ensures
        pattern_tokens(seq![0x20u8] + s) == pattern_tokens(s),
        pattern_tokens(seq![0x09u8] + s) == pattern_tokens(s),
        pattern_tokens(seq![0x0au8] + s) == pattern_tokens(s),
{
    assert((seq![0x20u8] + s).drop_first() =~= s);
    assert((seq![0x09u8] + s).drop_first() =~= s);
    assert((seq![0x0au8] + s).drop_first() =~= s);
}

proof fn lemma_token_len_of_token_then_space(tok: Seq<u8>, rest: Seq<u8>)
    requires
        forall|k: int| 0 <= k < tok.len() ==> !is_separator(#[trigger] tok[k]),
    ensures
        token_len(tok + seq![0x20u8] + rest) == tok.len(),
    decreases tok.len(),
{
    let s = tok + seq![0x20u8] + rest;
    if tok.len() > 0 {
        assert(s.drop_first() =~= tok.drop_first() + seq![0x20u8] + rest);
        assert forall|k: int| 0 <= k < tok.drop_first().len() implies !is_separator(#[trigger] tok.drop_first()[k]) by {
            assert(tok.drop_first()[k] == tok[k + 1]);
        }
        lemma_token_len_of_token_then_space(tok.drop_first(), rest);
    } else {
        assert(s[0] == 0x20u8);
    }
}

/// A pattern text is read token by token: a token of one or more
/// non-separator bytes, then a space, then the rest, is the token's pattern
/// byte followed by the pattern of the rest; an invalid token or rest makes
/// the whole text invalid.
pub proof fn law_text_is_read_token_by_token(tok: Seq<u8>, rest: Seq<u8>)
    requires
        tok.len() > 0,
        forall|k: int| 0 <= k < tok.len() ==> !is_separator(#[trigger] tok[k]),
    ensures
        pattern_tokens(tok + seq![0x20u8] + rest) == match (token_meaning(tok), pattern_tokens(rest)) {
            (Some(t), Some(r)) => Some(seq![t] + r),
            _ => None,
        },
{
    let s = tok + seq![0x20u8] + rest;
    lemma_token_len_of_token_then_space(tok, rest);
    assert(s[0] == tok[0]);
    assert(s.take(tok.len() as int) =~= tok);
    assert(s.skip(tok.len() as int) =~= seq![0x20u8] + rest);
    law_leading_white_space_is_ignored(rest);
}

fn hex_digit(b: u8) -> (r: Option<u8>)
    ensures
        r == hex_value(b),
{
    if 0x30 <= b && b <= 0x39 {
        Some(b - 0x30)
    } else if 0x41 <= b && b <= 0x46 {
        Some(b - 0x41 + 10)
    } else if 0x61 <= b && b <= 0x66 {
        Some(b - 0x61 + 10)
    } else {
        None
    }
}

fn separator(b: u8) -> (r: bool)
    ensures
        r == is_separator(b),
{
    b == 0x20 || (0x09 <= b && b <= 0x0d)
}

/// Reads one token, the bytes `s[start..end]`.
fn read_token(s: &[u8], start: usize, end: usize) -> (r: Option<PatternByte>)
    requires
        start <= end <= s@.len(),
    ensures
        r == token_meaning(s@.subrange(start as int, end as int)),
{
    if end - start == 1 && s[start] == 0x3f {
        return Some(PatternByte::Any);
    }
    if end - start == 2 {
        let hi = hex_digit(s[start]);
        let lo = hex_digit(s[start + 1]);
        if let (Some(h), Some(l)) = (hi, lo) {
            return Some(PatternByte::Exact(h * 16 + l));
        }
    }
    None
}

/// Parses the text of a pattern given as bytes.
pub fn parse_pattern_bytes(s: &[u8]) -> (r: Option<Vec<PatternByte>>)
    ensures
        match r {
            Some(v) => pattern_tokens(s@) == Some(v@),
            None => pattern_tokens(s@) is None,
        },
{
    let mut out: Vec<PatternByte> = Vec::new();
    let mut i: usize = 0;
    assert(s@.skip(0) =~= s@);
    while i < s.len()
        invariant
            i <= s@.len(),
            match pattern_tokens(s@.skip(i as int)) {
                Some(rest) => pattern_tokens(s@) == Some(out@ + rest),
                None => pattern_tokens(s@) is None,
            },
        decreases s@.len() - i,
    {
        let ghost suffix = s@.skip(i as int);
        if separator(s[i]) {
            assert(suffix.drop_first() =~= s@.skip(i + 1));
            i = i + 1;
        } else {
            let mut j: usize = i + 1;
            assert(suffix.drop_first() =~= s@.skip(j as int));
            while j < s.len() && !separator(s[j])
                invariant
                    i < j <= s@.len(),
                    token_len(suffix) == (j - i) + token_len(s@.skip(j as int)),
                decreases s@.len() - j,
            {
                assert(s@.skip(j as int).drop_first() =~= s@.skip(j + 1));
                j = j + 1;
            }
            assert(token_len(s@.skip(j as int)) == 0);
            assert(suffix.take((j - i) as int) =~= s@.subrange(i as int, j as int));
            assert(suffix.skip((j - i) as int) =~= s@.skip(j as int));
            match read_token(s, i, j) {
                None => {
                    return None;
                },
                Some(t) => {
                    proof {
                        match pattern_tokens(s@.skip(j as int)) {
                            Some(rest) => {
                                assert(out@.push(t) + rest =~= out@ + (seq![t] + rest));
                            },
                            None => {},
                        }
                    }
                    out.push(t);
                    i = j;
                },
            }
        }
    }
    assert(s@.skip(i as int) =~= Seq::<u8>::empty());
    assert(out@ + Seq::<PatternByte>::empty() =~= out@);
    Some(out)
}

/// Parses the text of a pattern: white-space separated tokens, each `?` (any
/// byte) or two hexadecimal digits (that byte).
pub fn parse_pattern(pattern: &str) -> (r: Option<Vec<PatternByte>>)
    ensures
        match r {
            Some(v) => pattern_tokens(pattern.spec_bytes()) == Some(v@),
            None => pattern_tokens(pattern.spec_bytes()) is None,
        },
{
    parse_pattern_bytes(pattern.as_bytes())
}


/// `pattern` occurs in `data` at offset `i`.
pub open spec fn matches_at(pattern: Seq<PatternByte>, data: Seq<u8>, i: int) -> bool {
    &&& 0 <= i
    &&& i + pattern.len() <= data.len()
    &&& forall|k: int| 0 <= k < pattern.len() ==> #[trigger] pattern[k].accepts(data[i + k])
}

/// The first offset at or after `i` where `pattern` occurs in `data`.
pub open spec fn first_match_from(pattern: Seq<PatternByte>, data: Seq<u8>, i: int) -> Option<int>
    decreases data.len() - i,
{
    if i + pattern.len() > data.len() {
        None
    } else if matches_at(pattern, data, i) {
        Some(i)
    } else {
        first_match_from(pattern, data, i + 1)
    }
}

/// The first offset where `pattern` occurs in `data`.
pub open spec fn first_match(pattern: Seq<PatternByte>, data: Seq<u8>) -> Option<int> {
    first_match_from(pattern, data, 0)
}

/// `first_match_from` finds an occurrence, and none comes before it.
pub proof fn lemma_first_match_from(pattern: Seq<PatternByte>, data: Seq<u8>, i: int)
    requires
        0 <= i,
    ensures
        match first_match_from(pattern, data, i) {
            Some(k) => i <= k && matches_at(pattern, data, k) && forall|j: int|
                i <= j < k ==> !matches_at(pattern, data, j),
            None => forall|j: int| i <= j ==> !matches_at(pattern, data, j),
        },
    decreases data.len() - i,
{
    if i + pattern.len() > data.len() {
    } else if matches_at(pattern, data, i) {
    } else {
        lemma_first_match_from(pattern, data, i + 1);
        match first_match_from(pattern, data, i + 1) {
            Some(k) => {
                assert forall|j: int| i <= j < k implies !matches_at(pattern, data, j) by {
                    if j > i {
                    }
                }
            },
            None => {
                assert forall|j: int| i <= j implies !matches_at(pattern, data, j) by {
                    if j > i {
                    }
                }
            },
        }
    }
}

/// A pattern occurs at `i` exactly when it lies inside the data there and
/// every fixed byte of the pattern equals the byte under it; wildcards
/// accept anything.
pub proof fn law_match_is_agreement_on_fixed_bytes(pattern: Seq<PatternByte>, data: Seq<u8>, i: int)
    ensures
        matches_at(pattern, data, i) <==> (0 <= i && i + pattern.len() <= data.len() && forall|k: int|
            0 <= k < pattern.len() ==> (#[trigger] pattern[k] matches PatternByte::Exact(x) ==> data[i
                + k] == x)),
{
    if 0 <= i && i + pattern.len() <= data.len() {
        if forall|k: int| 0 <= k < pattern.len() ==> (#[trigger] pattern[k] matches PatternByte::Exact(x) ==> data[i + k] == x) {
            assert forall|k: int| 0 <= k < pattern.len() implies #[trigger] pattern[k].accepts(data[i + k]) by {
                if let PatternByte::Exact(x) = pattern[k] {
                }
            }
        }
        if matches_at(pattern, data, i) {
            assert forall|k: int| 0 <= k < pattern.len() implies (#[trigger] pattern[k] matches PatternByte::Exact(x) ==> data[i + k] == x) by {
                assert(pattern[k].accepts(data[i + k]));
            }
        }
    }
}

/// The first match is a match, and no offset before it is one; when there is
/// none, no offset is a match.
pub proof fn lemma_first_match_is_least(pattern: Seq<PatternByte>, data: Seq<u8>)
    ensures
        match first_match(pattern, data) {
            Some(k) => matches_at(pattern, data, k) && forall|j: int|
                0 <= j < k ==> !matches_at(pattern, data, j),
            None => forall|j: int| !matches_at(pattern, data, j),
        },
{
    lemma_first_match_from(pattern, data, 0);
}

fn accepts(p: PatternByte, b: u8) -> (r: bool)
    ensures
        r == p.accepts(b),
{
    match p {
        PatternByte::Exact(x) => x == b,
        PatternByte::Any => true,
    }
}

fn matches_here(pattern: &[PatternByte], data: &[u8], i: usize) -> (r: bool)
    requires
        i + pattern@.len() <= data@.len(),
    ensures
        r == matches_at(pattern@, data@, i as int),
{
    let n = data.len();
    let mut k: usize = 0;
    while k < pattern.len()
        invariant
            n == data@.len(),
            i + pattern@.len() <= data@.len(),
            k <= pattern@.len(),
            forall|m: int| 0 <= m < k ==> #[trigger] pattern@[m].accepts(data@[i + m]),
        decreases pattern@.len() - k,
    {
        if !accepts(pattern[k], data[i + k]) {
            return false;
        }
        k = k + 1;
    }
    true
}

/// The first offset at which `pattern` occurs in `data`.
pub fn find_first(pattern: &[PatternByte], data: &[u8]) -> (r: Option<usize>)
    ensures
        match r {
            Some(i) => first_match(pattern@, data@) == Some(i as int),
            None => first_match(pattern@, data@) is None,
        },
        match r {
            Some(i) => matches_at(pattern@, data@, i as int) && forall|j: int|
                0 <= j < i ==> !matches_at(pattern@, data@, j),
            None => forall|j: int| !matches_at(pattern@, data@, j),
        },
{
    proof {
        lemma_first_match_is_least(pattern@, data@);
    }
    if pattern.len() > data.len() {
        return None;
    }
    let last = data.len() - pattern.len();
    let mut i: usize = 0;
    loop
        invariant
            last + pattern@.len() == data@.len(),
            i <= last,
            first_match(pattern@, data@) == first_match_from(pattern@, data@, i as int),
            match first_match(pattern@, data@) {
                Some(k) => matches_at(pattern@, data@, k) && forall|j: int|
                    0 <= j < k ==> !matches_at(pattern@, data@, j),
                None => forall|j: int| !matches_at(pattern@, data@, j),
            },
        decreases last - i,
    {
        if matches_here(pattern, data, i) {
            return Some(i);
        }
        if i == last {
            assert(first_match_from(pattern@, data@, i + 1) is None);
            return None;
        }
        i = i + 1;
    }
}

} // verus!
