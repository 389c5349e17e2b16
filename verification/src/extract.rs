//! Field extraction: pulling the nth whitespace-separated token from a line,
//! optionally after a fixed-width status prefix, checking a literal unit
//! suffix, and parsing the remaining digits as a bounded integer.

use vstd::prelude::*;
use vstd::string::*;

use crate::errors::ParseError;

verus! {

/// Whether two strings hold exactly the same characters.
pub fn str_eq(a: &str, b: &str) -> (r: bool)
    ensures
        r == (a@ == b@),
{
    let al = a.unicode_len();
    let bl = b.unicode_len();
    if al != bl {
        return false;
    }
    let mut k: usize = 0;
    while k < al
        invariant
            al == a@.len(),
            bl == b@.len(),
            al == bl,
            k <= al,
            forall|m: int| 0 <= m < k ==> a@[m] == b@[m],
        decreases al - k,
    {
        if a.get_char(k) != b.get_char(k) {
            return false;
        }
        k = k + 1;
    }
    proof {
        assert(a@ =~= b@);
    }
    true
}

/// The five ASCII whitespace characters that separate tokens in a line.
pub open spec fn is_ascii_ws(c: char) -> bool {
    c == ' ' || c == '\t' || c == '\n' || c == '\r' || c == '\u{c}'
}

/// Helper for [`words_of`]: the tokens of `s` from position `i` on, given the
/// partial token `cur` read so far and the tokens `acc` already completed.
pub open spec fn words_from(s: Seq<char>, i: int, cur: Seq<char>, acc: Seq<Seq<char>>) -> Seq<
    Seq<char>,
>
    decreases s.len() - i,
{
    if i < 0 || i >= s.len() {
        if cur.len() > 0 {
            acc.push(cur)
        } else {
            acc
        }
    } else if is_ascii_ws(s[i]) {
        if cur.len() > 0 {
            words_from(s, i + 1, Seq::empty(), acc.push(cur))
        } else {
            words_from(s, i + 1, Seq::empty(), acc)
        }
    } else {
        words_from(s, i + 1, cur.push(s[i]), acc)
    }
}

/// The whitespace-separated tokens of a line, in order: maximal runs of
/// non-whitespace characters.
pub open spec fn words_of(s: Seq<char>) -> Seq<Seq<char>> {
    words_from(s, 0, Seq::empty(), Seq::empty())
}

/// Splits a line into its whitespace-separated tokens.
pub fn split_words(s: &str) -> (r: Vec<String>)
    ensures
        r.deep_view() == words_of(s@),
{
    let len = s.unicode_len();
    let mut out: Vec<String> = Vec::new();
    proof {
        assert(out.deep_view() =~= Seq::<Seq<char>>::empty());
    }
    let mut i: usize = 0;
    let mut start: usize = 0;
    let mut in_word: bool = false;
    while i < len
        invariant
            len == s@.len(),
            i <= len,
            in_word ==> start < i,
            words_of(s@) == words_from(
                s@,
                i as int,
                if in_word {
                    s@.subrange(start as int, i as int)
                } else {
                    Seq::empty()
                },
                out.deep_view(),
            ),
        decreases len - i,
    {
        let c = s.get_char(i);
        let ghost cur: Seq<char> = if in_word {
            s@.subrange(start as int, i as int)
        } else {
            Seq::empty()
        };
        if c == ' ' || c == '\t' || c == '\n' || c == '\r' || c == '\u{c}' {
            if in_word {
                let w = String::from_str(s.substring_char(start, i));
                let ghost pre = out.deep_view();
                out.push(w);
                proof {
                    assert(out.deep_view() =~= pre.push(w@));
                }
                in_word = false;
            }
        } else {
            if !in_word {
                in_word = true;
                start = i;
                proof {
                    assert(cur.push(s@[i as int]) =~= s@.subrange(start as int, i + 1));
                }
            } else {
                proof {
                    assert(cur.push(s@[i as int]) =~= s@.subrange(start as int, i + 1));
                }
            }
        }
        i = i + 1;
    }
    if in_word {
        let w = String::from_str(s.substring_char(start, len));
        let ghost pre = out.deep_view();
        out.push(w);
        proof {
            assert(out.deep_view() =~= pre.push(w@));
        }
    }
    out
}

/// Splits a line on ASCII whitespace and hands back the 0-indexed `n`th
/// token; `FieldMissing` when the line has `n` tokens or fewer.
pub fn extract_nth_word(s: &str, n: usize) -> (r: Result<String, ParseError>)
    ensures
        n < words_of(s@).len() ==> (r matches Ok(w) && w@ == words_of(s@)[n as int]),
        n >= words_of(s@).len() ==> r == Err::<String, ParseError>(ParseError::FieldMissing),
{
    let ws = split_words(s);
    if n < ws.len() {
        let w = ws[n].clone();
        proof {
            assert(w@ == ws.deep_view()[n as int]);
        }
        Ok(w)
    } else {
        Err(ParseError::FieldMissing)
    }
}

/// Whether `c` is one of the decimal digits `'0'..='9'`.
pub open spec fn is_dec_digit(c: char) -> bool {
    48 <= c as u32 && c as u32 <= 57
}

/// The numeric value of a decimal digit.
pub open spec fn digit_val(c: char) -> int {
    c as u32 - 48
}

/// Whether `w` is one or more characters, all decimal digits.
pub open spec fn all_dec_digits(w: Seq<char>) -> bool {
    w.len() > 0 && forall|k: int| 0 <= k < w.len() ==> is_dec_digit(#[trigger] w[k])
}

/// The value of a string of decimal digits, most significant first.
pub open spec fn digits_val(w: Seq<char>) -> int
    decreases w.len(),
{
    if w.len() == 0 {
        0
    } else {
        digits_val(w.drop_last()) * 10 + digit_val(w.last())
    }
}

/// The value a token denotes as a decimal numeral: an optional leading `'-'`
/// followed by one or more digits. Anything else denotes no number.
pub open spec fn int_of_numeral(w: Seq<char>) -> Option<int> {
    if w.len() > 0 && w[0] == '-' {
        if all_dec_digits(w.skip(1)) {
            Some(-digits_val(w.skip(1)))
        } else {
            None
        }
    } else if all_dec_digits(w) {
        Some(digits_val(w))
    } else {
        None
    }
}

proof fn lemma_digits_val_nonneg(w: Seq<char>)
    requires
        forall|k: int| 0 <= k < w.len() ==> is_dec_digit(#[trigger] w[k]),
    ensures
        digits_val(w) >= 0,
    decreases w.len(),
{
    if w.len() > 0 {
        lemma_digits_val_nonneg(w.drop_last());
    }
}

/// A prefix of a digit string never exceeds the whole string's value.
proof fn lemma_digits_val_take_le(w: Seq<char>, k: int)
    requires
        forall|m: int| 0 <= m < w.len() ==> is_dec_digit(#[trigger] w[m]),
        0 <= k <= w.len(),
    ensures
        digits_val(w.take(k)) <= digits_val(w),
    decreases w.len() - k,
{
    if k == w.len() {
        assert(w.take(k) =~= w);
    } else {
        assert(w.take(k + 1).drop_last() =~= w.take(k));
        lemma_digits_val_nonneg(w.take(k));
        lemma_digits_val_take_le(w, k + 1);
    }
}

/// Parses a token as a decimal numeral (optional leading `'-'`, then digits)
/// and accepts the value only within `[lo, hi]`.
pub fn parse_int_in_range(w: &str, lo: i64, hi: i64) -> (r: Option<i64>)
    requires
        -1_000_000_000_000 <= lo as int <= hi as int <= 1_000_000_000_000,
    ensures
        match int_of_numeral(w@) {
            Some(v) => r == (if lo as int <= v && v <= hi as int {
                Some(v as i64)
            } else {
                None::<i64>
            }),
            None => r == None::<i64>,
        },
{
    let len = w.unicode_len();
    if len == 0 {
        return None;
    }
    let neg = w.get_char(0) == '-';
    let start: usize = if neg {
        1
    } else {
        0
    };
    if start == len {
        return None;
    }
    let mut mag: i64 = 0;
    let mut j: usize = start;
    while j < len
        invariant
            -1_000_000_000_000 <= lo as int <= hi as int <= 1_000_000_000_000,
            len == w@.len(),
            0 < len,
            start <= j <= len,
            start <= 1,
            neg == (w@[0] == '-'),
            neg ==> start == 1,
            !neg ==> start == 0,
            forall|m: int| start <= m < j ==> is_dec_digit(#[trigger] w@[m]),
            mag == digits_val(w@.subrange(start as int, j as int)),
            0 <= mag <= 10_000_000_000_009,
        decreases len - j,
    {
        let c = w.get_char(j);
        let u = c as u32;
        if u < 48 || u > 57 {
            proof {
                lemma_numeral_has_nondigit(w@, start as int, j as int);
            }
            return None;
        }
        if mag > 1_000_000_000_000 {
            proof {
                lemma_numeral_prefix_large(w@, start as int, j as int);
            }
            return None;
        }
        proof {
            assert(w@.subrange(start as int, j + 1).drop_last() =~= w@.subrange(
                start as int,
                j as int,
            ));
            assert(w@.subrange(start as int, j + 1).last() == w@[j as int]);
        }
        mag = mag * 10 + ((u - 48) as i64);
        j = j + 1;
    }
    proof {
        assert(w@.subrange(start as int, len as int) =~= w@.skip(start as int));
        if !neg {
            assert(w@.skip(0) =~= w@);
        }
    }
    let v: i64 = if neg {
        -mag
    } else {
        mag
    };
    if lo <= v && v <= hi {
        Some(v)
    } else {
        None
    }
}

/// If the digit region of a would-be numeral holds a non-digit character,
/// the token denotes no number.
proof fn lemma_numeral_has_nondigit(s: Seq<char>, start: int, j: int)
    requires
        s.len() > 0,
        start == if s[0] == '-' {
            1int
        } else {
            0int
        },
        start <= j < s.len(),
        !is_dec_digit(s[j]),
    ensures
        int_of_numeral(s) is None,
{
    if s[0] == '-' {
        assert(s.skip(1)[j - 1] == s[j]);
        assert(!all_dec_digits(s.skip(1)));
    } else {
        assert(!all_dec_digits(s));
    }
}

/// If a prefix of the digit region already exceeds `10^12`, the value of the
/// whole numeral (if any) lies outside `[-10^12, 10^12]`.
proof fn lemma_numeral_prefix_large(s: Seq<char>, start: int, j: int)
    requires
        s.len() > 0,
        start == if s[0] == '-' {
            1int
        } else {
            0int
        },
        start <= j <= s.len(),
        digits_val(s.subrange(start, j)) > 1_000_000_000_000,
    ensures
        int_of_numeral(s) matches Some(v) ==> (v > 1_000_000_000_000 || v
            < -1_000_000_000_000),
{
    if s[0] == '-' {
        if all_dec_digits(s.skip(1)) {
            let digits = s.skip(1);
            assert(digits.take(j - 1) =~= s.subrange(1, j));
            lemma_digits_val_take_le(digits, j - 1);
        }
    } else {
        if all_dec_digits(s) {
            assert(s.take(j) =~= s.subrange(0, j));
            lemma_digits_val_take_le(s, j);
        }
    }
}

/// The line with the fixed-width status prefix `"[ OK ] "` / `"[FAIL] "`
/// removed: the first `n` characters are dropped; a shorter line leaves
/// nothing.
pub open spec fn crop_of(s: Seq<char>, n: int) -> Seq<char> {
    if n <= s.len() {
        s.skip(n)
    } else {
        Seq::empty()
    }
}

/// Drops the first `n` characters of a line; a line of `n` characters or
/// fewer leaves the empty string.
pub fn crop_first_n_letters(s: &str, n: usize) -> (r: &str)
    ensures
        r@ == crop_of(s@, n as int),
{
    let len = s.unicode_len();
    if n <= len {
        proof {
            assert(s@.subrange(n as int, len as int) =~= s@.skip(n as int));
        }
        s.substring_char(n, len)
    } else {
        proof {
            assert(s@.subrange(0, 0) =~= Seq::<char>::empty());
        }
        s.substring_char(0, 0)
    }
}

/// Drops the 7-character status prefix (`"[ OK ] "` or `"[FAIL] "`) from an
/// annotated measurement line.
pub fn remove_result_prefix(s: &str) -> (r: &str)
    ensures
        r@ == crop_of(s@, 7),
{
    crop_first_n_letters(s, 7)
}

/// The token with the literal unit suffix removed, or nothing when the token
/// does not end in that suffix.
pub open spec fn strip_suffix_of(w: Seq<char>, suf: Seq<char>) -> Option<Seq<char>> {
    if suf.len() <= w.len() && w.skip(w.len() - suf.len()) == suf {
        Some(w.take(w.len() - suf.len()))
    } else {
        None
    }
}

/// Removes the literal suffix `suf` from the end of `w`, or reports that `w`
/// does not end in it.
pub fn strip_unit_suffix<'a>(w: &'a str, suf: &str) -> (r: Option<&'a str>)
    ensures
        match strip_suffix_of(w@, suf@) {
            Some(num) => r matches Some(t) && t@ == num,
            None => r is None,
        },
{
    let wl = w.unicode_len();
    let sl = suf.unicode_len();
    if sl > wl {
        return None;
    }
    let mut k: usize = 0;
    while k < sl
        invariant
            wl == w@.len(),
            sl == suf@.len(),
            sl <= wl,
            k <= sl,
            forall|m: int| 0 <= m < k ==> w@[wl - sl + m] == suf@[m],
        decreases sl - k,
    {
        if w.get_char(wl - sl + k) != suf.get_char(k) {
            proof {
                assert(w@.skip(wl as int - sl as int)[k as int] == w@[wl - sl + k]);
                assert(w@.skip(wl as int - sl as int) != suf@);
            }
            return None;
        }
        k = k + 1;
    }
    proof {
        assert(w@.skip(wl as int - sl as int) =~= suf@);
        assert(w@.subrange(0, wl as int - sl as int) =~= w@.take(wl as int - sl as int));
    }
    Some(w.substring_char(0, wl - sl))
}

/// What extracting the `n`th token of `s` as a number in `[lo, hi]` yields:
/// the token's numeral value, or the error naming what went wrong.
pub open spec fn num_of_word(s: Seq<char>, n: int, lo: int, hi: int) -> Result<int, ParseError> {
    let ws = words_of(s);
    if n < 0 || n >= ws.len() {
        Err(ParseError::FieldMissing)
    } else {
        match int_of_numeral(ws[n]) {
            None => Err(ParseError::NumericParseFailure),
            Some(v) => if lo <= v && v <= hi {
                Ok(v)
            } else {
                Err(ParseError::NumericParseFailure)
            },
        }
    }
}

/// Given a line like `LMS Emitter: 78`, extracts the 0-indexed `n`th
/// whitespace-separated token and parses it as a number in `[lo, hi]`.
pub fn extract_nth_word_as_number(s: &str, n: usize, lo: i64, hi: i64) -> (r: Result<
    i64,
    ParseError,
>)
    requires
        -1_000_000_000_000 <= lo as int <= hi as int <= 1_000_000_000_000,
    ensures
        match num_of_word(s@, n as int, lo as int, hi as int) {
            Ok(v) => r == Ok::<i64, ParseError>(v as i64),
            Err(e) => r == Err::<i64, ParseError>(e),
        },
{
    match extract_nth_word(s, n) {
        Err(e) => Err(e),
        Ok(w) => match parse_int_in_range(w.as_str(), lo, hi) {
            Some(v) => Ok(v),
            None => Err(ParseError::NumericParseFailure),
        },
    }
}

/// What extracting a measurement from the `n`th token of a status-prefixed
/// line yields: the status prefix is cropped, the token must end in the unit
/// `suf`, and the rest must be a numeral in `[lo, hi]`.
pub open spec fn measurement_of(line: Seq<char>, n: int, suf: Seq<char>, lo: int, hi: int) -> Result<
    int,
    ParseError,
> {
    let ws = words_of(crop_of(line, 7));
    if n < 0 || n >= ws.len() {
        Err(ParseError::FieldMissing)
    } else {
        match strip_suffix_of(ws[n], suf) {
            None => Err(ParseError::UnitMismatch),
            Some(num) => match int_of_numeral(num) {
                None => Err(ParseError::NumericParseFailure),
                Some(v) => if lo <= v && v <= hi {
                    Ok(v)
                } else {
                    Err(ParseError::NumericParseFailure)
                },
            },
        }
    }
}

/// Given a line like `[ OK ] Measured output voltage: 259372mV`, drops the
/// 7-character status prefix, takes the `n`th remaining token, requires it to
/// end in the literal unit `suffix`, and parses what precedes the unit as a
/// number in `[lo, hi]`.
pub fn extract_measurement_from_nth_word(
    s: &str,
    n: usize,
    suffix: &str,
    lo: i64,
    hi: i64,
) -> (r: Result<i64, ParseError>)
    requires
        -1_000_000_000_000 <= lo as int <= hi as int <= 1_000_000_000_000,
    ensures
        match measurement_of(s@, n as int, suffix@, lo as int, hi as int) {
            Ok(v) => r == Ok::<i64, ParseError>(v as i64),
            Err(e) => r == Err::<i64, ParseError>(e),
        },
{
    let cropped = remove_result_prefix(s);
    match extract_nth_word(cropped, n) {
        Err(e) => Err(e),
        Ok(w) => match strip_unit_suffix(w.as_str(), suffix) {
            None => Err(ParseError::UnitMismatch),
            Some(num) => match parse_int_in_range(num, lo, hi) {
                Some(v) => Ok(v),
                None => Err(ParseError::NumericParseFailure),
            },
        },
    }
}

} // verus!
