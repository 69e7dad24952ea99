//! Program text handling: comment stripping, tokenization, and the mapping
//! from one token to one operation.
//!
//! The grammar is exactly: the fixed keyword table, unsigned decimal integer
//! literals (8-bit first, then 32-bit), and the boolean literals `true` and
//! `false`. A `#` starts a comment that runs to (and excludes) the next
//! newline; `\r\n` is normalized to `\n` before stripping.

use vstd::prelude::*;

use crate::data::Data;
use crate::error::Error;
use crate::op::Op;
use vstd::string::StrSliceExecFns;

verus! {

/// Whether a character separates tokens: exactly the characters with the
/// Unicode `White_Space` property.
pub open spec fn is_space(c: char) -> bool {
    ||| c == ' '
    ||| c == '\t'
    ||| c == '\n'
    ||| c == '\u{b}'
    ||| c == '\u{c}'
    ||| c == '\r'
    ||| c == '\u{85}'
    ||| c == '\u{a0}'
    ||| c == '\u{1680}'
    ||| ('\u{2000}' as u32 <= c as u32 && c as u32 <= '\u{200a}' as u32)
    ||| c == '\u{2028}'
    ||| c == '\u{2029}'
    ||| c == '\u{202f}'
    ||| c == '\u{205f}'
    ||| c == '\u{3000}'
}

/// Relies on `char::is_whitespace`: true exactly for the characters with the
/// Unicode `White_Space` property, the ones `is_space` lists.
#[verifier::external_body]
fn char_is_whitespace(c: char) -> (r: bool)
    ensures
        r == is_space(c),
{
    c.is_whitespace()
}

/// Relies on `String`'s `FromIterator<char>`: collecting characters yields
/// the string of exactly those characters in order.
#[verifier::external_body]
fn chars_to_string(v: &Vec<char>) -> (s: String)
    ensures
        s@ == v@,
{
    v.iter().collect()
}

/// The text with every `\r\n` replaced by `\n`, read from position `i` on.
pub open spec fn normalize_from(s: Seq<char>, i: int) -> Seq<char>
    decreases s.len() - i,
{
    if i >= s.len() {
        Seq::empty()
    } else if s[i] == '\r' && i + 1 < s.len() && s[i + 1] == '\n' {
        seq!['\n'] + normalize_from(s, i + 2)
    } else {
        seq![s[i]] + normalize_from(s, i + 1)
    }
}

/// The text with every span from a `#` to (and excluding) the next newline
/// removed, read from position `i` on; `in_comment` says whether position `i`
/// is already inside a comment.
pub open spec fn strip_from(s: Seq<char>, i: int, in_comment: bool) -> Seq<char>
    decreases s.len() - i,
{
    if i >= s.len() {
        Seq::empty()
    } else if in_comment {
        if s[i] == '\n' {
            seq!['\n'] + strip_from(s, i + 1, false)
        } else {
            strip_from(s, i + 1, true)
        }
    } else {
        if s[i] == '#' {
            strip_from(s, i + 1, true)
        } else {
            seq![s[i]] + strip_from(s, i + 1, false)
        }
    }
}

/// The cleaned form of raw program text: newlines normalized, comments
/// removed.
pub open spec fn clean(s: Seq<char>) -> Seq<char> {
    strip_from(normalize_from(s, 0), 0, false)
}

/// The tokens of the text from position `i` on, split on runs of whitespace;
/// `cur` is the token being read, possibly empty.
pub open spec fn tokenize_from(s: Seq<char>, i: int, cur: Seq<char>) -> Seq<Seq<char>>
    decreases s.len() - i,
{
    if i >= s.len() {
        if cur.len() > 0 {
            seq![cur]
        } else {
            Seq::empty()
        }
    } else if is_space(s[i]) {
        if cur.len() > 0 {
            seq![cur] + tokenize_from(s, i + 1, Seq::empty())
        } else {
            tokenize_from(s, i + 1, Seq::empty())
        }
    } else {
        tokenize_from(s, i + 1, cur.push(s[i]))
    }
}

/// The non-empty, whitespace-free tokens of the text, in source order.
pub open spec fn tokenize(s: Seq<char>) -> Seq<Seq<char>> {
    tokenize_from(s, 0, Seq::empty())
}

/// Whether a character is a decimal digit.
pub open spec fn is_digit(c: char) -> bool {
    '0' as u32 <= c as u32 && c as u32 <= '9' as u32
}

/// The value of one digit character.
pub open spec fn digit_of(c: char) -> int {
    c as u32 - '0' as u32
}

/// Whether every character of the text is a decimal digit.
pub open spec fn all_digits(t: Seq<char>) -> bool {
    forall|i: int| 0 <= i < t.len() ==> is_digit(t[i])
}

/// The value of a digit string read in base ten.
pub open spec fn digits_val(t: Seq<char>) -> int
    decreases t.len(),
{
    if t.len() == 0 {
        0
    } else {
        digits_val(t.drop_last()) * 10 + digit_of(t.last())
    }
}

/// Whether the token is an unsigned decimal integer literal: one or more
/// digits, at most one leading `+`, no other characters.
pub open spec fn is_numeric(t: Seq<char>) -> bool {
    ||| (t.len() > 0 && all_digits(t))
    ||| (t.len() >= 2 && t[0] == '+' && all_digits(t.skip(1)))
}

/// The value of an unsigned decimal integer literal, unbounded.
pub open spec fn numeric_val(t: Seq<char>) -> int {
    if t.len() > 0 && t[0] == '+' {
        digits_val(t.skip(1))
    } else {
        digits_val(t)
    }
}

/// The operation one token stands for, or `None` where the token matches
/// neither the keyword table nor an integer or boolean literal. The order
/// matters: a value that fits in 8 bits is classified `U8`, never `U32`.
pub open spec fn parse_ok(t: Seq<char>) -> Option<Op> {
    if t == "+"@ {
        Some(Op::Add)
    } else if t == "/"@ {
        Some(Op::Divide)
    } else if t == "%"@ {
        Some(Op::Modulo)
    } else if t == "*"@ {
        Some(Op::Multiply)
    } else if t == "-"@ {
        Some(Op::Subtract)
    } else if t == "=="@ {
        Some(Op::Equal)
    } else if t == ">"@ {
        Some(Op::GreaterThan)
    } else if t == ">="@ {
        Some(Op::GreaterThanEqual)
    } else if t == "<"@ {
        Some(Op::LessThan)
    } else if t == "<="@ {
        Some(Op::LessThanEqual)
    } else if t == "dim"@ {
        Some(Op::Dimensions)
    } else if t == "drop"@ {
        Some(Op::Drop)
    } else if t == "dup"@ {
        Some(Op::Dup)
    } else if t == "fragPos"@ {
        Some(Op::FragPos)
    } else if t == "makeColor"@ {
        Some(Op::MakeColor)
    } else if t == "rot"@ {
        Some(Op::Rot)
    } else if t == "rotN"@ {
        Some(Op::RotN)
    } else if t == "splitColor"@ {
        Some(Op::SplitColor)
    } else if t == "texturePixel"@ {
        Some(Op::TexturePixel)
    } else if is_numeric(t) && numeric_val(t) <= 255 {
        Some(Op::Data(Data::U8(numeric_val(t) as u8)))
    } else if is_numeric(t) && numeric_val(t) <= u32::MAX {
        Some(Op::Data(Data::U32(numeric_val(t) as u32)))
    } else if t == "true"@ {
        Some(Op::Data(Data::Bool(true)))
    } else if t == "false"@ {
        Some(Op::Data(Data::Bool(false)))
    } else {
        None
    }
}

/// The characters of a string slice, in order.
pub fn str_to_chars(s: &str) -> (v: Vec<char>)
    ensures
        v@ == s@,
{
    let n = s.unicode_len();
    let mut v: Vec<char> = Vec::new();
    let mut i: usize = 0;
    while i < n
        invariant
            n == s@.len(),
            i <= n,
            v@ == s@.take(i as int),
        decreases n - i,
    {
        v.push(s.get_char(i));
        proof {
            assert(v@ =~= s@.take(i + 1));
        }
        i += 1;
    }
    proof {
        assert(v@ =~= s@);
    }
    v
}

/// Whether the token reads exactly as the given pattern.
fn tok_eq(t: &Vec<char>, pat: &str) -> (r: bool)
    ensures
        r == (t@ == pat@),
{
    let n = pat.unicode_len();
    if t.len() != n {
        proof {
            assert(t@.len() != pat@.len());
        }
        return false;
    }
    let mut i: usize = 0;
    while i < n
        invariant
            n == pat@.len(),
            t@.len() == n,
            i <= n,
            forall|j: int| 0 <= j < i ==> t@[j] == pat@[j],
        decreases n - i,
    {
        if t[i] != pat.get_char(i) {
            return false;
        }
        i += 1;
    }
    proof {
        assert(t@ =~= pat@);
    }
    true
}

/// A digit string's value only grows as more digits follow.
proof fn lemma_digits_val_grows(t: Seq<char>, i: int)
    requires
        0 <= i <= t.len(),
        all_digits(t),
    ensures
        digits_val(t.take(i)) <= digits_val(t),
        digits_val(t) >= 0,
    decreases t.len() - i,
{
    if i == t.len() {
        assert(t.take(i) =~= t);
        lemma_digits_val_nonneg(t);
    } else {
        lemma_digits_val_grows(t, i + 1);
        assert(t.take(i + 1).drop_last() =~= t.take(i));
        lemma_digits_val_nonneg(t.take(i));
        assert(digits_val(t.take(i + 1)) == digits_val(t.take(i)) * 10 + digit_of(t[i]));
        assert(is_digit(t[i]));
        assert(digits_val(t.take(i)) <= digits_val(t.take(i)) * 10) by (nonlinear_arith)
            requires
                digits_val(t.take(i)) >= 0,
        ;
    }
}

/// A digit string's value is never negative.
proof fn lemma_digits_val_nonneg(t: Seq<char>)
    requires
        all_digits(t),
    ensures
        digits_val(t) >= 0,
    decreases t.len(),
{
    if t.len() > 0 {
        assert(all_digits(t.drop_last()));
        lemma_digits_val_nonneg(t.drop_last());
        assert(is_digit(t.last()));
        assert(digits_val(t.drop_last()) * 10 >= 0) by (nonlinear_arith)
            requires
                digits_val(t.drop_last()) >= 0,
        ;
    }
}

/// Reads the token as an unsigned decimal integer literal, `None` where it is
/// not one or where its value does not fit in 32 bits.
fn parse_number(t: &Vec<char>) -> (r: Option<u32>)
    ensures
        r == (if is_numeric(t@) && numeric_val(t@) <= u32::MAX {
            Some(numeric_val(t@) as u32)
        } else {
            None::<u32>
        }),
        is_numeric(t@) ==> numeric_val(t@) >= 0,
{
    if t.len() == 0 {
        return None;
    }
    let start: usize = if t[0] == '+' {
        1
    } else {
        0
    };
    if start == t.len() {
        // A sign with no digits is no literal.
        proof {
            if is_numeric(t@) {
                if t@.len() > 0 && all_digits(t@) {
                    assert(is_digit(t@[0]));
                }
                assert(false);
            }
        }
        return None;
    }
    let ghost digits = t@.skip(start as int);
    let mut i: usize = start;
    let mut val: u64 = 0;
    while i < t.len()
        invariant
            start <= i <= t@.len(),
            digits == t@.skip(start as int),
            if t@[0] == '+' {
                start == 1
            } else {
                start == 0
            },
            start < t@.len(),
            forall|j: int| start <= j < i ==> is_digit(t@[j]),
            val <= u32::MAX,
            val == digits_val(digits.take(i - start)),
        decreases t@.len() - i,
    {
        let c = t[i];
        let cu = c as u32;
        if cu < 48 || cu > 57 {
            proof {
                assert(!is_digit(t@[i as int]));
                if is_numeric(t@) {
                    if t@.len() > 0 && t@[0] == '+' {
                        assert(all_digits(t@.skip(1)));
                        assert(t@.skip(1)[i - 1] == t@[(i - 1) + 1]);
                        assert(false);
                    } else {
                        assert(all_digits(t@));
                        assert(false);
                    }
                }
            }
            return None;
        }
        proof {
            assert(is_digit(t@[i as int]));
            assert(digits.take(i + 1 - start).drop_last() =~= digits.take(i - start));
            assert(digits[i - start] == t@[(i - start) + start]);
            assert(digits.take(i + 1 - start).last() == t@[i as int]);
        }
        val = val * 10 + ((cu - 48) as u64);
        if val > 0xFFFF_FFFF {
            proof {
                if is_numeric(t@) {
                    // The whole token is digits after the optional sign, so
                    // its value only exceeds the prefix already read.
                    if t@[0] == '+' {
                        assert(start == 1);
                        assert(all_digits(t@.skip(1)));
                        assert(digits == t@.skip(1));
                        lemma_digits_val_grows(digits, i + 1 - start);
                        assert(numeric_val(t@) == digits_val(digits));
                    } else {
                        assert(all_digits(t@));
                        assert(start == 0);
                        assert(digits =~= t@);
                        lemma_digits_val_grows(digits, i + 1 - start);
                        assert(numeric_val(t@) == digits_val(digits));
                    }
                    assert(digits_val(digits) >= digits_val(digits.take(i + 1 - start)));
                    assert(numeric_val(t@) > u32::MAX);
                }
            }
            return None;
        }
        i += 1;
    }
    proof {
        assert(digits.take(i - start) =~= digits);
        if start == 1 {
            assert(all_digits(digits)) by {
                assert(forall|j: int| 0 <= j < digits.len() ==> digits[j] == t@[j + 1]);
            }
            assert(is_numeric(t@));
            assert(numeric_val(t@) == digits_val(digits));
        } else {
            assert(digits =~= t@);
            assert(all_digits(t@));
            assert(is_numeric(t@));
        }
        assert(numeric_val(t@) == val);
    }
    Some(val as u32)
}

/// Maps one token to one operation, with the integer and boolean literal
/// fallbacks, or reports the token as unhandled.
pub fn parse_token(t: &Vec<char>) -> (r: Result<Op, Error>)
    ensures
        match parse_ok(t@) {
            Some(op) => r == Ok::<Op, Error>(op),
            None => match r {
                Err(Error::UnhandledToken { got }) => got@ == t@,
                _ => false,
            },
        },
{
    if tok_eq(t, "+") {
        Ok(Op::Add)
    } else if tok_eq(t, "/") {
        Ok(Op::Divide)
    } else if tok_eq(t, "%") {
        Ok(Op::Modulo)
    } else if tok_eq(t, "*") {
        Ok(Op::Multiply)
    } else if tok_eq(t, "-") {
        Ok(Op::Subtract)
    } else if tok_eq(t, "==") {
        Ok(Op::Equal)
    } else if tok_eq(t, ">") {
        Ok(Op::GreaterThan)
    } else if tok_eq(t, ">=") {
        Ok(Op::GreaterThanEqual)
    } else if tok_eq(t, "<") {
        Ok(Op::LessThan)
    } else if tok_eq(t, "<=") {
        Ok(Op::LessThanEqual)
    } else if tok_eq(t, "dim") {
        Ok(Op::Dimensions)
    } else if tok_eq(t, "drop") {
        Ok(Op::Drop)
    } else if tok_eq(t, "dup") {
        Ok(Op::Dup)
    } else if tok_eq(t, "fragPos") {
        Ok(Op::FragPos)
    } else if tok_eq(t, "makeColor") {
        Ok(Op::MakeColor)
    } else if tok_eq(t, "rot") {
        Ok(Op::Rot)
    } else if tok_eq(t, "rotN") {
        Ok(Op::RotN)
    } else if tok_eq(t, "splitColor") {
        Ok(Op::SplitColor)
    } else if tok_eq(t, "texturePixel") {
        Ok(Op::TexturePixel)
    } else {
        match parse_number(t) {
            Some(v) => {
                if v <= 255 {
                    Ok(Op::Data(Data::U8(v as u8)))
                } else {
                    Ok(Op::Data(Data::U32(v)))
                }
            },
            None => {
                if tok_eq(t, "true") {
                    Ok(Op::Data(Data::Bool(true)))
                } else if tok_eq(t, "false") {
                    Ok(Op::Data(Data::Bool(false)))
                } else {
                    Err(Error::UnhandledToken { got: chars_to_string(t) })
                }
            },
        }
    }
}

/// Strips comments from the raw program text, after normalizing `\r\n` to
/// `\n`.
pub fn clean_text(raw: &Vec<char>) -> (out: Vec<char>)
    ensures
        out@ == clean(raw@),
{
    // Normalize \r\n to \n.
    let mut norm: Vec<char> = Vec::new();
    let mut i: usize = 0;
    while i < raw.len()
        invariant
            i <= raw@.len(),
            norm@ + normalize_from(raw@, i as int) == normalize_from(raw@, 0),
        decreases raw@.len() - i,
    {
        if raw[i] == '\r' && i + 1 < raw.len() && raw[i + 1] == '\n' {
            norm.push('\n');
            proof {
                assert(norm@ + normalize_from(raw@, i + 2) =~= normalize_from(raw@, 0));
            }
            i += 2;
        } else {
            norm.push(raw[i]);
            proof {
                assert(norm@ + normalize_from(raw@, i + 1) =~= normalize_from(raw@, 0));
            }
            i += 1;
        }
    }
    proof {
        assert(norm@ =~= normalize_from(raw@, 0));
    }
    // Remove comments.
    let mut out: Vec<char> = Vec::new();
    let mut in_comment = false;
    let mut j: usize = 0;
    while j < norm.len()
        invariant
            j <= norm@.len(),
            out@ + strip_from(norm@, j as int, in_comment) == strip_from(norm@, 0, false),
        decreases norm@.len() - j,
    {
        let c = norm[j];
        if in_comment {
            if c == '\n' {
                out.push('\n');
                in_comment = false;
                proof {
                    assert(out@ + strip_from(norm@, j + 1, false) =~= strip_from(norm@, 0, false));
                }
            }
        } else {
            if c == '#' {
                in_comment = true;
            } else {
                out.push(c);
                proof {
                    assert(out@ + strip_from(norm@, j + 1, false) =~= strip_from(norm@, 0, false));
                }
            }
        }
        j += 1;
    }
    proof {
        assert(out@ =~= strip_from(norm@, 0, false));
    }
    out
}

/// The tokens a token list holds, each read as its characters.
pub open spec fn views_of(toks: Seq<Vec<char>>) -> Seq<Seq<char>> {
    toks.map_values(|t: Vec<char>| t@)
}

/// Splits cleaned text on runs of whitespace into its tokens.
pub fn split_tokens(text: &Vec<char>) -> (toks: Vec<Vec<char>>)
    ensures
        views_of(toks@) == tokenize(text@),
{
    let mut toks: Vec<Vec<char>> = Vec::new();
    let mut cur: Vec<char> = Vec::new();
    let mut i: usize = 0;
    while i < text.len()
        invariant
            i <= text@.len(),
            views_of(toks@) + tokenize_from(text@, i as int, cur@) == tokenize(text@),
        decreases text@.len() - i,
    {
        let c = text[i];
        let ghost pre_toks = views_of(toks@);
        let ghost pre_cur = cur@;
        if char_is_whitespace(c) {
            if cur.len() > 0 {
                toks.push(cur);
                cur = Vec::new();
                proof {
                    assert(cur@ =~= Seq::<char>::empty());
                    assert(views_of(toks@) =~= pre_toks.push(pre_cur));
                    assert(tokenize_from(text@, i as int, pre_cur) == seq![pre_cur]
                        + tokenize_from(text@, i + 1, cur@));
                    assert(views_of(toks@) + tokenize_from(text@, i + 1, cur@) =~= pre_toks + (
                    seq![pre_cur] + tokenize_from(text@, i + 1, cur@)));
                }
            } else {
                proof {
                    assert(pre_cur =~= Seq::<char>::empty());
                }
            }
        } else {
            cur.push(c);
        }
        i += 1;
    }
    let ghost pre_toks = views_of(toks@);
    let ghost pre_cur = cur@;
    if cur.len() > 0 {
        toks.push(cur);
        proof {
            assert(views_of(toks@) =~= pre_toks.push(pre_cur));
        }
    } else {
        proof {
            assert(pre_cur =~= Seq::<char>::empty());
            assert(views_of(toks@) + Seq::<Seq<char>>::empty() =~= views_of(toks@));
        }
    }
    toks
}

} // verus!
