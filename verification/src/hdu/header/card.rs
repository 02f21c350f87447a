use crate::error::Error;
use crate::error::ErrorView;
use vstd::prelude::*;
use vstd::slice::slice_subrange;

verus! {

/// Every card is this many bytes long.
pub const CARD_SIZE: usize = 80;

/// The keyword field of a card is its first eight bytes.
pub const KEYWORD_SIZE: usize = 8;

/// The value that a card gives to its keyword, as far as this reader
/// interprets it.
#[derive(Clone, Copy, Debug, PartialEq, Eq, Structural)]
pub enum Value {
    /// `T` or `F`.
    Logical(bool),
    /// A decimal integer that fits 64 bits.
    Integer(i64),
    /// Anything else that the format allows: a character string, a real, an
    /// integer beyond 64 bits, or no value at all.
    Other,
}

/// A card of the form `keyword = value`.
#[derive(Clone, Copy, Debug, PartialEq, Eq)]
pub struct Entry {
    pub keyword: [u8; 8],
    pub value: Value,
}

/// What one card holds. A card is [`CARD_SIZE`] bytes of text. Its first
/// eight bytes are the keyword. The keyword `END`, padded with spaces, ends the
/// header. Any other card gives its keyword a value if `=` and a space follow
/// the keyword; the value then stands behind them, after any number of spaces,
/// and a `/` starts a comment. A card without that indicator is commentary.
#[derive(Clone, Copy, Debug, PartialEq, Eq)]
pub enum Card {
    /// The card that ends the header.
    End,
    /// A keyword with its value.
    Entry(Entry),
    /// A card without a value indicator: commentary, history, blanks.
    Commentary,
}

pub open spec fn is_digit(b: u8) -> bool {
    48 <= b <= 57
}

/// The first index at or after `i` at which `s` holds no space, or the length
/// of `s` if there is none.
pub open spec fn spaces_end(s: Seq<u8>, i: int) -> int
    decreases s.len() - i,
{
    if 0 <= i < s.len() && s[i] == 32 {
        spaces_end(s, i + 1)
    } else {
        i
    }
}

/// The first index at or after `i` at which `s` holds no decimal digit, or the
/// length of `s` if there is none.
pub open spec fn digits_end(s: Seq<u8>, i: int) -> int
    decreases s.len() - i,
{
    if 0 <= i < s.len() && is_digit(s[i]) {
        digits_end(s, i + 1)
    } else {
        i
    }
}

/// The number that a sequence of decimal digits writes.
pub open spec fn digits_value(s: Seq<u8>) -> nat
    decreases s.len(),
{
    if s.len() == 0 {
        0
    } else {
        (digits_value(s.drop_last()) * 10 + (s.last() - 48)) as nat
    }
}

/// The bytes `END` and five spaces.
pub open spec fn end_keyword() -> Seq<u8> {
    seq![69u8, 78u8, 68u8, 32u8, 32u8, 32u8, 32u8, 32u8]
}

/// The value that an unsigned run of digits at the start of `u` writes, where
/// `negative` tells whether a minus sign stood before it. `Err` holds the
/// offending bytes where `u` does not start with a digit.
pub open spec fn spec_number(u: Seq<u8>, negative: bool) -> Result<Value, ErrorView> {
    let n = digits_end(u, 0);
    let magnitude = digits_value(u.subrange(0, n));
    if n == 0 {
        Err(ErrorView::TokenizerError(u))
    } else if (n == u.len() || u[n] == 32 || u[n] == 47) && magnitude <= i64::MAX {
        Ok(Value::Integer((if negative { -(magnitude as int) } else { magnitude as int }) as i64))
    } else {
        Ok(Value::Other)
    }
}

/// The value that the value field of a card holds: what follows the value
/// indicator, up to the end of the card. Behind the leading spaces, `T` and
/// `F` are the logicals; a sign or a digit starts a number, which is an
/// integer if a space, a `/` or the end of the card follows its digits; a
/// quote starts a character string, and nothing or a `/` is no value at all.
/// Anything else is malformed.
pub open spec fn spec_value(field: Seq<u8>) -> Result<Value, ErrorView> {
    let t = field.skip(spaces_end(field, 0));
    if t.len() == 0 || t[0] == 47 || t[0] == 39 {
        Ok(Value::Other)
    } else if t[0] == 84 {
        Ok(Value::Logical(true))
    } else if t[0] == 70 {
        Ok(Value::Logical(false))
    } else if t[0] == 45 {
        spec_number(t.skip(1), true)
    } else if t[0] == 43 {
        spec_number(t.skip(1), false)
    } else {
        spec_number(t, false)
    }
}

/// What a card of exactly [`CARD_SIZE`] bytes holds.
pub open spec fn spec_card(card: Seq<u8>) -> Result<Card, ErrorView> {
    if card.len() != CARD_SIZE {
        Err(ErrorView::CardSizeNotRespected(card.len()))
    } else if card.subrange(0, 8) == end_keyword() {
        Ok(Card::End)
    } else if card[8] != 61 || card[9] != 32 {
        Ok(Card::Commentary)
    } else {
        match spec_value(card.skip(10)) {
            Ok(value) => Ok(Card::Entry(Entry { keyword: keyword_of(card.subrange(0, 8)), value })),
            Err(e) => Err(e),
        }
    }
}

/// The array that holds the eight bytes of `s`.
pub open spec fn keyword_of(s: Seq<u8>) -> [u8; 8] {
    [s[0], s[1], s[2], s[3], s[4], s[5], s[6], s[7]]
}

/// Cuts the first `count` bytes off `input` with `nom::bytes::complete::take`.
/// On success the pair holds what is left of the input and the bytes taken, in
/// that order. The parser fails exactly when the input is shorter than
/// `count`, and its error then points at the whole input.
#[verifier::external_body]
pub(crate) fn take<'a>(input: &'a [u8], count: usize) -> (res: Result<(&'a [u8], &'a [u8]), &'a [u8]>)
    ensures
        match res {
            Ok((rest, taken)) => {
                &&& count <= input@.len()
                &&& taken@ == input@.subrange(0, count as int)
                &&& rest@ == input@.subrange(count as int, input@.len() as int)
            },
            Err(span) => count > input@.len() && span@ == input@,
        },
{
    match nom::bytes::complete::take::<usize, &[u8], nom::error::Error<&[u8]>>(count)(input) {
        Ok((rest, taken)) => Ok((rest, taken)),
        Err(nom::Err::Error(e)) => Err(e.input),
        Err(nom::Err::Failure(e)) => Err(e.input),
        Err(nom::Err::Incomplete(_)) => Err(input),
    }
}

/// Splits `input` after its leading decimal digits with
/// `nom::character::complete::digit1`. On success the pair holds what is left
/// of the input and the digits, of which there is at least one, in that order.
/// The parser fails exactly when the input does not start with a digit, and
/// its error then points at the whole input.
#[verifier::external_body]
pub(crate) fn digit1<'a>(input: &'a [u8]) -> (res: Result<(&'a [u8], &'a [u8]), &'a [u8]>)
    ensures
        match res {
            Ok((rest, digits)) => {
                &&& digits@.len() > 0
                &&& input@ == digits@ + rest@
                &&& forall|i: int| 0 <= i < digits@.len() ==> is_digit(#[trigger] digits@[i])
                &&& rest@.len() > 0 ==> !is_digit(rest@[0])
            },
            Err(span) => span@ == input@ && (input@.len() == 0 || !is_digit(input@[0])),
        },
{
    match nom::character::complete::digit1::<&[u8], nom::error::Error<&[u8]>>(input) {
        Ok((rest, digits)) => Ok((rest, digits)),
        Err(nom::Err::Error(e)) => Err(e.input),
        Err(nom::Err::Failure(e)) => Err(e.input),
        Err(nom::Err::Incomplete(_)) => Err(input),
    }
}

proof fn lemma_digits_end(s: Seq<u8>, i: int, n: int)
    requires
        0 <= i <= n <= s.len(),
        forall|j: int| i <= j < n ==> is_digit(#[trigger] s[j]),
        n == s.len() || !is_digit(s[n]),
    ensures
        digits_end(s, i) == n,
    decreases n - i,
{
    if i < n {
        lemma_digits_end(s, i + 1, n);
    }
}

proof fn lemma_digits_value_prefix(s: Seq<u8>, k: int)
    requires
        0 <= k <= s.len(),
        forall|j: int| 0 <= j < s.len() ==> is_digit(#[trigger] s[j]),
    ensures
        digits_value(s.subrange(0, k)) <= digits_value(s),
    decreases s.len(),
{
    if k == s.len() {
        assert(s.subrange(0, k) == s);
    } else {
        assert(s.drop_last().subrange(0, k) == s.subrange(0, k));
        lemma_digits_value_prefix(s.drop_last(), k);
    }
}

/// The number that `digits` write, unless it is beyond 64 bits.
fn magnitude(digits: &[u8]) -> (res: Option<i64>)
    requires
        forall|j: int| 0 <= j < digits@.len() ==> is_digit(#[trigger] digits@[j]),
    ensures
        match res {
            Some(m) => m == digits_value(digits@),
            None => digits_value(digits@) > i64::MAX,
        },
{
    let mut acc: i64 = 0;
    let mut i: usize = 0;
    while i < digits.len()
        invariant
            0 <= i <= digits@.len(),
            0 <= acc,
            acc == digits_value(digits@.subrange(0, i as int)),
            forall|j: int| 0 <= j < digits@.len() ==> is_digit(#[trigger] digits@[j]),
        decreases digits@.len() - i,
    {
        let d: i64 = (digits[i] - 48) as i64;
        proof {
            let next = digits@.subrange(0, i + 1);
            assert(next.drop_last() == digits@.subrange(0, i as int));
            assert(digits_value(next) == acc * 10 + d);
            lemma_digits_value_prefix(digits@, i + 1);
        }
        if acc > (i64::MAX - d) / 10 {
            return None;
        }
        acc = acc * 10 + d;
        i += 1;
    }
    assert(digits@.subrange(0, i as int) == digits@);
    Some(acc)
}

/// Reads the number at the start of `u`; `negative` tells whether a minus sign
/// stood before it.
fn number<'a>(u: &'a [u8], negative: bool) -> (res: Result<Value, Error<'a>>)
    ensures
        match spec_number(u@, negative) {
            Ok(v) => res == Ok::<Value, Error<'a>>(v),
            Err(e) => res matches Err(err) && err@ == e,
        },
{
    match digit1(u) {
        Err(span) => Err(Error::TokenizerError(span)),
        Ok((rest, digits)) => {
            proof {
                assert(forall|j: int| 0 <= j < digits@.len() ==> u@[j] == digits@[j]);
                assert(rest@.len() > 0 ==> rest@[0] == u@[digits@.len() as int]);
                lemma_digits_end(u@, 0, digits@.len() as int);
                assert(u@.subrange(0, digits@.len() as int) == digits@);
            }
            let terminated = rest.len() == 0 || rest[0] == 32 || rest[0] == 47;
            match magnitude(digits) {
                Some(m) => {
                    if !terminated {
                        Ok(Value::Other)
                    } else if negative {
                        Ok(Value::Integer(-m))
                    } else {
                        Ok(Value::Integer(m))
                    }
                },
                None => Ok(Value::Other),
            }
        },
    }
}

/// What is left of `field` after its leading spaces.
fn skip_spaces<'a>(field: &'a [u8]) -> (t: &'a [u8])
    ensures
        t@ == field@.skip(spaces_end(field@, 0)),
{
    let mut i: usize = 0;
    while i < field.len() && field[i] == 32
        invariant
            0 <= i <= field@.len(),
            spaces_end(field@, 0) == spaces_end(field@, i as int),
        decreases field@.len() - i,
    {
        i += 1;
    }
    slice_subrange(field, i, field.len())
}

/// Reads the value field of a card.
fn value<'a>(field: &'a [u8]) -> (res: Result<Value, Error<'a>>)
    ensures
        match spec_value(field@) {
            Ok(v) => res == Ok::<Value, Error<'a>>(v),
            Err(e) => res matches Err(err) && err@ == e,
        },
{
    let t = skip_spaces(field);
    if t.len() == 0 || t[0] == 47 || t[0] == 39 {
        Ok(Value::Other)
    } else if t[0] == 84 {
        Ok(Value::Logical(true))
    } else if t[0] == 70 {
        Ok(Value::Logical(false))
    } else if t[0] == 45 {
        number(slice_subrange(t, 1, t.len()), true)
    } else if t[0] == 43 {
        number(slice_subrange(t, 1, t.len()), false)
    } else {
        number(t, false)
    }
}

/// Tells whether `keyword` is the keyword of the card that ends a header.
fn is_end(keyword: &[u8]) -> (b: bool)
    requires
        keyword@.len() == 8,
    ensures
        b == (keyword@ == end_keyword()),
{
    let b = keyword[0] == 69 && keyword[1] == 78 && keyword[2] == 68 && keyword[3] == 32
        && keyword[4] == 32 && keyword[5] == 32 && keyword[6] == 32 && keyword[7] == 32;
    proof {
        if b {
            assert(keyword@ =~= end_keyword());
        } else {
            assert(end_keyword()[0] == 69 && end_keyword()[1] == 78 && end_keyword()[2] == 68);
        }
    }
    b
}

/// Reads one card. The slice must hold exactly [`CARD_SIZE`] bytes, or the
/// card is refused with the number of bytes that it holds.
pub fn tokenize<'a>(card: &'a [u8]) -> (res: Result<Card, Error<'a>>)
    ensures
        match spec_card(card@) {
            Ok(c) => res == Ok::<Card, Error<'a>>(c),
            Err(e) => res matches Err(err) && err@ == e,
        },
{
    if card.len() != CARD_SIZE {
        return Err(Error::CardSizeNotRespected(card.len()));
    }
    let (rest, keyword) = match take(card, KEYWORD_SIZE) {
        Ok(parts) => parts,
        Err(span) => { return Err(Error::TokenizerError(span)); },
    };
    if is_end(keyword) {
        return Ok(Card::End);
    }
    let (field, indicator) = match take(rest, 2) {
        Ok(parts) => parts,
        Err(span) => { return Err(Error::TokenizerError(span)); },
    };
    if indicator[0] != 61 || indicator[1] != 32 {
        return Ok(Card::Commentary);
    }
    assert(field@ == card@.skip(10));
    match value(field) {
        Ok(value) => Ok(
            Card::Entry(
                Entry {
                    keyword: [
                        keyword[0],
                        keyword[1],
                        keyword[2],
                        keyword[3],
                        keyword[4],
                        keyword[5],
                        keyword[6],
                        keyword[7],
                    ],
                    value,
                },
            ),
        ),
        Err(e) => Err(e),
    }
}

} // verus!
