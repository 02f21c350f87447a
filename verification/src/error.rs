use std::borrow::Cow;
use vstd::prelude::*;

verus! {

/// Everything that can go wrong while a unit is read. The set is closed: every
/// fallible operation of this crate fails with one of these.
#[derive(Debug, PartialEq)]
pub enum Error<'a> {
    /// Fewer bytes than a whole card were at hand; holds how many there were.
    CardSizeNotRespected(usize),
    /// The header has no card with this mandatory keyword.
    MandatoryKeywordMissing(Cow<'a, str>),
    /// A keyword was given that is not exactly eight bytes long.
    MustBe8BytesLong(&'a [u8]),
    /// The value field of a card is malformed; holds the bytes from the
    /// offending position on.
    TokenizerError(&'a [u8]),
    /// The value of the first mandatory keyword is not a logical.
    SimpleKeywordBadValue,
    /// The element-type value is not one of the known tags.
    ElementTypeBadValue,
    /// The axis count is not an integer in the range the format allows.
    AxisCountBadValue,
    /// An axis size is not an integer that fits the machine, or the sizes
    /// declare a block too large to address.
    AxisSizeBadValue,
    /// No card declares the size of a required axis.
    AxisSizeNotFound,
    /// A mandatory part of the unit, named here, is not what the header
    /// requires.
    MandatoryValueError(&'a str),
    /// The axis count is zero or negative.
    NonPositiveAxisCount,
    /// The size of the axis with this (1-based) index is zero or negative.
    NonPositiveAxisSize(usize),
}

/// What an [`Error`] says, free of borrows: the model that contracts speak of.
pub ghost enum ErrorView {
    CardSizeNotRespected(nat),
    MandatoryKeywordMissing(Seq<char>),
    MustBe8BytesLong(Seq<u8>),
    TokenizerError(Seq<u8>),
    SimpleKeywordBadValue,
    ElementTypeBadValue,
    AxisCountBadValue,
    AxisSizeBadValue,
    AxisSizeNotFound,
    MandatoryValueError(Seq<char>),
    NonPositiveAxisCount,
    NonPositiveAxisSize(nat),
}

impl<'a> View for Error<'a> {
    type V = ErrorView;

    open spec fn view(&self) -> ErrorView {
        match *self {
            Error::CardSizeNotRespected(size) => ErrorView::CardSizeNotRespected(size as nat),
            Error::MandatoryKeywordMissing(key) => ErrorView::MandatoryKeywordMissing(key@),
            Error::MustBe8BytesLong(bytes) => ErrorView::MustBe8BytesLong(bytes@),
            Error::TokenizerError(span) => ErrorView::TokenizerError(span@),
            Error::SimpleKeywordBadValue => ErrorView::SimpleKeywordBadValue,
            Error::ElementTypeBadValue => ErrorView::ElementTypeBadValue,
            Error::AxisCountBadValue => ErrorView::AxisCountBadValue,
            Error::AxisSizeBadValue => ErrorView::AxisSizeBadValue,
            Error::AxisSizeNotFound => ErrorView::AxisSizeNotFound,
            Error::MandatoryValueError(field) => ErrorView::MandatoryValueError(field@),
            Error::NonPositiveAxisCount => ErrorView::NonPositiveAxisCount,
            Error::NonPositiveAxisSize(index) => ErrorView::NonPositiveAxisSize(index as nat),
        }
    }
}

impl ErrorView {
    /// The text that describes an error of this kind.
    pub open spec fn message(self) -> Seq<char> {
        match self {
            ErrorView::CardSizeNotRespected(_) => "card size not repected"@,
            ErrorView::MandatoryKeywordMissing(_) => "mandatory keyword missing"@,
            _ => ""@,
        }
    }
}

impl<'a> Error<'a> {
    /// Renders the error as text. Only the two kinds that concern the card
    /// layout have a text of their own; every other kind renders as the empty
    /// string.
    pub fn message(&self) -> (text: String)
        ensures
            text@ == self@.message(),
    {
        match self {
            Error::CardSizeNotRespected(_) => "card size not repected".to_owned(),
            Error::MandatoryKeywordMissing(_) => "mandatory keyword missing".to_owned(),
            _ => "".to_owned(),
        }
    }
}

} // verus!
