pub mod card;

use crate::error::Error;
use crate::error::ErrorView;
use crate::hdu::header::card::tokenize;
use crate::hdu::header::card::spec_card;
use crate::hdu::header::card::take;
use crate::hdu::header::card::Card;
use crate::hdu::header::card::Entry;
use crate::hdu::header::card::Value;
use crate::hdu::header::card::CARD_SIZE;
use std::borrow::Cow;
use vstd::prelude::*;

verus! {

/// The keyword of the card that opens a header.
pub const SIMPLE: [u8; 8] = [83, 73, 77, 80, 76, 69, 32, 32];

/// The keyword of the card that declares the element type.
pub const BITPIX: [u8; 8] = [66, 73, 84, 80, 73, 88, 32, 32];

/// The keyword of the card that declares the axis count.
pub const NAXIS: [u8; 8] = [78, 65, 88, 73, 83, 32, 32, 32];

/// The largest axis count that the keywords of the format can number.
pub const MAX_NAXIS: usize = 999;

/// The element type of a data block.
#[derive(Clone, Copy, Debug, PartialEq, Eq, Structural)]
pub enum BitpixValue {
    U8,
    I16,
    I32,
    I64,
    F32,
    F64,
}

impl BitpixValue {
    /// The number of bytes that one element of this type takes.
    pub open spec fn spec_width(self) -> nat {
        match self {
            BitpixValue::U8 => 1,
            BitpixValue::I16 => 2,
            BitpixValue::I32 => 4,
            BitpixValue::I64 => 8,
            BitpixValue::F32 => 4,
            BitpixValue::F64 => 8,
        }
    }

    /// The number of bytes that one element of this type takes.
    pub fn width(self) -> (w: usize)
        ensures
            w == self.spec_width(),
    {
        match self {
            BitpixValue::U8 => 1,
            BitpixValue::I16 => 2,
            BitpixValue::I32 => 4,
            BitpixValue::I64 => 8,
            BitpixValue::F32 => 4,
            BitpixValue::F64 => 8,
        }
    }

    /// The type that a header declares with the number `code`.
    pub open spec fn spec_from_code(code: int) -> Option<BitpixValue> {
        if code == 8 {
            Some(BitpixValue::U8)
        } else if code == 16 {
            Some(BitpixValue::I16)
        } else if code == 32 {
            Some(BitpixValue::I32)
        } else if code == 64 {
            Some(BitpixValue::I64)
        } else if code == -32 {
            Some(BitpixValue::F32)
        } else if code == -64 {
            Some(BitpixValue::F64)
        } else {
            None
        }
    }

    /// The type that a header declares with the number `code`, if it is one of
    /// the six that the format knows.
    pub fn from_code(code: i64) -> (res: Option<BitpixValue>)
        ensures
            res == Self::spec_from_code(code as int),
    {
        if code == 8 {
            Some(BitpixValue::U8)
        } else if code == 16 {
            Some(BitpixValue::I16)
        } else if code == 32 {
            Some(BitpixValue::I32)
        } else if code == 64 {
            Some(BitpixValue::I64)
        } else if code == -32 {
            Some(BitpixValue::F32)
        } else if code == -64 {
            Some(BitpixValue::F64)
        } else {
            None
        }
    }
}

/// The value of the first entry of `entries`, from index `from` on, whose
/// keyword is `key`.
pub open spec fn spec_lookup(entries: Seq<Entry>, key: Seq<u8>, from: int) -> Option<Value>
    decreases entries.len() - from,
{
    if from < 0 || from >= entries.len() {
        None
    } else if entries[from].keyword@ == key {
        Some(entries[from].value)
    } else {
        spec_lookup(entries, key, from + 1)
    }
}

/// The keyword that declares the size of the axis with the 1-based index `k`:
/// `NAXIS`, then `k` in decimal, then spaces up to eight bytes.
pub open spec fn spec_axis_keyword(k: nat) -> Seq<u8> {
    if k < 10 {
        seq![78u8, 65u8, 88u8, 73u8, 83u8, (48 + k) as u8, 32u8, 32u8]
    } else if k < 100 {
        seq![78u8, 65u8, 88u8, 73u8, 83u8, (48 + k / 10) as u8, (48 + k % 10) as u8, 32u8]
    } else {
        seq![
            78u8,
            65u8,
            88u8,
            73u8,
            83u8,
            (48 + k / 100) as u8,
            (48 + (k / 10) % 10) as u8,
            (48 + k % 10) as u8,
        ]
    }
}

/// The size that `entries` declare for the axis with the 1-based index `k`.
pub open spec fn spec_axis(entries: Seq<Entry>, k: nat) -> Result<usize, ErrorView> {
    match spec_lookup(entries, spec_axis_keyword(k), 0) {
        None => Err(ErrorView::AxisSizeNotFound),
        Some(Value::Integer(size)) => if size <= 0 {
            Err(ErrorView::NonPositiveAxisSize(k))
        } else if size > usize::MAX {
            Err(ErrorView::AxisSizeBadValue)
        } else {
            Ok(size as usize)
        },
        Some(_) => Err(ErrorView::AxisSizeBadValue),
    }
}

/// The sizes that `entries` declare for the axes 1 to `n`, or the error of the
/// first axis that has one.
pub open spec fn spec_axes(entries: Seq<Entry>, n: nat) -> Result<Seq<usize>, ErrorView>
    decreases n,
{
    if n == 0 {
        Ok(Seq::empty())
    } else {
        match spec_axes(entries, (n - 1) as nat) {
            Err(e) => Err(e),
            Ok(sizes) => match spec_axis(entries, n) {
                Err(e) => Err(e),
                Ok(size) => Ok(sizes.push(size)),
            },
        }
    }
}

/// The number of elements of an array with these axis sizes: their product,
/// which is 1 where there is no axis.
pub open spec fn element_count(axes: Seq<usize>) -> nat
    decreases axes.len(),
{
    if axes.len() == 0 {
        1
    } else {
        element_count(axes.drop_last()) * (axes.last() as nat)
    }
}

/// The number of bytes of a data block with this element type and these axis
/// sizes.
pub open spec fn byte_length(bitpix: BitpixValue, axes: Seq<usize>) -> nat {
    element_count(axes) * bitpix.spec_width()
}

/// The element type and the axis sizes that `entries` declare, or the first
/// violation in the order of the mandatory keywords: the opening keyword, the
/// element type, the axis count, the axis sizes from the first on, and last
/// the size of the whole block.
pub open spec fn spec_validate(entries: Seq<Entry>) -> Result<(BitpixValue, Seq<usize>), ErrorView> {
    match spec_lookup(entries, SIMPLE@, 0) {
        None => Err(ErrorView::MandatoryKeywordMissing("SIMPLE"@)),
        Some(Value::Logical(_)) => match spec_lookup(entries, BITPIX@, 0) {
            None => Err(ErrorView::MandatoryKeywordMissing("BITPIX"@)),
            Some(Value::Integer(code)) => match BitpixValue::spec_from_code(code as int) {
                None => Err(ErrorView::ElementTypeBadValue),
                Some(bitpix) => match spec_lookup(entries, NAXIS@, 0) {
                    None => Err(ErrorView::MandatoryKeywordMissing("NAXIS"@)),
                    Some(Value::Integer(n)) => if n <= 0 {
                        Err(ErrorView::NonPositiveAxisCount)
                    } else if n > MAX_NAXIS {
                        Err(ErrorView::AxisCountBadValue)
                    } else {
                        match spec_axes(entries, n as nat) {
                            Err(e) => Err(e),
                            Ok(axes) => if byte_length(bitpix, axes) > usize::MAX {
                                Err(ErrorView::AxisSizeBadValue)
                            } else {
                                Ok((bitpix, axes))
                            },
                        }
                    },
                    Some(_) => Err(ErrorView::AxisCountBadValue),
                },
            },
            Some(_) => Err(ErrorView::ElementTypeBadValue),
        },
        Some(_) => Err(ErrorView::SimpleKeywordBadValue),
    }
}

/// What a validated header holds.
pub ghost struct HeaderView {
    pub bitpix: BitpixValue,
    pub axes: Seq<usize>,
    pub entries: Seq<Entry>,
}

impl HeaderView {
    /// The number of bytes of the data block that the header declares.
    pub open spec fn byte_length(self) -> nat {
        byte_length(self.bitpix, self.axes)
    }
}

/// The validated header of a unit: the element type and the axis sizes of its
/// data block, and the entries that it was read from.
#[derive(Debug, PartialEq)]
pub struct Header {
    bitpix: BitpixValue,
    naxis_sizes: Vec<usize>,
    entries: Vec<Entry>,
}

impl View for Header {
    type V = HeaderView;

    closed spec fn view(&self) -> HeaderView {
        HeaderView { bitpix: self.bitpix, axes: self.naxis_sizes@, entries: self.entries@ }
    }
}

proof fn lemma_axes_shape(entries: Seq<Entry>, n: nat)
    requires
        spec_axes(entries, n) is Ok,
    ensures
        spec_axes(entries, n)->Ok_0.len() == n,
        forall|i: int| 0 <= i < n ==> #[trigger] spec_axes(entries, n)->Ok_0[i] > 0,
    decreases n,
{
    if n > 0 {
        lemma_axes_shape(entries, (n - 1) as nat);
    }
}

/// The element count of a prefix of positive axis sizes is at least 1 and at
/// most that of them all.
pub proof fn lemma_element_count_prefix(axes: Seq<usize>, k: int)
    requires
        0 <= k <= axes.len(),
        forall|i: int| 0 <= i < axes.len() ==> #[trigger] axes[i] > 0,
    ensures
        1 <= element_count(axes.subrange(0, k)) <= element_count(axes),
    decreases axes.len(),
{
    if axes.len() == 0 {
        assert(axes.subrange(0, k) == axes);
    } else {
        let front = axes.drop_last();
        let last = axes.last() as nat;
        lemma_element_count_prefix(front, front.len() as int);
        assert(front.subrange(0, front.len() as int) == front);
        assert(element_count(front) * last >= element_count(front)) by (nonlinear_arith)
            requires
                element_count(front) >= 1,
                last >= 1,
        ;
        if k == axes.len() {
            assert(axes.subrange(0, k) == axes);
        } else {
            assert(front.subrange(0, k) == axes.subrange(0, k));
            lemma_element_count_prefix(front, k);
        }
    }
}

proof fn lemma_axes_error_persists(entries: Seq<Entry>, k: nat, n: nat)
    requires
        k <= n,
        spec_axes(entries, k) is Err,
    ensures
        spec_axes(entries, n) == spec_axes(entries, k),
    decreases n,
{
    if k < n {
        lemma_axes_error_persists(entries, k, (n - 1) as nat);
    }
}

/// What a header that `entries` declare without violation is like: it has
/// between one and [`MAX_NAXIS`] axes, each of a positive size, and its data
/// block can be addressed.
pub proof fn lemma_valid_shape(entries: Seq<Entry>)
    requires
        spec_validate(entries) is Ok,
    ensures
        1 <= spec_validate(entries)->Ok_0.1.len() <= MAX_NAXIS,
        forall|i: int|
            0 <= i < spec_validate(entries)->Ok_0.1.len() ==> #[trigger] spec_validate(
                entries,
            )->Ok_0.1[i] > 0,
        1 <= element_count(spec_validate(entries)->Ok_0.1) <= byte_length(
            spec_validate(entries)->Ok_0.0,
            spec_validate(entries)->Ok_0.1,
        ) <= usize::MAX,
{
    let (bitpix, axes) = spec_validate(entries)->Ok_0;
    let n = spec_lookup(entries, NAXIS@, 0)->Some_0->Integer_0 as nat;
    lemma_axes_shape(entries, n);
    lemma_element_count_prefix(axes, axes.len() as int);
    assert(axes.subrange(0, axes.len() as int) == axes);
    assert(element_count(axes) * bitpix.spec_width() >= element_count(axes)) by (nonlinear_arith)
        requires
            bitpix.spec_width() >= 1,
    ;
}

/// A keyword that no entry has is looked up in vain.
pub proof fn lemma_lookup_absent(entries: Seq<Entry>, key: Seq<u8>, from: int)
    requires
        0 <= from,
        forall|i: int| from <= i < entries.len() ==> (#[trigger] entries[i]).keyword@ != key,
    ensures
        spec_lookup(entries, key, from) is None,
    decreases entries.len() - from,
{
    if from < entries.len() {
        lemma_lookup_absent(entries, key, from + 1);
    }
}

/// Whether `entries` open a header and declare a known element type.
pub open spec fn declares_element_type(entries: Seq<Entry>) -> bool {
    &&& spec_lookup(entries, SIMPLE@, 0) matches Some(Value::Logical(_))
    &&& spec_lookup(entries, BITPIX@, 0) matches Some(Value::Integer(code))
    &&& BitpixValue::spec_from_code(code as int) is Some
}

/// A header without an entry for the keyword that opens it is refused for
/// that missing keyword, whatever else it holds.
pub proof fn lemma_missing_opening_keyword(entries: Seq<Entry>)
    requires
        forall|i: int| 0 <= i < entries.len() ==> (#[trigger] entries[i]).keyword@ != SIMPLE@,
    ensures
        spec_validate(entries) == Err::<(BitpixValue, Seq<usize>), ErrorView>(
            ErrorView::MandatoryKeywordMissing("SIMPLE"@),
        ),
{
    lemma_lookup_absent(entries, SIMPLE@, 0);
}

/// A header that opens as it must, but has no entry for the element type, is
/// refused for that missing keyword.
pub proof fn lemma_missing_element_type(entries: Seq<Entry>)
    requires
        spec_lookup(entries, SIMPLE@, 0) matches Some(Value::Logical(_)),
        forall|i: int| 0 <= i < entries.len() ==> (#[trigger] entries[i]).keyword@ != BITPIX@,
    ensures
        spec_validate(entries) == Err::<(BitpixValue, Seq<usize>), ErrorView>(
            ErrorView::MandatoryKeywordMissing("BITPIX"@),
        ),
{
    lemma_lookup_absent(entries, BITPIX@, 0);
}

/// A header that declares its element type, but has no entry for the axis
/// count, is refused for that missing keyword.
pub proof fn lemma_missing_axis_count(entries: Seq<Entry>)
    requires
        declares_element_type(entries),
        forall|i: int| 0 <= i < entries.len() ==> (#[trigger] entries[i]).keyword@ != NAXIS@,
    ensures
        spec_validate(entries) == Err::<(BitpixValue, Seq<usize>), ErrorView>(
            ErrorView::MandatoryKeywordMissing("NAXIS"@),
        ),
{
    lemma_lookup_absent(entries, NAXIS@, 0);
}

/// An axis count that is zero or negative is refused as such.
pub proof fn lemma_non_positive_axis_count(entries: Seq<Entry>, naxis: i64)
    requires
        declares_element_type(entries),
        spec_lookup(entries, NAXIS@, 0) == Some(Value::Integer(naxis)),
        naxis <= 0,
    ensures
        spec_validate(entries) == Err::<(BitpixValue, Seq<usize>), ErrorView>(
            ErrorView::NonPositiveAxisCount,
        ),
{
}

/// An axis size that is zero or negative is refused as such, with the index
/// of the axis, if the axes before it are declared as they must be.
pub proof fn lemma_non_positive_axis_size(entries: Seq<Entry>, naxis: i64, k: nat, size: i64)
    requires
        declares_element_type(entries),
        spec_lookup(entries, NAXIS@, 0) == Some(Value::Integer(naxis)),
        1 <= k <= naxis <= MAX_NAXIS,
        spec_axes(entries, (k - 1) as nat) is Ok,
        spec_lookup(entries, spec_axis_keyword(k), 0) == Some(Value::Integer(size)),
        size <= 0,
    ensures
        spec_validate(entries) == Err::<(BitpixValue, Seq<usize>), ErrorView>(
            ErrorView::NonPositiveAxisSize(k),
        ),
{
    lemma_axes_error_persists(entries, k, naxis as nat);
}

/// An axis whose size no entry declares is refused as not found, and no size
/// is made up for it, if the axes before it are declared as they must be.
pub proof fn lemma_axis_size_not_found(entries: Seq<Entry>, naxis: i64, k: nat)
    requires
        declares_element_type(entries),
        spec_lookup(entries, NAXIS@, 0) == Some(Value::Integer(naxis)),
        1 <= k <= naxis <= MAX_NAXIS,
        spec_axes(entries, (k - 1) as nat) is Ok,
        forall|i: int|
            0 <= i < entries.len() ==> (#[trigger] entries[i]).keyword@ != spec_axis_keyword(k),
    ensures
        spec_validate(entries) == Err::<(BitpixValue, Seq<usize>), ErrorView>(
            ErrorView::AxisSizeNotFound,
        ),
{
    lemma_lookup_absent(entries, spec_axis_keyword(k), 0);
    lemma_axes_error_persists(entries, k, naxis as nat);
}

fn same_keyword(a: &[u8; 8], b: &[u8; 8]) -> (same: bool)
    ensures
        same == (a@ == b@),
{
    let mut i: usize = 0;
    while i < 8
        invariant
            0 <= i <= 8,
            forall|j: int| 0 <= j < i ==> a@[j] == b@[j],
        decreases 8 - i,
    {
        if a[i] != b[i] {
            return false;
        }
        i += 1;
    }
    assert(a@ =~= b@);
    true
}

/// The value of the first of `entries` whose keyword is `key`.
fn lookup(entries: &Vec<Entry>, key: &[u8; 8]) -> (res: Option<Value>)
    ensures
        res == spec_lookup(entries@, key@, 0),
{
    let mut i: usize = 0;
    while i < entries.len()
        invariant
            0 <= i <= entries@.len(),
            spec_lookup(entries@, key@, 0) == spec_lookup(entries@, key@, i as int),
        decreases entries@.len() - i,
    {
        if same_keyword(&entries[i].keyword, key) {
            return Some(entries[i].value);
        }
        i += 1;
    }
    None
}

/// The keyword that declares the size of the axis with the 1-based index `k`.
fn axis_keyword(k: usize) -> (key: [u8; 8])
    requires
        1 <= k <= MAX_NAXIS,
    ensures
        key@ == spec_axis_keyword(k as nat),
{
    let key: [u8; 8] = if k < 10 {
        [78, 65, 88, 73, 83, 48 + k as u8, 32, 32]
    } else if k < 100 {
        [78, 65, 88, 73, 83, 48 + (k / 10) as u8, 48 + (k % 10) as u8, 32]
    } else {
        [78, 65, 88, 73, 83, 48 + (k / 100) as u8, 48 + ((k / 10) % 10) as u8, 48 + (k % 10) as u8]
    };
    assert(key@ =~= spec_axis_keyword(k as nat));
    key
}

/// The sizes of the axes 1 to `n`, as `entries` declare them.
fn axis_sizes<'a>(entries: &Vec<Entry>, n: usize) -> (res: Result<Vec<usize>, Error<'a>>)
    requires
        n <= MAX_NAXIS,
    ensures
        match spec_axes(entries@, n as nat) {
            Ok(sizes) => res matches Ok(v) && v@ == sizes,
            Err(e) => res matches Err(err) && err@ == e,
        },
{
    let mut sizes: Vec<usize> = Vec::new();
    let mut k: usize = 0;
    while k < n
        invariant
            k <= n <= MAX_NAXIS,
            spec_axes(entries@, k as nat) == Ok::<Seq<usize>, ErrorView>(sizes@),
        decreases n - k,
    {
        k += 1;
        let key = axis_keyword(k);
        proof {
            if spec_axis(entries@, k as nat) is Err {
                lemma_axes_error_persists(entries@, k as nat, n as nat);
            }
        }
        match lookup(entries, &key) {
            None => {
                return Err(Error::AxisSizeNotFound);
            },
            Some(Value::Integer(size)) => {
                if size <= 0 {
                    return Err(Error::NonPositiveAxisSize(k));
                }
                if size as u64 > usize::MAX as u64 {
                    return Err(Error::AxisSizeBadValue);
                }
                sizes.push(size as usize);
            },
            Some(_) => {
                return Err(Error::AxisSizeBadValue);
            },
        }
    }
    Ok(sizes)
}

/// The number of bytes of a data block with this element type and these axis
/// sizes, unless it is beyond what the machine can address.
fn checked_byte_length(bitpix: BitpixValue, axes: &Vec<usize>) -> (res: Option<usize>)
    requires
        forall|i: int| 0 <= i < axes@.len() ==> #[trigger] axes@[i] > 0,
    ensures
        match res {
            Some(n) => n == byte_length(bitpix, axes@),
            None => byte_length(bitpix, axes@) > usize::MAX,
        },
{
    let mut count: usize = 1;
    let mut i: usize = 0;
    while i < axes.len()
        invariant
            0 <= i <= axes@.len(),
            count == element_count(axes@.subrange(0, i as int)),
            forall|j: int| 0 <= j < axes@.len() ==> #[trigger] axes@[j] > 0,
        decreases axes@.len() - i,
    {
        proof {
            assert(axes@.subrange(0, i + 1).drop_last() == axes@.subrange(0, i as int));
            lemma_element_count_prefix(axes@, i + 1);
        }
        match count.checked_mul(axes[i]) {
            Some(next) => {
                count = next;
            },
            None => {
                proof {
                    lemma_element_count_prefix(axes@, axes@.len() as int);
                    assert(element_count(axes@) * bitpix.spec_width() >= element_count(axes@))
                        by (nonlinear_arith)
                        requires
                            bitpix.spec_width() >= 1,
                    ;
                }
                return None;
            },
        }
        i += 1;
    }
    assert(axes@.subrange(0, i as int) == axes@);
    count.checked_mul(bitpix.width())
}

/// Checks the mandatory entries of a header.
fn validate<'a>(entries: &Vec<Entry>) -> (res: Result<(BitpixValue, Vec<usize>), Error<'a>>)
    ensures
        match spec_validate(entries@) {
            Ok((bitpix, axes)) => res matches Ok((b, a)) && b == bitpix && a@ == axes,
            Err(e) => res matches Err(err) && err@ == e,
        },
{
    match lookup(entries, &SIMPLE) {
        None => {
            return Err(Error::MandatoryKeywordMissing(Cow::Borrowed("SIMPLE")));
        },
        Some(Value::Logical(_)) => {},
        Some(_) => {
            return Err(Error::SimpleKeywordBadValue);
        },
    }
    let bitpix = match lookup(entries, &BITPIX) {
        None => {
            return Err(Error::MandatoryKeywordMissing(Cow::Borrowed("BITPIX")));
        },
        Some(Value::Integer(code)) => match BitpixValue::from_code(code) {
            Some(bitpix) => bitpix,
            None => {
                return Err(Error::ElementTypeBadValue);
            },
        },
        Some(_) => {
            return Err(Error::ElementTypeBadValue);
        },
    };
    let naxis: usize = match lookup(entries, &NAXIS) {
        None => {
            return Err(Error::MandatoryKeywordMissing(Cow::Borrowed("NAXIS")));
        },
        Some(Value::Integer(n)) => {
            if n <= 0 {
                return Err(Error::NonPositiveAxisCount);
            }
            if n > 999 {
                return Err(Error::AxisCountBadValue);
            }
            n as usize
        },
        Some(_) => {
            return Err(Error::AxisCountBadValue);
        },
    };
    let axes = axis_sizes(entries, naxis)?;
    proof {
        lemma_axes_shape(entries@, naxis as nat);
    }
    match checked_byte_length(bitpix, &axes) {
        Some(_) => Ok((bitpix, axes)),
        None => Err(Error::AxisSizeBadValue),
    }
}

impl Header {
    /// Whether the header is what its entries declare, which every header that
    /// this crate hands out is.
    pub open spec fn wf(&self) -> bool {
        spec_validate(self@.entries) == Ok::<(BitpixValue, Seq<usize>), ErrorView>(
            (self@.bitpix, self@.axes),
        )
    }

    #[verifier::type_invariant]
    spec fn inv(self) -> bool {
        self.wf()
    }

    /// Builds the header that `entries` declare, or reports the first
    /// violation among the mandatory keywords.
    pub fn from_entries<'a>(entries: Vec<Entry>) -> (res: Result<Header, Error<'a>>)
        ensures
            match spec_validate(entries@) {
                Ok((bitpix, axes)) => res matches Ok(header) && header.wf() && header@
                    == (HeaderView { bitpix, axes, entries: entries@ }),
                Err(e) => res matches Err(err) && err@ == e,
            },
    {
        match validate(&entries) {
            Ok((bitpix, naxis_sizes)) => Ok(Header { bitpix, naxis_sizes, entries }),
            Err(e) => Err(e),
        }
    }

    /// The element type of the data block.
    pub fn get_bitpix(&self) -> (bitpix: BitpixValue)
        ensures
            bitpix == self@.bitpix,
    {
        self.bitpix
    }

    /// The number of axes of the data block.
    pub fn get_naxis(&self) -> (naxis: usize)
        ensures
            naxis == self@.axes.len(),
    {
        self.naxis_sizes.len()
    }

    /// The size of the axis with the 1-based index `idx`, if the header has
    /// such an axis.
    pub fn get_axis_size(&self, idx: usize) -> (size: Option<&usize>)
        ensures
            match size {
                Some(size) => 1 <= idx <= self@.axes.len() && *size == self@.axes[idx - 1],
                None => idx == 0 || idx > self@.axes.len(),
            },
    {
        if idx == 0 || idx > self.naxis_sizes.len() {
            None
        } else {
            Some(&self.naxis_sizes[idx - 1])
        }
    }

    /// The number of bytes of the data block: the product of the axis sizes,
    /// times the width of an element.
    pub fn get_num_bytes_data_block(&self) -> (num_bytes: usize)
        ensures
            num_bytes == self@.byte_length(),
            num_bytes == element_count(self@.axes) * self@.bitpix.spec_width(),
            num_bytes >= 1,
            self.wf(),
    {
        proof {
            use_type_invariant(self);
            lemma_valid_shape(self@.entries);
        }
        checked_byte_length(self.bitpix, &self.naxis_sizes).unwrap()
    }

    /// The value that the header gives to `keyword`, which must be exactly
    /// eight bytes long: the name, then spaces. `None` where no entry has that
    /// keyword; where several have it, the first counts.
    pub fn get<'a>(&self, keyword: &'a [u8]) -> (res: Result<Option<Value>, Error<'a>>)
        ensures
            keyword@.len() == 8 ==> res == Ok::<Option<Value>, Error<'a>>(
                spec_lookup(self@.entries, keyword@, 0),
            ),
            keyword@.len() != 8 ==> (res matches Err(e) && e@ == ErrorView::MustBe8BytesLong(
                keyword@,
            )),
    {
        if keyword.len() != 8 {
            return Err(Error::MustBe8BytesLong(keyword));
        }
        let key: [u8; 8] = [
            keyword[0],
            keyword[1],
            keyword[2],
            keyword[3],
            keyword[4],
            keyword[5],
            keyword[6],
            keyword[7],
        ];
        assert(key@ =~= keyword@);
        Ok(lookup(&self.entries, &key))
    }
}

/// What reading one more card does to the entries gathered so far.
pub ghost enum StepView {
    /// The header goes on, with these entries.
    More(Seq<Entry>),
    /// The card ended the header, which is this one.
    Done(HeaderView),
}

/// What the card `card` does to a header of which `entries` were read so far:
/// an entry joins them, commentary leaves them as they are, and the card that
/// ends the header has them validated.
pub open spec fn spec_push(entries: Seq<Entry>, card: Seq<u8>) -> Result<StepView, ErrorView> {
    match spec_card(card) {
        Err(e) => Err(e),
        Ok(Card::Entry(entry)) => Ok(StepView::More(entries.push(entry))),
        Ok(Card::Commentary) => Ok(StepView::More(entries)),
        Ok(Card::End) => match spec_validate(entries) {
            Err(e) => Err(e),
            Ok((bitpix, axes)) => Ok(StepView::Done(HeaderView { bitpix, axes, entries })),
        },
    }
}

/// The header that starts at index `read` of `bytes`, of which `entries` were
/// read so far, and the index at which its last card ends.
pub open spec fn spec_scan(bytes: Seq<u8>, entries: Seq<Entry>, read: nat) -> Result<
    (HeaderView, nat),
    ErrorView,
>
    decreases bytes.len() - read,
{
    if read + CARD_SIZE > bytes.len() {
        Err(ErrorView::CardSizeNotRespected((bytes.len() - read) as nat))
    } else {
        match spec_push(entries, bytes.subrange(read as int, read + CARD_SIZE)) {
            Err(e) => Err(e),
            Ok(StepView::Done(header)) => Ok((header, (read + CARD_SIZE) as nat)),
            Ok(StepView::More(entries)) => spec_scan(bytes, entries, (read + CARD_SIZE) as nat),
        }
    }
}

/// The header at the start of `bytes` and the number of bytes that its cards
/// take, the card that ends it included; or the first violation met.
pub open spec fn spec_parse(bytes: Seq<u8>) -> Result<(HeaderView, nat), ErrorView> {
    spec_scan(bytes, Seq::empty(), 0)
}

proof fn lemma_scan_valid(bytes: Seq<u8>, entries: Seq<Entry>, read: nat)
    requires
        spec_scan(bytes, entries, read) is Ok,
    ensures
        spec_validate(spec_scan(bytes, entries, read)->Ok_0.0.entries) == Ok::<
            (BitpixValue, Seq<usize>),
            ErrorView,
        >(
            (
                spec_scan(bytes, entries, read)->Ok_0.0.bitpix,
                spec_scan(bytes, entries, read)->Ok_0.0.axes,
            ),
        ),
        read < spec_scan(bytes, entries, read)->Ok_0.1 <= bytes.len(),
    decreases bytes.len() - read,
{
    match spec_push(entries, bytes.subrange(read as int, read + CARD_SIZE)) {
        Ok(StepView::More(entries)) => {
            lemma_scan_valid(bytes, entries, (read + CARD_SIZE) as nat);
        },
        _ => {},
    }
}

/// A header that parses is what its entries declare, and its cards lie
/// within the bytes that it was parsed from.
pub proof fn lemma_parse_valid(bytes: Seq<u8>)
    requires
        spec_parse(bytes) is Ok,
    ensures
        spec_validate(spec_parse(bytes)->Ok_0.0.entries) == Ok::<
            (BitpixValue, Seq<usize>),
            ErrorView,
        >((spec_parse(bytes)->Ok_0.0.bitpix, spec_parse(bytes)->Ok_0.0.axes)),
        0 < spec_parse(bytes)->Ok_0.1 <= bytes.len(),
        spec_parse(bytes)->Ok_0.0.byte_length() >= 1,
{
    lemma_scan_valid(bytes, Seq::empty(), 0);
    lemma_valid_shape(spec_parse(bytes)->Ok_0.0.entries);
}

/// A header in the making: the entries read so far and the number of bytes
/// that the cards read so far took. It is fed one card at a time, whatever the
/// source the cards come from.
#[derive(Debug)]
pub struct HeaderParser {
    entries: Vec<Entry>,
    bytes_read: usize,
}

/// How a [`HeaderParser`] goes on after a card.
#[derive(Debug)]
pub enum Step {
    /// The header goes on: read the next card.
    More(HeaderParser),
    /// The header is complete; with it comes the number of bytes that its
    /// cards took.
    Done(Header, usize),
}

impl HeaderParser {
    /// The entries read so far.
    pub closed spec fn entries(&self) -> Seq<Entry> {
        self.entries@
    }

    /// The number of bytes that the cards read so far took.
    pub closed spec fn spec_bytes_read(&self) -> nat {
        self.bytes_read as nat
    }

    /// A parser that has read nothing yet.
    pub fn new() -> (parser: HeaderParser)
        ensures
            parser.entries() == Seq::<Entry>::empty(),
            parser.spec_bytes_read() == 0,
    {
        HeaderParser { entries: Vec::new(), bytes_read: 0 }
    }

    /// The number of bytes that the cards read so far took.
    pub fn bytes_read(&self) -> (n: usize)
        ensures
            n == self.spec_bytes_read(),
    {
        self.bytes_read
    }

    /// Takes the next card of the header.
    pub fn push<'a>(self, card: &'a [u8]) -> (res: Result<Step, Error<'a>>)
        requires
            self.spec_bytes_read() + CARD_SIZE <= usize::MAX,
        ensures
            match spec_push(self.entries(), card@) {
                Err(e) => res matches Err(err) && err@ == e,
                Ok(StepView::More(entries)) => res matches Ok(Step::More(next)) && next.entries()
                    == entries && next.spec_bytes_read() == self.spec_bytes_read() + CARD_SIZE,
                Ok(StepView::Done(header)) => res matches Ok(Step::Done(h, n)) && h@ == header
                    && h.wf() && n == self.spec_bytes_read() + CARD_SIZE,
            },
    {
        let bytes_read = self.bytes_read + CARD_SIZE;
        let mut entries = self.entries;
        match tokenize(card) {
            Err(e) => Err(e),
            Ok(Card::Entry(entry)) => {
                entries.push(entry);
                Ok(Step::More(HeaderParser { entries, bytes_read }))
            },
            Ok(Card::Commentary) => Ok(Step::More(HeaderParser { entries, bytes_read })),
            Ok(Card::End) => match Header::from_entries(entries) {
                Ok(header) => Ok(Step::Done(header, bytes_read)),
                Err(e) => Err(e),
            },
        }
    }
}

impl Header {
    /// Reads the header at the start of `bytes`, card by card up to the card
    /// that ends it, and says how many bytes its cards take. Where `bytes`
    /// end before that card, the error holds the number of bytes that were
    /// left for the next card, which is 0 where they end with a whole card:
    /// so the end of the input is told apart from a violation.
    pub fn parse<'a>(bytes: &'a [u8]) -> (res: Result<(Header, usize), Error<'a>>)
        ensures
            match spec_parse(bytes@) {
                Ok((header, read)) => res matches Ok((h, n)) && h@ == header && h.wf() && n
                    == read && n <= bytes@.len(),
                Err(e) => res matches Err(err) && err@ == e,
            },
    {
        let mut parser = HeaderParser::new();
        let mut rest = bytes;
        proof {
            vstd::slice::axiom_spec_len(bytes);
        }
        loop
            invariant
                bytes@.len() <= usize::MAX,
                parser.spec_bytes_read() <= bytes@.len(),
                rest@ == bytes@.skip(parser.spec_bytes_read() as int),
                spec_parse(bytes@) == spec_scan(bytes@, parser.entries(), parser.spec_bytes_read()),
            decreases bytes@.len() - parser.spec_bytes_read(),
        {
            match take(rest, CARD_SIZE) {
                Err(span) => {
                    return Err(Error::CardSizeNotRespected(span.len()));
                },
                Ok((next, card)) => {
                    assert(card@ == bytes@.subrange(
                        parser.spec_bytes_read() as int,
                        parser.spec_bytes_read() + CARD_SIZE,
                    ));
                    assert(next@ == bytes@.skip(parser.spec_bytes_read() + CARD_SIZE));
                    match parser.push(card) {
                        Err(e) => {
                            return Err(e);
                        },
                        Ok(Step::Done(header, read)) => {
                            return Ok((header, read));
                        },
                        Ok(Step::More(p)) => {
                            parser = p;
                            rest = next;
                        },
                    }
                },
            }
        }
    }
}

} // verus!
