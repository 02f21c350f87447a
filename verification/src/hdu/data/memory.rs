use crate::error::Error;
use crate::error::ErrorView;
use crate::hdu::data::DATA_BLOCK;
use crate::hdu::header::BitpixValue;
use vstd::prelude::*;
use vstd::slice::slice_subrange;

verus! {

/// An in-memory source: a buffer and the position of the next unread byte.
#[derive(Clone, Copy, Debug, PartialEq)]
pub struct Cursor<'a> {
    bytes: &'a [u8],
    pos: usize,
}

/// What a [`Cursor`] stands for.
pub ghost struct CursorView {
    pub bytes: Seq<u8>,
    pub pos: nat,
}

impl CursorView {
    /// The bytes not yet read.
    pub open spec fn remaining(self) -> Seq<u8> {
        self.bytes.skip(self.pos as int)
    }

    /// The same buffer, `amt` bytes further on.
    pub open spec fn advance(self, amt: nat) -> CursorView {
        CursorView { bytes: self.bytes, pos: self.pos + amt }
    }
}

impl<'a> View for Cursor<'a> {
    type V = CursorView;

    closed spec fn view(&self) -> CursorView {
        CursorView { bytes: self.bytes@, pos: self.pos as nat }
    }
}

/// A read-only view of a data block inside the buffer that it was read from,
/// typed by the element type that the header declares.
#[derive(Clone, Copy, Debug, PartialEq)]
pub struct InMemData<'a> {
    bytes: &'a [u8],
    bitpix: BitpixValue,
}

/// What an [`InMemData`] stands for.
pub ghost struct InMemDataView {
    pub bytes: Seq<u8>,
    pub bitpix: BitpixValue,
}

impl<'a> View for InMemData<'a> {
    type V = InMemDataView;

    closed spec fn view(&self) -> InMemDataView {
        InMemDataView { bytes: self.bytes@, bitpix: self.bitpix }
    }
}

/// The handle of a data block that is borrowed from an in-memory source: the
/// view of the block, the source as it stood when the block began, and the
/// number of bytes of the block.
#[derive(Debug)]
pub struct DataBorrowed<'a> {
    data: InMemData<'a>,
    reader: Cursor<'a>,
    num_bytes_read: usize,
}

/// What a [`DataBorrowed`] stands for.
pub ghost struct DataBorrowedView {
    pub data: InMemDataView,
    pub reader: CursorView,
    pub num_bytes_read: nat,
}

impl<'a> View for DataBorrowed<'a> {
    type V = DataBorrowedView;

    closed spec fn view(&self) -> DataBorrowedView {
        DataBorrowedView {
            data: self.data@,
            reader: self.reader@,
            num_bytes_read: self.num_bytes_read as nat,
        }
    }
}

impl DataBorrowedView {
    /// Whether the view is the block of `num_bytes_read` bytes that starts at
    /// the position of the source, inside its buffer.
    pub open spec fn wf(self) -> bool {
        &&& self.reader.pos + self.num_bytes_read <= self.reader.bytes.len()
        &&& self.data.bytes == self.reader.bytes.subrange(
            self.reader.pos as int,
            (self.reader.pos + self.num_bytes_read) as int,
        )
    }
}

impl<'a> InMemData<'a> {
    /// The bytes of the block, in the order of the source.
    pub fn as_bytes(&self) -> (bytes: &'a [u8])
        ensures
            bytes@ == self@.bytes,
    {
        self.bytes
    }

    /// The element type of the block.
    pub fn get_bitpix(&self) -> (bitpix: BitpixValue)
        ensures
            bitpix == self@.bitpix,
    {
        self.bitpix
    }

    /// The number of whole elements that the block holds.
    pub fn num_elements(&self) -> (n: usize)
        ensures
            n == self@.bytes.len() / self@.bitpix.spec_width(),
    {
        self.bytes.len() / self.bitpix.width()
    }

    /// The bytes of the element with the 0-based index `idx`, in the order of
    /// the source, if the block holds such an element.
    pub fn element(&self, idx: usize) -> (res: Option<&'a [u8]>)
        ensures
            match res {
                Some(bytes) => {
                    &&& idx < self@.bytes.len() / self@.bitpix.spec_width()
                    &&& bytes@ == self@.bytes.subrange(
                        idx * self@.bitpix.spec_width(),
                        idx * self@.bitpix.spec_width() + self@.bitpix.spec_width(),
                    )
                },
                None => idx >= self@.bytes.len() / self@.bitpix.spec_width(),
            },
    {
        let width: usize = self.bitpix.width();
        if idx >= self.bytes.len() / width {
            return None;
        }
        assert(idx * width + width <= self.bytes@.len()) by (nonlinear_arith)
            requires
                width > 0,
                idx < self.bytes@.len() / (width as nat),
        ;
        let start: usize = idx * width;
        Some(slice_subrange(self.bytes, start, start + width))
    }
}

impl<'a> Cursor<'a> {
    #[verifier::type_invariant]
    spec fn inv(self) -> bool {
        self.pos <= self.bytes@.len()
    }

    /// A source at the start of `bytes`.
    pub fn new(bytes: &'a [u8]) -> (cursor: Cursor<'a>)
        ensures
            cursor@ == (CursorView { bytes: bytes@, pos: 0 }),
    {
        Cursor { bytes, pos: 0 }
    }

    /// The position of the next unread byte, which is never beyond the end of
    /// the buffer.
    pub fn position(&self) -> (pos: usize)
        ensures
            pos == self@.pos,
            pos <= self@.bytes.len(),
    {
        proof {
            use_type_invariant(self);
        }
        self.pos
    }

    /// The whole buffer.
    pub fn get_ref(&self) -> (bytes: &'a [u8])
        ensures
            bytes@ == self@.bytes,
    {
        self.bytes
    }

    /// The bytes not yet read.
    pub fn remaining(&self) -> (bytes: &'a [u8])
        ensures
            bytes@ == self@.remaining(),
            self@.pos <= self@.bytes.len(),
    {
        proof {
            use_type_invariant(self);
        }
        slice_subrange(self.bytes, self.pos, self.bytes.len())
    }

    /// Skips `amt` bytes. Where the source holds fewer, nothing is skipped and
    /// the data block is reported as missing.
    pub fn consume(self, amt: usize) -> (res: Result<Cursor<'a>, Error<'a>>)
        ensures
            match res {
                Ok(next) => self@.pos + amt <= self@.bytes.len() && next@ == self@.advance(
                    amt as nat,
                ),
                Err(e) => self@.pos + amt > self@.bytes.len() && e@
                    == ErrorView::MandatoryValueError(DATA_BLOCK@),
            },
    {
        proof {
            use_type_invariant(&self);
        }
        if amt > self.bytes.len() - self.pos {
            Err(Error::MandatoryValueError(DATA_BLOCK))
        } else {
            Ok(Cursor { bytes: self.bytes, pos: self.pos + amt })
        }
    }

    /// Begins access to a data block of `num_pixels` elements of type
    /// `bitpix` at the position of the source. The block is not copied: the
    /// handle lends it from the buffer. The range of the block is checked
    /// against the buffer first; where the buffer ends before the block does,
    /// the block is reported as missing.
    pub fn new_data_block(self, bitpix: BitpixValue, num_pixels: usize) -> (res: Result<
        DataBorrowed<'a>,
        Error<'a>,
    >)
        ensures
            match res {
                Ok(data) => {
                    &&& self@.pos + num_pixels * bitpix.spec_width() <= self@.bytes.len()
                    &&& data@.wf()
                    &&& data@.reader == self@
                    &&& data@.num_bytes_read == num_pixels * bitpix.spec_width()
                    &&& data@.data.bitpix == bitpix
                },
                Err(e) => {
                    &&& self@.pos + num_pixels * bitpix.spec_width() > self@.bytes.len()
                    &&& e@ == ErrorView::MandatoryValueError(DATA_BLOCK@)
                },
            },
    {
        proof {
            use_type_invariant(&self);
            vstd::slice::axiom_spec_len(self.bytes);
        }
        let num_bytes_read: usize = match num_pixels.checked_mul(bitpix.width()) {
            Some(n) => n,
            None => {
                return Err(Error::MandatoryValueError(DATA_BLOCK));
            },
        };
        let bytes = self.bytes;
        let start_byte_pos: usize = self.pos;
        if num_bytes_read > bytes.len() - start_byte_pos {
            return Err(Error::MandatoryValueError(DATA_BLOCK));
        }
        let end_byte_pos: usize = start_byte_pos + num_bytes_read;
        let data = slice_subrange(bytes, start_byte_pos, end_byte_pos);
        Ok(DataBorrowed { data: InMemData { bytes: data, bitpix }, reader: self, num_bytes_read })
    }

    /// Ends access to a data block: reports the number of bytes of the block
    /// and hands back the source, which now stands right behind the block.
    /// Nothing is copied and this never fails.
    pub fn consume_data_block(data: DataBorrowed<'a>, num_bytes_read: &mut usize) -> (res: Result<
        Cursor<'a>,
        Error<'a>,
    >)
        ensures
            *final(num_bytes_read) == data@.num_bytes_read,
            res matches Ok(reader) && reader@ == data@.reader.advance(data@.num_bytes_read),
    {
        proof {
            use_type_invariant(&data);
            vstd::slice::axiom_spec_len(data.reader.bytes);
        }
        let DataBorrowed { reader, num_bytes_read: num_bytes, .. } = data;
        *num_bytes_read = num_bytes;
        Ok(Cursor { bytes: reader.bytes, pos: reader.pos + num_bytes })
    }
}

impl<'a> DataBorrowed<'a> {
    #[verifier::type_invariant]
    spec fn inv(self) -> bool {
        self@.wf()
    }

    /// The view of the block.
    pub fn get_data(&self) -> (data: &InMemData<'a>)
        ensures
            data@ == self@.data,
            self@.wf(),
    {
        proof {
            use_type_invariant(self);
        }
        &self.data
    }
}

} // verus!
