pub mod assembler;
pub mod data;
pub mod header;
pub use header::Header;

use crate::error::Error;
use crate::error::ErrorView;
use crate::hdu::data::memory::Cursor;
use crate::hdu::data::memory::CursorView;
use crate::hdu::data::memory::InMemData;
use crate::hdu::data::DATA_BLOCK;
use crate::hdu::header::element_count;
use crate::hdu::header::lemma_element_count_prefix;
use crate::hdu::header::lemma_valid_shape;
use crate::hdu::header::spec_parse;
use crate::hdu::header::HeaderView;
use vstd::prelude::*;

verus! {

/// Header and data are laid out in records of this many bytes.
pub const RECORD_SIZE: usize = 2880;

/// The number of bytes between the end of a header whose cards took
/// `bytes_read` bytes and the start of its data block: what is left of the
/// record that the header ends in, and a whole record where the header ends on
/// a record boundary.
pub open spec fn spec_data_offset(bytes_read: nat) -> nat {
    (RECORD_SIZE - bytes_read % (RECORD_SIZE as nat)) as nat
}

/// The number of bytes to skip between the last card of a header and its data
/// block.
pub fn data_offset(bytes_read: usize) -> (offset: usize)
    ensures
        offset == spec_data_offset(bytes_read as nat),
        1 <= offset <= RECORD_SIZE,
{
    RECORD_SIZE - bytes_read % RECORD_SIZE
}

/// Where the parts of a unit lie, counted from its first byte.
pub ghost struct Layout {
    /// The validated header.
    pub header: HeaderView,
    /// The number of bytes that the cards of the header take.
    pub header_bytes: nat,
    /// The number of bytes skipped between the header and the data block.
    pub padding: nat,
    /// The number of bytes of the data block.
    pub data_bytes: nat,
}

impl Layout {
    /// The offset of the first byte of the data block.
    pub open spec fn data_start(self) -> nat {
        self.header_bytes + self.padding
    }

    /// The offset of the first byte behind the data block, at which the next
    /// unit begins.
    pub open spec fn end(self) -> nat {
        self.header_bytes + self.padding + self.data_bytes
    }
}

/// The layout of the unit at the start of `bytes`: its header as the cards
/// declare it, the padding after them, and a data block of as many bytes as
/// the header declares, all of which `bytes` must hold.
pub open spec fn spec_layout(bytes: Seq<u8>) -> Result<Layout, ErrorView> {
    match spec_parse(bytes) {
        Err(e) => Err(e),
        Ok((header, header_bytes)) => {
            let layout = Layout {
                header,
                header_bytes,
                padding: spec_data_offset(header_bytes),
                data_bytes: header.byte_length(),
            };
            if layout.end() > bytes.len() {
                Err(ErrorView::MandatoryValueError(DATA_BLOCK@))
            } else {
                Ok(layout)
            }
        },
    }
}

/// Units follow each other without a gap. If a unit lies at the position
/// `pos` of `bytes`, then it ends within `bytes`, after its header, its
/// padding and its data block; and what is unread behind it is what `bytes`
/// holds from there on: the next unit is laid out over exactly those bytes.
pub proof fn lemma_next_unit_follows(bytes: Seq<u8>, pos: nat)
    requires
        pos <= bytes.len(),
        spec_layout(bytes.skip(pos as int)) is Ok,
    ensures
        ({
            let layout = spec_layout(bytes.skip(pos as int))->Ok_0;
            let next = (CursorView { bytes, pos }).advance(layout.end());
            &&& next.pos == pos + layout.header_bytes + layout.padding + layout.data_bytes
            &&& next.pos <= bytes.len()
            &&& next.remaining() == bytes.skip(pos as int).skip(layout.end() as int)
        }),
{
}

/// A header/data unit: the validated header and the view of the data block.
#[derive(Debug)]
pub struct HDU<D> {
    pub header: Header,
    pub data: D,
}

impl<'a> HDU<InMemData<'a>> {
    /// Assembles the unit that starts at the position of `reader`: parses the
    /// header, skips to the data block, lends the block from the buffer, and
    /// hands back the source as it stands behind the block, ready for the
    /// next unit. The first violation met ends the assembly; no part of a
    /// unit is handed out then.
    pub fn new(reader: Cursor<'a>) -> (res: Result<(Self, Cursor<'a>), Error<'a>>)
        ensures
            match spec_layout(reader@.remaining()) {
                Err(e) => res matches Err(err) && err@ == e,
                Ok(layout) => res matches Ok((hdu, next)) && {
                    &&& hdu.header.wf()
                    &&& hdu.header@ == layout.header
                    &&& hdu.data@.bitpix == layout.header.bitpix
                    &&& hdu.data@.bytes == reader@.bytes.subrange(
                        (reader@.pos + layout.data_start()) as int,
                        (reader@.pos + layout.end()) as int,
                    )
                    &&& next@ == reader@.advance(layout.end())
                    &&& next@.pos <= next@.bytes.len()
                },
            },
    {
        /* 1. Parse the header first */
        let (header, bytes_read) = Header::parse(reader.remaining())?;
        // At this point the header is valid
        let naxis: usize = header.get_naxis();
        let mut num_pixels: usize = 1;
        let mut idx: usize = 0;
        proof {
            lemma_valid_shape(header@.entries);
        }
        while idx < naxis
            invariant
                0 <= idx <= naxis == header@.axes.len(),
                num_pixels == element_count(header@.axes.subrange(0, idx as int)),
                forall|i: int| 0 <= i < header@.axes.len() ==> #[trigger] header@.axes[i] > 0,
                element_count(header@.axes) <= usize::MAX,
            decreases naxis - idx,
        {
            proof {
                assert(header@.axes.subrange(0, idx + 1).drop_last() == header@.axes.subrange(
                    0,
                    idx as int,
                ));
                lemma_element_count_prefix(header@.axes, idx + 1);
            }
            num_pixels = num_pixels * *header.get_axis_size(idx + 1).unwrap();
            idx += 1;
        }
        assert(header@.axes.subrange(0, idx as int) == header@.axes);
        let bitpix = header.get_bitpix();

        /* 2. Skip the next bytes to a new multiple of the record size.
        This is where the data block should start */
        let off_data_block: usize = data_offset(bytes_read);
        let reader = reader.consume(bytes_read)?;
        let reader = reader.consume(off_data_block)?;

        /* 3. Lend the data block, then hand the source on */
        let block = reader.new_data_block(bitpix, num_pixels)?;
        let data = *block.get_data();
        let mut num_bytes_read: usize = 0;
        let reader = Cursor::consume_data_block(block, &mut num_bytes_read)?;
        Ok((HDU { header, data }, reader))
    }
}

} // verus!
