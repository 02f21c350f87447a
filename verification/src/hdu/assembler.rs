use crate::error::Error;
use crate::error::ErrorView;
use crate::hdu::data::DATA_BLOCK;
use crate::hdu::data::stream::Consumed;
use crate::hdu::data::stream::DataOwnedSt;
use crate::hdu::data::stream::PullView;
use crate::hdu::data_offset;
use crate::hdu::header::card::Entry;
use crate::hdu::header::card::CARD_SIZE;
use crate::hdu::header::lemma_parse_valid;
use crate::hdu::header::spec_parse;
use crate::hdu::header::spec_push;
use crate::hdu::header::spec_scan;
use crate::hdu::header::Header;
use crate::hdu::header::HeaderParser;
use crate::hdu::header::HeaderView;
use crate::hdu::header::Step;
use crate::hdu::header::StepView;
use crate::hdu::spec_data_offset;
use crate::hdu::spec_layout;
use crate::hdu::Layout;
use crate::hdu::HDU;
use crate::hdu::RECORD_SIZE;
use vstd::prelude::*;

verus! {

/// What the assembly of a unit from a stream asks the stream for next.
#[derive(Clone, Copy, Debug, PartialEq, Eq, Structural)]
pub enum Action {
    /// The next card: a read of exactly [`CARD_SIZE`] bytes, or of what is
    /// left of the stream if that is less.
    ReadCard,
    /// Padding: a read of at least one byte and at most this many, to throw
    /// away.
    Skip(usize),
    /// Data: a read of at least one byte and at most this many.
    ReadData(usize),
    /// Nothing: the unit is complete.
    Done,
}

/// How far the assembly of a unit from a stream has come.
pub ghost enum AssemblerView {
    /// In the header, of which these entries were read, in cards that took
    /// this many bytes.
    Header { entries: Seq<Entry>, bytes_read: nat },
    /// Behind the header, with this many bytes left to skip before the data
    /// block.
    Padding { header: HeaderView, header_bytes: nat, left: nat },
    /// In the data block.
    Data { header: HeaderView, header_bytes: nat, block: PullView },
    /// Behind the data block, of which this many bytes were read.
    Done { header: HeaderView, header_bytes: nat, num_bytes_read: nat },
}

impl AssemblerView {
    /// The state in which nothing was read yet.
    pub open spec fn start() -> AssemblerView {
        AssemblerView::Header { entries: Seq::empty(), bytes_read: 0 }
    }

    /// The number of bytes that the stream has delivered so far.
    pub open spec fn consumed(self) -> nat {
        match self {
            AssemblerView::Header { bytes_read, .. } => bytes_read,
            AssemblerView::Padding { header_bytes, left, .. } => (header_bytes + spec_data_offset(
                header_bytes,
            ) - left) as nat,
            AssemblerView::Data { header_bytes, block, .. } => header_bytes + spec_data_offset(
                header_bytes,
            ) + block.num_bytes_read,
            AssemblerView::Done { header_bytes, num_bytes_read, .. } => header_bytes
                + spec_data_offset(header_bytes) + num_bytes_read,
        }
    }

    /// What to ask the stream for next.
    pub open spec fn action(self) -> Action {
        match self {
            AssemblerView::Header { .. } => Action::ReadCard,
            AssemblerView::Padding { left, .. } => Action::Skip(left as usize),
            AssemblerView::Data { block, .. } => Action::ReadData(block.remaining() as usize),
            AssemblerView::Done { .. } => Action::Done,
        }
    }

    /// The state after the stream delivered `chunk` in answer to
    /// [`Self::action`], or the violation that `chunk` brings to light. In the
    /// header a chunk is a card. Behind it, a chunk is some of the bytes
    /// asked for; an empty one means that the stream has ended, so that the
    /// data block is missing. A complete unit takes nothing more.
    pub open spec fn feed(self, chunk: Seq<u8>) -> Result<AssemblerView, ErrorView> {
        match self {
            AssemblerView::Header { entries, bytes_read } => match spec_push(entries, chunk) {
                Err(e) => Err(e),
                Ok(StepView::More(entries)) => Ok(
                    AssemblerView::Header { entries, bytes_read: bytes_read + (CARD_SIZE as nat) },
                ),
                Ok(StepView::Done(header)) => Ok(
                    AssemblerView::Padding {
                        header,
                        header_bytes: bytes_read + (CARD_SIZE as nat),
                        left: spec_data_offset(bytes_read + (CARD_SIZE as nat)),
                    },
                ),
            },
            AssemblerView::Padding { header, header_bytes, left } => if chunk.len() == 0
                || chunk.len() > left {
                Err(ErrorView::MandatoryValueError(DATA_BLOCK@))
            } else if chunk.len() == left {
                Ok(
                    AssemblerView::Data {
                        header,
                        header_bytes,
                        block: PullView::start(header.byte_length()),
                    },
                )
            } else {
                Ok(
                    AssemblerView::Padding {
                        header,
                        header_bytes,
                        left: (left - chunk.len()) as nat,
                    },
                )
            },
            AssemblerView::Data { header, header_bytes, block } => match block.on_read(
                chunk.len(),
            ) {
                Err(e) => Err(e),
                Ok(block) => if block.complete() {
                    Ok(
                        AssemblerView::Done {
                            header,
                            header_bytes,
                            num_bytes_read: block.num_bytes_to_read,
                        },
                    )
                } else {
                    Ok(AssemblerView::Data { header, header_bytes, block })
                },
            },
            AssemblerView::Done { .. } => Ok(self),
        }
    }

    /// Whether this is the state that reading a stream with the content
    /// `bytes`, from its start on, leads to.
    pub open spec fn agrees(self, bytes: Seq<u8>) -> bool {
        &&& self.consumed() <= bytes.len()
        &&& match self {
            AssemblerView::Header { entries, bytes_read } => spec_parse(bytes) == spec_scan(
                bytes,
                entries,
                bytes_read,
            ),
            AssemblerView::Padding { header, header_bytes, left } => {
                &&& spec_parse(bytes) == Ok::<(HeaderView, nat), ErrorView>((header, header_bytes))
                &&& 1 <= left <= spec_data_offset(header_bytes)
            },
            AssemblerView::Data { header, header_bytes, block } => {
                &&& spec_parse(bytes) == Ok::<(HeaderView, nat), ErrorView>((header, header_bytes))
                &&& block.num_bytes_to_read == header.byte_length()
                &&& block.num_bytes_read < block.num_bytes_to_read
            },
            AssemblerView::Done { header, header_bytes, num_bytes_read } => spec_layout(bytes)
                == Ok::<Layout, ErrorView>(
                Layout {
                    header,
                    header_bytes,
                    padding: spec_data_offset(header_bytes),
                    data_bytes: num_bytes_read,
                },
            ),
        }
    }

    /// Whether `chunk` is what a stream with the content `bytes` may deliver
    /// in this state: the bytes that follow those delivered so far; a whole
    /// card where a card is asked for, unless the stream ends before; and
    /// otherwise no more than was asked for, and nothing only at the end of
    /// the stream.
    pub open spec fn delivers(self, bytes: Seq<u8>, chunk: Seq<u8>) -> bool {
        let at = self.consumed();
        &&& at + chunk.len() <= bytes.len()
        &&& chunk == bytes.subrange(at as int, (at + chunk.len()) as int)
        &&& match self {
            AssemblerView::Header { .. } => chunk.len() == CARD_SIZE || (chunk.len() < CARD_SIZE
                && at + chunk.len() == bytes.len()),
            AssemblerView::Padding { left, .. } => chunk.len() <= left && (chunk.len() == 0 ==> at
                == bytes.len()),
            AssemblerView::Data { block, .. } => chunk.len() <= block.remaining() && (chunk.len()
                == 0 ==> at == bytes.len()),
            AssemblerView::Done { .. } => false,
        }
    }
}

/// Reading a unit from a stream goes the way of the layout of the unit,
/// however the stream cuts its deliveries. If a state is what the content
/// `bytes` leads to, and the stream delivers `chunk` next, then either the
/// next state is again what `bytes` leads to, `chunk` further on, or the
/// violation reported is the one that the layout of `bytes` has. So a unit
/// that is assembled from a stream has the header, the padding and the number
/// of data bytes of the unit that is assembled from the same bytes in memory,
/// and the stream then stands at the first byte behind the data block.
pub proof fn lemma_feed_follows_layout(state: AssemblerView, bytes: Seq<u8>, chunk: Seq<u8>)
    requires
        state.agrees(bytes),
        state.delivers(bytes, chunk),
    ensures
        match state.feed(chunk) {
            Ok(next) => next.agrees(bytes) && next.consumed() == state.consumed() + chunk.len(),
            Err(e) => spec_layout(bytes) == Err::<Layout, ErrorView>(e),
        },
{
    match state {
        AssemblerView::Header { entries, bytes_read } => {
            if chunk.len() == CARD_SIZE {
                match spec_push(entries, chunk) {
                    Ok(StepView::Done(header)) => {
                        lemma_parse_valid(bytes);
                    },
                    _ => {},
                }
            }
        },
        AssemblerView::Padding { .. } => {
            lemma_parse_valid(bytes);
        },
        AssemblerView::Data { .. } => {
            lemma_parse_valid(bytes);
        },
        AssemblerView::Done { .. } => {},
    }
}

#[derive(Debug)]
enum State {
    Header(HeaderParser),
    Padding(Header, usize, usize),
    Data(Header, usize, DataOwnedSt),
    Done(Header, usize, Consumed),
}

/// The assembly of a unit from a stream, as far as it has come. The assembler
/// reads nothing itself: it says what to read next, takes what the stream
/// delivered, and decides how the assembly goes on. Whoever holds the stream
/// reads and hands over, until the unit is complete or a violation ends the
/// assembly. An assembly that was left half-way cannot be taken up again.
#[derive(Debug)]
pub struct Assembler {
    state: State,
}

impl View for Assembler {
    type V = AssemblerView;

    closed spec fn view(&self) -> AssemblerView {
        match self.state {
            State::Header(parser) => AssemblerView::Header {
                entries: parser.entries(),
                bytes_read: parser.spec_bytes_read(),
            },
            State::Padding(header, header_bytes, left) => AssemblerView::Padding {
                header: header@,
                header_bytes: header_bytes as nat,
                left: left as nat,
            },
            State::Data(header, header_bytes, block) => AssemblerView::Data {
                header: header@,
                header_bytes: header_bytes as nat,
                block: block@,
            },
            State::Done(header, header_bytes, consumed) => AssemblerView::Done {
                header: header@,
                header_bytes: header_bytes as nat,
                num_bytes_read: consumed.num_bytes_read as nat,
            },
        }
    }
}

impl Assembler {
    #[verifier::type_invariant]
    spec fn inv(self) -> bool {
        match self.state {
            State::Header(_) => true,
            State::Padding(header, _, left) => header.wf() && left <= RECORD_SIZE,
            State::Data(header, _, block) => header.wf() && block@.num_bytes_read
                <= block@.num_bytes_to_read,
            State::Done(header, _, _) => header.wf(),
        }
    }

    /// An assembly that has read nothing yet.
    pub fn new() -> (assembler: Assembler)
        ensures
            assembler@ == AssemblerView::start(),
    {
        Assembler { state: State::Header(HeaderParser::new()) }
    }

    /// What to ask the stream for next.
    pub fn action(&self) -> (action: Action)
        ensures
            action == self@.action(),
    {
        match &self.state {
            State::Header(_) => Action::ReadCard,
            State::Padding(_, _, left) => Action::Skip(*left),
            State::Data(_, _, block) => Action::ReadData(block.remaining()),
            State::Done(_, _, _) => Action::Done,
        }
    }

    /// The number of bytes that the cards read so far took, while the
    /// assembly is in the header, and that the whole header took, once it is
    /// behind it.
    pub fn header_bytes_read(&self) -> (n: usize)
        ensures
            n == match self@ {
                AssemblerView::Header { bytes_read, .. } => bytes_read,
                AssemblerView::Padding { header_bytes, .. } => header_bytes,
                AssemblerView::Data { header_bytes, .. } => header_bytes,
                AssemblerView::Done { header_bytes, .. } => header_bytes,
            },
    {
        match &self.state {
            State::Header(parser) => parser.bytes_read(),
            State::Padding(_, header_bytes, _) => *header_bytes,
            State::Data(_, header_bytes, _) => *header_bytes,
            State::Done(_, header_bytes, _) => *header_bytes,
        }
    }

    /// Takes what the stream delivered in answer to [`Self::action`], and
    /// goes on to the next state or ends the assembly with the violation that
    /// the delivery brings to light. The bytes of padding and data are only
    /// counted, not kept. Once the unit is complete nothing more is taken.
    /// While the assembly is in the header, the size of the header with one
    /// more card must be a number that the machine can hold.
    pub fn feed<'a>(self, delivered: &'a [u8]) -> (res: Result<Assembler, Error<'a>>)
        requires
            self@ matches AssemblerView::Header { bytes_read, .. } ==> bytes_read + CARD_SIZE
                <= usize::MAX,
        ensures
            match self@.feed(delivered@) {
                Ok(next) => res matches Ok(assembler) && assembler@ == next,
                Err(e) => res matches Err(err) && err@ == e,
            },
    {
        proof {
            use_type_invariant(&self);
        }
        match self.state {
            State::Header(parser) => match parser.push(delivered)? {
                Step::More(parser) => Ok(Assembler { state: State::Header(parser) }),
                Step::Done(header, bytes_read) => {
                    let left: usize = data_offset(bytes_read);
                    Ok(Assembler { state: State::Padding(header, bytes_read, left) })
                },
            },
            State::Padding(header, header_bytes, left) => {
                let skipped: usize = delivered.len();
                if skipped == 0 || skipped > left {
                    Err(Error::MandatoryValueError(DATA_BLOCK))
                } else if skipped == left {
                    let block = DataOwnedSt::new(header.get_num_bytes_data_block());
                    Ok(Assembler { state: State::Data(header, header_bytes, block) })
                } else {
                    Ok(Assembler { state: State::Padding(header, header_bytes, left - skipped) })
                }
            },
            State::Data(header, header_bytes, block) => {
                let block = block.on_read(delivered.len())?;
                if block.remaining() == 0 {
                    let mut num_bytes_read: usize = 0;
                    let consumed = DataOwnedSt::consume_data_block(block, &mut num_bytes_read)?;
                    Ok(Assembler { state: State::Done(header, header_bytes, consumed) })
                } else {
                    Ok(Assembler { state: State::Data(header, header_bytes, block) })
                }
            },
            State::Done(header, header_bytes, consumed) => Ok(
                Assembler { state: State::Done(header, header_bytes, consumed) },
            ),
        }
    }

    /// Whether the unit is not complete yet.
    pub fn finish_is_pending(&self) -> (pending: bool)
        ensures
            pending == !(self@ is Done),
    {
        match &self.state {
            State::Done(_, _, _) => false,
            _ => true,
        }
    }

    /// The unit, once it is complete; before that, nothing.
    pub fn finish(self) -> (unit: Option<HDU<Consumed>>)
        ensures
            match self@ {
                AssemblerView::Done { header, num_bytes_read, .. } => unit matches Some(hdu) && hdu
                    .header.wf() && hdu.header@ == header && hdu.data.num_bytes_read
                    == num_bytes_read,
                _ => unit is None,
            },
    {
        proof {
            use_type_invariant(&self);
        }
        match self.state {
            State::Done(header, _, data) => Some(HDU { header, data }),
            _ => None,
        }
    }
}

} // verus!
