use crate::error::Error;
use crate::error::ErrorView;
use crate::hdu::data::memory::CursorView;
use crate::hdu::data::memory::DataBorrowedView;
use crate::hdu::data::DATA_BLOCK;
use vstd::prelude::*;

verus! {

/// What the handle of a data block that is pulled from a stream stands for:
/// the number of bytes of the block, and how many of them were read so far.
pub ghost struct PullView {
    pub num_bytes_to_read: nat,
    pub num_bytes_read: nat,
}

impl PullView {
    /// The handle of a block of `num_bytes_to_read` bytes of which none was
    /// read yet.
    pub open spec fn start(num_bytes_to_read: nat) -> PullView {
        PullView { num_bytes_to_read, num_bytes_read: 0 }
    }

    /// The number of bytes of the block that are still to read.
    pub open spec fn remaining(self) -> nat {
        (self.num_bytes_to_read - self.num_bytes_read) as nat
    }

    /// Whether the whole block was read.
    pub open spec fn complete(self) -> bool {
        self.num_bytes_read == self.num_bytes_to_read
    }

    /// The handle after the stream, asked for what remains, delivered
    /// `delivered` bytes. A stream that delivers nothing has ended, and one
    /// that delivers more than was asked for cannot be followed: both are
    /// errors.
    pub open spec fn on_read(self, delivered: nat) -> Result<PullView, ErrorView> {
        if delivered == 0 || delivered > self.remaining() {
            Err(ErrorView::MandatoryValueError(DATA_BLOCK@))
        } else {
            Ok(
                PullView {
                    num_bytes_to_read: self.num_bytes_to_read,
                    num_bytes_read: self.num_bytes_read + delivered,
                },
            )
        }
    }

    /// The handle after the reads that delivered `deliveries`, in this order.
    pub open spec fn run(self, deliveries: Seq<nat>) -> Result<PullView, ErrorView>
        decreases deliveries.len(),
    {
        if deliveries.len() == 0 {
            Ok(self)
        } else {
            match self.on_read(deliveries[0]) {
                Err(e) => Err(e),
                Ok(next) => next.run(deliveries.skip(1)),
            }
        }
    }
}

/// The sum of `deliveries`.
pub open spec fn total(deliveries: Seq<nat>) -> nat
    decreases deliveries.len(),
{
    if deliveries.len() == 0 {
        0
    } else {
        deliveries[0] + total(deliveries.skip(1))
    }
}

/// The bytes that a stream whose unread content is `rest` hands out over reads
/// that deliver `deliveries` bytes each: every read delivers the bytes that
/// follow those of the read before.
pub open spec fn streamed(rest: Seq<u8>, deliveries: Seq<nat>) -> Seq<u8>
    decreases deliveries.len(),
{
    if deliveries.len() == 0 {
        Seq::empty()
    } else {
        rest.subrange(0, deliveries[0] as int) + streamed(
            rest.skip(deliveries[0] as int),
            deliveries.skip(1),
        )
    }
}

/// Reads that a handle accepts account for exactly as many bytes as they
/// delivered, and never for more than the block has.
pub proof fn lemma_run_accounts(handle: PullView, deliveries: Seq<nat>)
    requires
        handle.num_bytes_read <= handle.num_bytes_to_read,
        handle.run(deliveries) is Ok,
    ensures
        handle.run(deliveries)->Ok_0.num_bytes_to_read == handle.num_bytes_to_read,
        handle.run(deliveries)->Ok_0.num_bytes_read == handle.num_bytes_read + total(deliveries),
        handle.run(deliveries)->Ok_0.num_bytes_read <= handle.num_bytes_to_read,
    decreases deliveries.len(),
{
    if deliveries.len() > 0 {
        lemma_run_accounts(handle.on_read(deliveries[0])->Ok_0, deliveries.skip(1));
    }
}

/// Over any reads, a stream hands out the first bytes of its content, as many
/// as the reads deliver together.
pub proof fn lemma_streamed_is_prefix(rest: Seq<u8>, deliveries: Seq<nat>)
    requires
        total(deliveries) <= rest.len(),
    ensures
        streamed(rest, deliveries) == rest.subrange(0, total(deliveries) as int),
    decreases deliveries.len(),
{
    if deliveries.len() > 0 {
        let first = deliveries[0] as int;
        lemma_streamed_is_prefix(rest.skip(first), deliveries.skip(1));
        assert(rest.subrange(0, first) + rest.skip(first).subrange(
            0,
            total(deliveries.skip(1)) as int,
        ) == rest.subrange(0, total(deliveries) as int));
    }
}

/// The access strategies agree. Take a data block that is borrowed from an
/// in-memory source, and a stream whose unread content is what that source
/// has not read. However the stream cuts its deliveries, if the handle of a
/// block of the same size accepts them all and is complete after them, then
/// the bytes that the stream handed out are those of the borrowed view, byte
/// for byte.
pub proof fn lemma_strategies_agree(
    reader: CursorView,
    block: DataBorrowedView,
    deliveries: Seq<nat>,
)
    requires
        block.wf(),
        block.reader == reader,
        PullView::start(block.num_bytes_read).run(deliveries) is Ok,
        PullView::start(block.num_bytes_read).run(deliveries)->Ok_0.complete(),
    ensures
        total(deliveries) == block.num_bytes_read,
        streamed(reader.remaining(), deliveries) == block.data.bytes,
{
    lemma_run_accounts(PullView::start(block.num_bytes_read), deliveries);
    lemma_streamed_is_prefix(reader.remaining(), deliveries);
    assert(reader.remaining().subrange(0, block.num_bytes_read as int) == block.data.bytes);
}

/// The marker that stands for a data block that was pulled from a stream and
/// let go: what is known of it is the number of bytes that were read.
#[derive(Clone, Copy, Debug, PartialEq, Eq, Structural)]
pub struct Consumed {
    pub num_bytes_read: usize,
}

/// The handle of a data block that is pulled from a buffered stream. It holds
/// no buffer: only the number of bytes of the block and how many of them were
/// pulled so far.
#[derive(Debug)]
pub struct DataOwnedIt {
    num_bytes_read: usize,
    num_bytes_to_read: usize,
}

impl View for DataOwnedIt {
    type V = PullView;

    closed spec fn view(&self) -> PullView {
        PullView {
            num_bytes_to_read: self.num_bytes_to_read as nat,
            num_bytes_read: self.num_bytes_read as nat,
        }
    }
}

impl DataOwnedIt {
    #[verifier::type_invariant]
    spec fn inv(self) -> bool {
        self.num_bytes_read <= self.num_bytes_to_read
    }

    /// Begins access to a block of `num_bytes_to_read` bytes. Nothing is read
    /// and nothing is allocated.
    pub fn new(num_bytes_to_read: usize) -> (data: DataOwnedIt)
        ensures
            data@ == PullView::start(num_bytes_to_read as nat),
    {
        DataOwnedIt { num_bytes_read: 0, num_bytes_to_read }
    }

    /// The number of bytes of the block that were not pulled yet: what ending
    /// the access will read from the stream.
    pub fn remaining(&self) -> (n: usize)
        ensures
            n == self@.remaining(),
            self@.num_bytes_read <= self@.num_bytes_to_read,
    {
        proof {
            use_type_invariant(self);
        }
        self.num_bytes_to_read - self.num_bytes_read
    }

    /// The handle itself, which is where the pulling goes on.
    pub fn get_data(&self) -> (data: &DataOwnedIt)
        ensures
            data@ == self@,
    {
        self
    }

    /// The handle itself, to pull from.
    pub fn get_data_mut(&mut self) -> (data: &mut DataOwnedIt)
        ensures
            *data == *old(self),
            *final(self) == *final(data),
    {
        self
    }

    /// Counts up to `want` bytes as pulled from the stream by the caller, and
    /// says how many: `want`, or what remains of the block if that is less.
    pub fn pull(&mut self, want: usize) -> (granted: usize)
        ensures
            granted == if want <= old(self)@.remaining() {
                want as nat
            } else {
                old(self)@.remaining()
            },
            final(self)@.num_bytes_to_read == old(self)@.num_bytes_to_read,
            final(self)@.num_bytes_read == old(self)@.num_bytes_read + granted,
    {
        proof {
            use_type_invariant(&*self);
        }
        let left: usize = self.num_bytes_to_read - self.num_bytes_read;
        let granted: usize = if want <= left { want } else { left };
        self.num_bytes_read = self.num_bytes_read + granted;
        granted
    }

    /// Ends access to the block after the one blocking read of what remained
    /// of it: `delivered` is the number of bytes that this read brought before
    /// it returned. If that is all that remained, the whole block is reported
    /// as read. Anything else is a read error: a short read is never taken
    /// for the block.
    pub fn consume_data_block<'a>(
        data: DataOwnedIt,
        delivered: usize,
        num_bytes_read: &mut usize,
    ) -> (res: Result<Consumed, Error<'a>>)
        ensures
            match res {
                Ok(consumed) => {
                    &&& delivered == data@.remaining()
                    &&& consumed.num_bytes_read == data@.num_bytes_to_read
                    &&& *final(num_bytes_read) == data@.num_bytes_to_read
                },
                Err(e) => {
                    &&& delivered != data@.remaining()
                    &&& e@ == ErrorView::MandatoryValueError(DATA_BLOCK@)
                    &&& *final(num_bytes_read) == *old(num_bytes_read)
                },
            },
    {
        proof {
            use_type_invariant(&data);
        }
        let DataOwnedIt { num_bytes_read: num_bytes_already_read, num_bytes_to_read } = data;
        let remaining_bytes_to_read: usize = num_bytes_to_read - num_bytes_already_read;
        if delivered != remaining_bytes_to_read {
            return Err(Error::MandatoryValueError(DATA_BLOCK));
        }
        // All the data block have been read
        *num_bytes_read = num_bytes_to_read;
        Ok(Consumed { num_bytes_read: num_bytes_to_read })
    }
}

/// The handle of a data block that is pulled from an asynchronous stream, one
/// partial read after the other.
#[derive(Debug)]
pub struct DataOwnedSt {
    num_bytes_read: usize,
    num_bytes_to_read: usize,
}

impl View for DataOwnedSt {
    type V = PullView;

    closed spec fn view(&self) -> PullView {
        PullView {
            num_bytes_to_read: self.num_bytes_to_read as nat,
            num_bytes_read: self.num_bytes_read as nat,
        }
    }
}

impl DataOwnedSt {
    #[verifier::type_invariant]
    spec fn inv(self) -> bool {
        self.num_bytes_read <= self.num_bytes_to_read
    }

    /// Begins access to a block of `num_bytes_to_read` bytes. Nothing is read
    /// and nothing is allocated.
    pub fn new(num_bytes_to_read: usize) -> (data: DataOwnedSt)
        ensures
            data@ == PullView::start(num_bytes_to_read as nat),
    {
        DataOwnedSt { num_bytes_read: 0, num_bytes_to_read }
    }

    /// The number of bytes to ask the stream for next: what remains of the
    /// block, which is 0 once the block is complete.
    pub fn remaining(&self) -> (n: usize)
        ensures
            n == self@.remaining(),
            self@.num_bytes_read <= self@.num_bytes_to_read,
    {
        proof {
            use_type_invariant(self);
        }
        self.num_bytes_to_read - self.num_bytes_read
    }

    /// Takes note of a read that delivered `delivered` bytes. The stream may
    /// deliver less than was asked for, and is then asked again; it has ended
    /// if it delivers nothing, which is a read error.
    pub fn on_read<'a>(self, delivered: usize) -> (res: Result<DataOwnedSt, Error<'a>>)
        ensures
            match self@.on_read(delivered as nat) {
                Ok(next) => res matches Ok(data) && data@ == next,
                Err(e) => res matches Err(err) && err@ == e,
            },
    {
        proof {
            use_type_invariant(&self);
        }
        if delivered == 0 || delivered > self.num_bytes_to_read - self.num_bytes_read {
            Err(Error::MandatoryValueError(DATA_BLOCK))
        } else {
            Ok(
                DataOwnedSt {
                    num_bytes_read: self.num_bytes_read + delivered,
                    num_bytes_to_read: self.num_bytes_to_read,
                },
            )
        }
    }

    /// Ends access to the block once the reads have brought all of it, and
    /// reports the whole block as read. Before that the block is incomplete,
    /// which is a read error.
    pub fn consume_data_block<'a>(data: DataOwnedSt, num_bytes_read: &mut usize) -> (res: Result<
        Consumed,
        Error<'a>,
    >)
        ensures
            match res {
                Ok(consumed) => {
                    &&& data@.complete()
                    &&& consumed.num_bytes_read == data@.num_bytes_to_read
                    &&& *final(num_bytes_read) == data@.num_bytes_to_read
                },
                Err(e) => {
                    &&& !data@.complete()
                    &&& e@ == ErrorView::MandatoryValueError(DATA_BLOCK@)
                    &&& *final(num_bytes_read) == *old(num_bytes_read)
                },
            },
    {
        let DataOwnedSt { num_bytes_read: num_bytes_already_read, num_bytes_to_read } = data;
        if num_bytes_already_read != num_bytes_to_read {
            return Err(Error::MandatoryValueError(DATA_BLOCK));
        }
        // All the data block have been read
        *num_bytes_read = num_bytes_to_read;
        Ok(Consumed { num_bytes_read: num_bytes_to_read })
    }
}

} // verus!
