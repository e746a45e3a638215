//! The pipe between a stream that is polled and a coder that blocks.
use vstd::prelude::*;
use crate::foreign::std_io;
use crate::io_error::{IoError, IoErrorKind};
use crate::tape;
use crate::tape::read_at;

verus! {

/// The amount of compressed data that is held back before it is passed on.
pub const HELPER_PIPE_BUFFER_SIZE: usize = 16384;

/// Bytes on the way from one who writes them when they come to one who reads
/// them when they are needed, and who is told to come again while there are none.
///
/// What was read can be put back, as long as it was not committed.
#[derive(Debug)]
pub struct AsyncHelperPipe {
    pub buffer: Vec<u8>,
    pub read: usize,
    pub open: bool,
}

/// The text of the error for a read or a flush that would have to wait.
pub open spec fn must_not_block_text() -> Seq<char> {
    "AsyncHelperPipe must not block"@
}

/// The error for a read or a flush that would have to wait.
pub fn must_not_block_error() -> (error: IoError)
    ensures
        error.says(IoErrorKind::WouldBlock, must_not_block_text()),
{
    IoError::new(IoErrorKind::WouldBlock, "AsyncHelperPipe must not block")
}

/// What a pipe gives of the bytes in it, and how it goes on.
pub open spec fn pipe_gives(
    before: AsyncHelperPipe,
    after: AsyncHelperPipe,
    max: nat,
    bytes: Result<Vec<u8>, IoError>,
) -> bool {
    &&& after.well_formed()
    &&& after.buffer@ == before.buffer@
    &&& after.open == before.open
    &&& bytes is Err <==> before.waiting().len() == 0 && before.open
    &&& match bytes {
        Ok(bytes) => {
            &&& bytes@ == before.waiting().take(
                tape::min_nat(max, before.waiting().len()) as int,
            )
            &&& after.read == before.read + bytes@.len()
        },
        Err(e) => {
            &&& e.says(IoErrorKind::WouldBlock, must_not_block_text())
            &&& after.read == before.read
        },
    }
}

/// What a pipe puts at the start of a buffer, and how it goes on.
pub open spec fn pipe_fills(
    before: AsyncHelperPipe,
    after: AsyncHelperPipe,
    buf: Seq<u8>,
    filled: Seq<u8>,
    len: Result<usize, IoError>,
) -> bool {
    &&& after.well_formed()
    &&& after.buffer@ == before.buffer@
    &&& after.open == before.open
    &&& filled.len() == buf.len()
    &&& len is Err <==> before.waiting().len() == 0 && before.open
    &&& match len {
        Ok(len) => {
            &&& len == tape::min_nat(buf.len(), before.waiting().len())
            &&& filled == before.waiting().take(len as int) + buf.skip(len as int)
            &&& after.read == before.read + len
        },
        Err(e) => {
            &&& e.says(IoErrorKind::WouldBlock, must_not_block_text())
            &&& filled == buf
            &&& after.read == before.read
        },
    }
}

impl AsyncHelperPipe {
    /// No more bytes were read than there are.
    pub open spec fn well_formed(self) -> bool {
        self.read <= self.buffer@.len()
    }

    /// The bytes that were not read.
    pub open spec fn waiting(self) -> Seq<u8> {
        self.buffer@.skip(self.read as int)
    }

    /// An empty pipe.
    pub fn new() -> (pipe: AsyncHelperPipe)
        ensures
            pipe.well_formed(),
            pipe.buffer@ == Seq::<u8>::empty(),
            pipe.open,
    {
        AsyncHelperPipe { buffer: Vec::new(), read: 0, open: true }
    }

    /// Puts bytes in. It takes all of them.
    pub fn write(&mut self, bytes: &[u8]) -> (len: usize)
        requires
            old(self).well_formed(),
        ensures
            final(self).well_formed(),
            final(self).buffer@ == old(self).buffer@ + bytes@,
            final(self).read == old(self).read,
            final(self).open == old(self).open,
            len == bytes@.len(),
    {
        self.buffer.extend_from_slice(bytes);
        assert(self.buffer@ =~= old(self).buffer@ + bytes@);
        bytes.len()
    }

    /// Whether all bytes were read. They cannot be waited for here.
    pub fn flush(&self) -> (flushed: Result<(), IoError>)
        requires
            self.well_formed(),
        ensures
            flushed is Ok <==> self.waiting().len() == 0,
            flushed matches Err(e) ==> e.says(IoErrorKind::WouldBlock, must_not_block_text()),
    {
        if self.read == self.buffer.len() {
            Ok(())
        } else {
            Err(must_not_block_error())
        }
    }

    /// Says that no more bytes will come.
    pub fn close(&mut self)
        ensures
            final(self).buffer@ == old(self).buffer@,
            final(self).read == old(self).read,
            !final(self).open,
    {
        self.open = false;
    }

    /// Takes at most `max` bytes out. Where there are none, more may come while
    /// the pipe is open; there is nothing more to read only when it is closed.
    pub fn take_bytes(&mut self, max: usize) -> (bytes: Result<Vec<u8>, IoError>)
        requires
            old(self).well_formed(),
        ensures
            pipe_gives(*old(self), *final(self), max as nat, bytes),
    {
        if self.read == self.buffer.len() && self.open {
            return Err(must_not_block_error());
        }
        let bytes = read_at(self.buffer.as_slice(), self.read as u64, max);
        self.read = self.read + bytes.len();
        Ok(bytes)
    }

    /// Fills `buf` from its start on with what can be taken out.
    pub fn read_into(&mut self, buf: &mut [u8]) -> (len: Result<usize, IoError>)
        requires
            old(self).well_formed(),
        ensures
            pipe_fills(*old(self), *final(self), old(buf)@, final(buf)@, len),
    {
        match self.take_bytes(buf.len()) {
            Ok(bytes) => {
                let ghost before = buf@;
                let mut i: usize = 0;
                while i < bytes.len()
                    invariant
                        i <= bytes@.len() <= buf@.len(),
                        buf@.len() == before.len(),
                        buf@ == bytes@.take(i as int) + before.skip(i as int),
                    decreases bytes@.len() - i,
                {
                    buf[i] = bytes[i];
                    assert(buf@ =~= bytes@.take(i + 1) + before.skip(i + 1));
                    i = i + 1;
                }
                assert(bytes@.take(i as int) =~= bytes@);
                Ok(bytes.len())
            },
            Err(error) => Err(error),
        }
    }

    /// Forgets what was read.
    pub fn commit(&mut self)
        requires
            old(self).well_formed(),
        ensures
            final(self).well_formed(),
            final(self).buffer@ == old(self).waiting(),
            final(self).read == 0,
            final(self).open == old(self).open,
    {
        let rest = self.buffer.split_off(self.read);
        self.buffer = rest;
        self.read = 0;
    }

    /// Puts back what was read.
    pub fn roll_back(&mut self)
        ensures
            final(self).well_formed(),
            final(self).buffer@ == old(self).buffer@,
            final(self).read == 0,
            final(self).open == old(self).open,
    {
        self.read = 0;
    }
}

/// What a pipe yields is what was put in, in order: reading everything that
/// waits, after two writes, gives the first and then the second.
pub proof fn law_pipe_is_ordered(pipe: AsyncHelperPipe, a: Seq<u8>, b: Seq<u8>)
    requires
        pipe.well_formed(),
    ensures
        (pipe.buffer@ + a + b).skip(pipe.read as int) == pipe.waiting() + a + b,
{
    assert((pipe.buffer@ + a + b).skip(pipe.read as int) =~= pipe.waiting() + a + b);
}

impl std::io::Read for AsyncHelperPipe {
    /// Fills `buf` from its start on, as [AsyncHelperPipe::read_into] does.
    fn read(&mut self, buf: &mut [u8]) -> (len: std::io::Result<usize>)
        ensures
            final(self).well_formed(),
            final(self).buffer@ == old(self).buffer@,
            final(self).open == old(self).open,
            final(buf)@.len() == old(buf)@.len(),
            old(self).well_formed() ==> {
                &&& len is Err <==> old(self).waiting().len() == 0 && old(self).open
                &&& match len {
                    Ok(len) => {
                        &&& len == tape::min_nat(old(buf)@.len(), old(self).waiting().len())
                        &&& final(buf)@ == old(self).waiting().take(len as int) + old(buf)@.skip(
                            len as int,
                        )
                        &&& final(self).read == old(self).read + len
                    },
                    Err(_) => final(self).read == old(self).read,
                }
            },
    {
        if self.read > self.buffer.len() {
            self.read = self.buffer.len();
        }
        match self.read_into(buf) {
            Ok(len) => Ok(len),
            Err(error) => Err(std_io::would_block(error.message.as_str())),
        }
    }
}

/// What a pipe gives is the first of what waits in it, as many bytes as were asked for or
/// all of them, and the rest waits on. It tells to come again just while nothing waits and
/// more may come.
pub proof fn law_pipe_gives_in_order(
    before: AsyncHelperPipe,
    after: AsyncHelperPipe,
    max: nat,
    bytes: Result<Vec<u8>, IoError>,
)
    requires
        before.well_formed(),
        pipe_gives(before, after, max, bytes),
    ensures
        bytes matches Ok(given) ==> {
            &&& given@ + after.waiting() == before.waiting()
            &&& given@.len() <= max
            &&& given@.len() == max || after.waiting().len() == 0
        },
        bytes is Err ==> after.waiting() == before.waiting() && before.waiting().len() == 0
            && before.open,
        before.waiting().len() > 0 || !before.open ==> bytes is Ok,
{
    if let Ok(given) = bytes {
        assert(given@ + after.waiting() =~= before.waiting());
    }
}

/// A buffer is filled from its start with the first of what waits in a pipe, as far as there
/// is room or something waits; the rest of the buffer stays, and the rest waits on.
pub proof fn law_pipe_fills_in_order(
    before: AsyncHelperPipe,
    after: AsyncHelperPipe,
    buf: Seq<u8>,
    filled: Seq<u8>,
    len: Result<usize, IoError>,
)
    requires
        before.well_formed(),
        pipe_fills(before, after, buf, filled, len),
    ensures
        len matches Ok(n) ==> {
            &&& n <= buf.len()
            &&& filled.take(n as int) + after.waiting() == before.waiting()
            &&& filled.skip(n as int) == buf.skip(n as int)
            &&& n == buf.len() || after.waiting().len() == 0
        },
        len is Err ==> filled == buf && before.waiting().len() == 0 && before.open,
        before.waiting().len() > 0 || !before.open ==> len is Ok,
{
    if let Ok(n) = len {
        assert(filled.take(n as int) + after.waiting() =~= before.waiting());
        assert(filled.skip(n as int) =~= buf.skip(n as int));
    }
}

} // verus!
