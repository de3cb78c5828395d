//! The byte sink a message is written onto: the one capability the caller
//! supplies. A sink accepts sequential byte writes and an explicit flush;
//! everything the writers promise is stated over the bytes it has accepted.

use vstd::prelude::*;

verus! {

/// Why a sink operation failed.
#[derive(Clone, Copy, Debug, PartialEq, Eq, Structural)]
pub enum IoError {
    /// The sink itself reported a failure.
    Other,
    /// A write returned without accepting any bytes, so no progress was
    /// possible.
    WriteZero,
}

/// A destination for sequential byte writes, supplied by the caller: an
/// in-memory buffer, a connection stream, anything that can take bytes in
/// order and flush them on.
///
/// `contents` is the sequence of bytes the sink has accepted so far; every
/// operation says how it grows. A `reliable` sink is one that never refuses a
/// byte; on such a sink every write accepts its whole buffer and every flush
/// succeeds.
pub trait Sink: Sized {
    /// The bytes accepted so far, oldest first.
    spec fn contents(&self) -> Seq<u8>;

    /// Whether every write on this sink is guaranteed to accept its whole
    /// buffer and every flush to succeed.
    spec fn reliable(&self) -> bool;

    /// Append bytes. `Ok(n)` means exactly the first `n` bytes of `buf` were
    /// accepted; on an error nothing was.
    fn write(&mut self, buf: &[u8]) -> (r: Result<usize, IoError>)
        ensures
            final(self).reliable() == old(self).reliable(),
            match r {
                Ok(n) => n <= buf@.len() && final(self).contents() == old(self).contents()
                    + buf@.take(n as int),
                Err(_) => final(self).contents() == old(self).contents(),
            },
            old(self).reliable() ==> match r {
                Ok(n) => n == buf@.len(),
                Err(_) => false,
            },
    ;

    /// Push accepted bytes on to wherever they are bound; never changes what
    /// has been accepted.
    fn flush(&mut self) -> (r: Result<(), IoError>)
        ensures
            final(self).reliable() == old(self).reliable(),
            final(self).contents() == old(self).contents(),
            old(self).reliable() ==> r is Ok,
    ;
}

/// Write all of `buf`, retrying on partial writes. On success the sink has
/// accepted exactly `buf` beyond what it held; on an error it has accepted
/// some strictly shorter prefix of `buf`.
#[verifier::loop_isolation(false)]
pub fn write_all<W: Sink>(sink: &mut W, buf: &[u8]) -> (r: Result<(), IoError>)
    ensures
        final(sink).reliable() == old(sink).reliable(),
        match r {
            Ok(_) => final(sink).contents() == old(sink).contents() + buf@,
            Err(_) => exists|k: int|
                0 <= k < buf@.len() && final(sink).contents() == old(sink).contents() + buf@.take(
                    k,
                ),
        },
        old(sink).reliable() ==> r is Ok,
{
    let mut done: usize = 0;
    while done < buf.len()
        invariant
            done <= buf.len(),
            sink.contents() == old(sink).contents() + buf@.take(done as int),
            sink.reliable() == old(sink).reliable(),
        decreases buf@.len() - done,
    {
        let chunk = &buf[done..buf.len()];
        match sink.write(chunk) {
            Ok(n) => {
                if n == 0 {
                    proof {
                        assert(chunk@.take(0) =~= Seq::<u8>::empty());
                        assert(sink.contents() =~= old(sink).contents() + buf@.take(done as int));
                    }
                    return Err(IoError::WriteZero);
                }
                proof {
                    assert(sink.contents() == old(sink).contents() + buf@.take(done as int)
                        + chunk@.take(n as int));
                    assert(old(sink).contents() + buf@.take(done as int) + chunk@.take(n as int)
                        =~= old(sink).contents() + buf@.take((done + n) as int));
                }
                done = done + n;
            },
            Err(e) => {
                return Err(e);
            },
        }
    }
    proof {
        assert(buf@.take(buf@.len() as int) =~= buf@);
    }
    Ok(())
}

/// A growable in-memory sink: it accepts every byte and never fails.
pub struct VecSink {
    /// Everything written so far.
    pub bytes: Vec<u8>,
}

impl VecSink {
    /// An empty sink.
    pub fn new() -> (s: Self)
        ensures
            s.contents() == Seq::<u8>::empty(),
            s.reliable(),
    {
        VecSink { bytes: Vec::new() }
    }
}

impl Sink for VecSink {
    open spec fn contents(&self) -> Seq<u8> {
        self.bytes@
    }

    open spec fn reliable(&self) -> bool {
        true
    }

    #[verifier::loop_isolation(false)]
    fn write(&mut self, buf: &[u8]) -> (r: Result<usize, IoError>) {
        let mut i: usize = 0;
        while i < buf.len()
            invariant
                i <= buf.len(),
                self.bytes@ == old(self).bytes@ + buf@.take(i as int),
            decreases buf@.len() - i,
        {
            self.bytes.push(buf[i]);
            proof {
                assert(old(self).bytes@ + buf@.take(i as int) + seq![buf@[i as int]]
                    =~= old(self).bytes@ + buf@.take((i + 1) as int));
            }
            i = i + 1;
        }
        proof {
            assert(buf@.take(buf@.len() as int) =~= buf@);
        }
        Ok(buf.len())
    }

    fn flush(&mut self) -> (r: Result<(), IoError>) {
        Ok(())
    }
}

/// An in-memory sink of fixed capacity, such as a caller-supplied byte
/// buffer: a write is accepted only up to the room left, and once the sink is
/// full further writes accept nothing. It never reports an error of its own.
pub struct BoundedSink {
    /// Everything accepted so far.
    pub bytes: Vec<u8>,
    /// The most bytes the sink will ever accept.
    pub capacity: usize,
}

impl BoundedSink {
    /// An empty sink that will accept at most `capacity` bytes.
    pub fn new(capacity: usize) -> (s: Self)
        ensures
            s.contents() == Seq::<u8>::empty(),
            !s.reliable(),
            s.capacity == capacity,
    {
        BoundedSink { bytes: Vec::new(), capacity }
    }
}

impl Sink for BoundedSink {
    open spec fn contents(&self) -> Seq<u8> {
        self.bytes@
    }

    open spec fn reliable(&self) -> bool {
        false
    }

    #[verifier::loop_isolation(false)]
    fn write(&mut self, buf: &[u8]) -> (r: Result<usize, IoError>) {
        let room: usize = if self.capacity > self.bytes.len() {
            self.capacity - self.bytes.len()
        } else {
            0
        };
        let n: usize = if buf.len() < room {
            buf.len()
        } else {
            room
        };
        let mut i: usize = 0;
        while i < n
            invariant
                i <= n,
                n <= buf@.len(),
                self.bytes@ == old(self).bytes@ + buf@.take(i as int),
                self.capacity == old(self).capacity,
            decreases n - i,
        {
            self.bytes.push(buf[i]);
            proof {
                assert(old(self).bytes@ + buf@.take(i as int) + seq![buf@[i as int]]
                    =~= old(self).bytes@ + buf@.take((i + 1) as int));
            }
            i = i + 1;
        }
        Ok(n)
    }

    fn flush(&mut self) -> (r: Result<(), IoError>) {
        Ok(())
    }
}

/// A sink that is out of order: it refuses every write and every flush, and
/// never holds a byte.
pub struct FailSink;

impl Sink for FailSink {
    open spec fn contents(&self) -> Seq<u8> {
        Seq::empty()
    }

    open spec fn reliable(&self) -> bool {
        false
    }

    fn write(&mut self, buf: &[u8]) -> (r: Result<usize, IoError>) {
        Err(IoError::Other)
    }

    fn flush(&mut self) -> (r: Result<(), IoError>) {
        Err(IoError::Other)
    }
}

} // verus!
