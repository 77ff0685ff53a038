//! HID transport abstraction: the daemon's binary implements it over
//! hidapi; tests implement it with queued packets.

use vstd::prelude::*;

verus! {

/// A failed transport operation, with the device layer's description.
#[derive(Debug, Clone, PartialEq, Eq)]
pub struct TransportError {
    pub message: String,
}

/// One call on a transport, as seen by its caller.
pub enum IoEvent {
    /// The packet was written.
    Wrote(Seq<u8>),
    /// Writing the packet failed.
    WriteFailed(Seq<u8>),
    /// A blocking read delivered these bytes.
    Read(Seq<u8>),
    /// A blocking read failed.
    ReadFailed,
    /// A read with this timeout, in milliseconds, delivered these bytes;
    /// none when the timeout passed first.
    ReadWithin(i32, Seq<u8>),
    /// A read with this timeout failed.
    ReadWithinFailed(i32),
}

/// The calls made on a transport, oldest first. A specification model:
/// it has no value at run time.
pub type IoLog = Seq<IoEvent>;

/// Raw-HID packet I/O.
pub trait HidTransport {
    /// The calls made on this transport so far, oldest first.
    spec fn io_log(&self) -> IoLog;

    /// Read one packet (blocking). Returns the number of bytes read, which
    /// never exceeds the buffer; they are at the start of the buffer.
    fn read(&mut self, buf: &mut [u8]) -> (r: Result<usize, TransportError>)
        ensures
            final(buf)@.len() == old(buf)@.len(),
            r matches Ok(n) ==> n <= old(buf)@.len() && final(self).io_log() == old(
                self,
            ).io_log().push(IoEvent::Read(final(buf)@.take(n as int))),
            r is Err ==> final(self).io_log() == old(self).io_log().push(IoEvent::ReadFailed),
    ;

    /// Read with a timeout in milliseconds. `timeout_ms == 0` returns
    /// immediately if no data is available (n = 0).
    fn read_timeout(&mut self, buf: &mut [u8], timeout_ms: i32) -> (r: Result<
        usize,
        TransportError,
    >)
        ensures
            final(buf)@.len() == old(buf)@.len(),
            r matches Ok(n) ==> n <= old(buf)@.len() && final(self).io_log() == old(
                self,
            ).io_log().push(IoEvent::ReadWithin(timeout_ms, final(buf)@.take(n as int))),
            r is Err ==> final(self).io_log() == old(self).io_log().push(IoEvent::ReadWithinFailed(timeout_ms)),
    ;

    /// Write one packet.
    fn write(&mut self, buf: &[u8]) -> (r: Result<usize, TransportError>)
        ensures
            r is Ok ==> final(self).io_log() == old(self).io_log().push(IoEvent::Wrote(buf@)),
            r is Err ==> final(self).io_log() == old(self).io_log().push(
                IoEvent::WriteFailed(buf@),
            ),
    ;
}

} // verus!
