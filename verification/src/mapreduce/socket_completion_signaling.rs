use vstd::prelude::*;

verus! {

/// A worker's completion report, as sent over a socket.
#[derive(Clone, Copy, Debug, PartialEq, Eq, Structural)]
pub enum CompletionMessage {
    Success(usize),
    Failure(usize),
}

/// The big-endian bytes of a 32-bit length, the frame header of the socket
/// protocol.
pub open spec fn u32_be_bytes(n: u32) -> Seq<u8> {
    seq![(n >> 24) as u8, (n >> 16) as u8, (n >> 8) as u8, n as u8]
}

/// Frames a serialized message for the wire: four big-endian length bytes,
/// then the payload.
pub fn encode_frame(payload: &Vec<u8>) -> (r: Vec<u8>)
    requires
        payload@.len() <= u32::MAX,
    ensures
        r@ == u32_be_bytes(payload@.len() as u32) + payload@,
{
    let len = payload.len() as u32;
    let mut out: Vec<u8> = Vec::new();
    out.push(#[verifier::truncate] ((len >> 24) as u8));
    out.push(#[verifier::truncate] ((len >> 16) as u8));
    out.push(#[verifier::truncate] ((len >> 8) as u8));
    out.push(#[verifier::truncate] (len as u8));
    let n = payload.len();
    let mut i: usize = 0;
    while i < n
        invariant
            n == payload@.len(),
            i <= n,
            out@ == u32_be_bytes(n as u32) + payload@.take(i as int),
        decreases n - i,
    {
        out.push(payload[i]);
        proof {
            assert(u32_be_bytes(n as u32) + payload@.take(i + 1) =~= (u32_be_bytes(n as u32)
                + payload@.take(i as int)).push(payload@[i as int]));
        }
        i = i + 1;
    }
    proof {
        assert(u32_be_bytes(n as u32) + payload@.take(n as int) =~= u32_be_bytes(n as u32)
            + payload@);
    }
    out
}

/// The sender half of socket completion signaling: which port to report to
/// and as which worker. The message choice is here; the socket write is the
/// network driver's.
#[derive(Clone)]
pub struct CompletionSender {
    pub port: u16,
    pub worker_id: usize,
}

impl CompletionSender {
    pub fn new(port: u16, worker_id: usize) -> (r: Self)
        ensures
            r.port == port,
            r.worker_id == worker_id,
    {
        CompletionSender { port, worker_id }
    }

    /// The report for one result: a success carries the completing worker's
    /// id from the result itself; a failure reports this sender's own
    /// worker.
    pub fn message_for(&self, result: Result<usize, ()>) -> (r: CompletionMessage)
        ensures
            r == match result {
                Ok(id) => CompletionMessage::Success(id),
                Err(()) => CompletionMessage::Failure(self.worker_id),
            },
    {
        match result {
            Ok(id) => CompletionMessage::Success(id),
            Err(_) => CompletionMessage::Failure(self.worker_id),
        }
    }
}

} // verus!
