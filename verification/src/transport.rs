//! Length-prefixed message framing: each frame is a 4-byte big-endian
//! payload length followed by the payload, with a hard size ceiling.

use vstd::prelude::*;

verus! {

/// Frames larger than this are a protocol error.
pub const MAX_MESSAGE_LEN: usize = 65536;

/// A framing failure: the peer announced (or we were asked to send) a
/// payload over the size ceiling.
#[derive(Clone, Copy, PartialEq, Eq, Structural, Debug)]
pub enum FrameError {
    Oversized,
}

/// The four big-endian bytes of a 32-bit length.
pub open spec fn spec_be_bytes(n: int) -> Seq<u8> {
    seq![
        ((n / 0x1000000) % 0x100) as u8,
        ((n / 0x10000) % 0x100) as u8,
        ((n / 0x100) % 0x100) as u8,
        (n % 0x100) as u8,
    ]
}

/// The value of four big-endian bytes.
pub open spec fn spec_be_value(b: Seq<u8>) -> int {
    b[0] * 0x1000000 + b[1] * 0x10000 + b[2] * 0x100 + b[3]
}

/// Four big-endian bytes read back as the value they encode.
pub proof fn lemma_be_round_trip(n: int)
    by (nonlinear_arith)
    requires
        0 <= n < 0x100000000,
    ensures
        spec_be_value(spec_be_bytes(n)) == n,
{
}

/// Wrap a payload in a length-prefixed frame; payloads over the ceiling
/// are rejected.
pub fn encode_frame(payload: &Vec<u8>) -> (r: Result<Vec<u8>, FrameError>)
    ensures
        match r {
            Ok(f) => payload@.len() <= MAX_MESSAGE_LEN
                && f@ == spec_be_bytes(payload@.len() as int) + payload@,
            Err(e) => payload@.len() > MAX_MESSAGE_LEN && e == FrameError::Oversized,
        },
{
    if payload.len() > MAX_MESSAGE_LEN {
        return Err(FrameError::Oversized);
    }
    let len = payload.len() as u32;
    let mut f: Vec<u8> = Vec::new();
    f.push((len / 0x1000000 % 0x100) as u8);
    f.push((len / 0x10000 % 0x100) as u8);
    f.push((len / 0x100 % 0x100) as u8);
    f.push((len % 0x100) as u8);
    let mut i: usize = 0;
    while i < payload.len()
        invariant
            i <= payload@.len(),
            f@.len() == 4 + i,
            f@.subrange(0, 4) =~= spec_be_bytes(payload@.len() as int),
            forall |j: int| 0 <= j < i ==> f@[4 + j] == payload@[j],
        decreases payload@.len() - i,
    {
        f.push(payload[i]);
        i += 1;
    }
    proof {
        assert(f@ =~= spec_be_bytes(payload@.len() as int) + payload@);
    }
    Ok(f)
}

/// The receive side's accumulation buffer for partially received frames.
pub struct FrameBuffer {
    pub buf: Vec<u8>,
}

impl FrameBuffer {
    pub fn new() -> (b: FrameBuffer)
        ensures
            b.buf@.len() == 0,
    {
        FrameBuffer { buf: Vec::new() }
    }

    /// Append newly received bytes.
    pub fn feed(&mut self, bytes: &Vec<u8>)
        ensures
            final(self).buf@ == old(self).buf@ + bytes@,
    {
        let mut i: usize = 0;
        while i < bytes.len()
            invariant
                i <= bytes@.len(),
                self.buf@ == old(self).buf@ + bytes@.subrange(0, i as int),
            decreases bytes@.len() - i,
        {
            let ghost before = self.buf@;
            self.buf.push(bytes[i]);
            proof {
                assert(self.buf@ =~= old(self).buf@ + bytes@.subrange(0, i as int + 1));
            }
            i += 1;
        }
        proof {
            assert(bytes@.subrange(0, bytes@.len() as int) =~= bytes@);
        }
    }

    /// The announced length of the frame at the head of the buffer, once
    /// four bytes are in.
    pub open spec fn spec_head_len(self) -> int {
        spec_be_value(self.buf@.subrange(0, 4))
    }

    /// Pop one complete frame if the buffer holds one.  Nothing happens on
    /// a partial frame; an announced length over the ceiling is a fatal
    /// protocol error and leaves the buffer untouched for the caller to
    /// tear down.
    pub fn try_frame(&mut self) -> (r: Result<Option<Vec<u8>>, FrameError>)
        ensures
            match r {
                Ok(Some(payload)) => {
                    &&& old(self).buf@.len() >= 4
                    &&& old(self).spec_head_len() <= MAX_MESSAGE_LEN
                    &&& old(self).buf@.len() >= 4 + old(self).spec_head_len()
                    &&& payload@ == old(self).buf@.subrange(4, 4 + old(self).spec_head_len())
                    &&& final(self).buf@ == old(self).buf@.skip(4 + old(self).spec_head_len())
                },
                Ok(None) => {
                    &&& *final(self) == *old(self)
                    &&& (old(self).buf@.len() < 4
                        || (old(self).spec_head_len() <= MAX_MESSAGE_LEN
                            && old(self).buf@.len() < 4 + old(self).spec_head_len()))
                },
                Err(e) => {
                    &&& *final(self) == *old(self)
                    &&& e == FrameError::Oversized
                    &&& old(self).buf@.len() >= 4
                    &&& old(self).spec_head_len() > MAX_MESSAGE_LEN
                },
            },
    {
        if self.buf.len() < 4 {
            return Ok(None);
        }
        let len: u32 = (self.buf[0] as u32) * 0x1000000
            + (self.buf[1] as u32) * 0x10000
            + (self.buf[2] as u32) * 0x100
            + (self.buf[3] as u32);
        proof {
            assert(self.buf@.subrange(0, 4)[0] == self.buf@[0]);
            assert(self.buf@.subrange(0, 4)[1] == self.buf@[1]);
            assert(self.buf@.subrange(0, 4)[2] == self.buf@[2]);
            assert(self.buf@.subrange(0, 4)[3] == self.buf@[3]);
        }
        if len > MAX_MESSAGE_LEN as u32 {
            return Err(FrameError::Oversized);
        }
        let len = len as usize;
        if self.buf.len() < 4 + len {
            return Ok(None);
        }

        let mut payload: Vec<u8> = Vec::new();
        let mut i: usize = 0;
        while i < len
            invariant
                i <= len,
                len <= MAX_MESSAGE_LEN,
                self.buf@.len() >= 4 + len,
                payload@.len() == i,
                forall |j: int| 0 <= j < i ==> #[trigger] payload@[j] == self.buf@[4 + j],
                *self == *old(self),
            decreases len - i,
        {
            payload.push(self.buf[4 + i]);
            i += 1;
        }
        let mut rest: Vec<u8> = Vec::new();
        let mut i: usize = 4 + len;
        while i < self.buf.len()
            invariant
                4 + len <= i <= self.buf@.len(),
                rest@.len() == i - 4 - len,
                forall |j: int| 0 <= j < rest@.len() ==> #[trigger] rest@[j] == self.buf@[4 + len + j],
                *self == *old(self),
            decreases self.buf@.len() - i,
        {
            rest.push(self.buf[i]);
            i += 1;
        }
        self.buf = rest;
        proof {
            assert(payload@ =~= old(self).buf@.subrange(4, 4 + len));
            assert(self.buf@ =~= old(self).buf@.skip(4 + len));
        }
        Ok(Some(payload))
    }
}

} // verus!
