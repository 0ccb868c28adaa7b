//! Length-framed message protocol for the worker IPC byte streams.
//!
//! A frame is a 4-byte big-endian length prefix followed by the raw
//! payload. `encode_frame` builds the wire bytes of one message;
//! `FrameDecoder` accumulates transport chunks of arbitrary size and
//! yields each complete payload exactly as it was sent.

use vstd::prelude::*;
use vstd::arithmetic::div_mod::{
    lemma_div_denominator, lemma_div_pos_is_pos, lemma_fundamental_div_mod,
};

verus! {

/// The 4-byte big-endian encoding of a length `n` in `0 .. 2^32`.
pub open spec fn be32(n: int) -> Seq<u8> {
    seq![
        ((n / 0x1000000) % 0x100) as u8,
        ((n / 0x10000) % 0x100) as u8,
        ((n / 0x100) % 0x100) as u8,
        (n % 0x100) as u8,
    ]
}

/// The length read back from the first four bytes of `b`.
pub open spec fn be32_val(b: Seq<u8>) -> int
    recommends
        b.len() >= 4,
{
    (b[0] as int) * 0x1000000 + (b[1] as int) * 0x10000 + (b[2] as int) * 0x100 + (b[3] as int)
}

/// The wire bytes of one framed message: length prefix, then payload.
pub open spec fn frame_bytes(p: Seq<u8>) -> Seq<u8>
    recommends
        p.len() < 0x100000000,
{
    be32(p.len() as int) + p
}

/// What a buffer of accumulated bytes yields: `Some((payload, rest))`
/// once the prefix and the full payload have arrived, `None` before.
pub open spec fn decode_frame(b: Seq<u8>) -> Option<(Seq<u8>, Seq<u8>)> {
    if b.len() >= 4 {
        let n = be32_val(b);
        if n <= b.len() - 4 {
            Some((b.subrange(4, 4 + n), b.subrange(4 + n, b.len() as int)))
        } else {
            None
        }
    } else {
        None
    }
}

/// Reading the four prefix bytes back gives the encoded length.
pub proof fn lemma_be32_round_trip(n: int)
    requires
        0 <= n < 0x100000000,
    ensures
        be32_val(be32(n)) == n,
{
    let q1 = n / 0x100;
    let q2 = n / 0x10000;
    let q3 = n / 0x1000000;
    lemma_div_pos_is_pos(n, 0x100);
    lemma_div_pos_is_pos(n, 0x10000);
    lemma_div_pos_is_pos(n, 0x1000000);
    lemma_div_denominator(n, 0x100, 0x100);
    lemma_div_denominator(n, 0x10000, 0x100);
    lemma_div_denominator(n, 0x1000000, 0x100);
    assert(q1 / 0x100 == q2);
    assert(q2 / 0x100 == q3);
    assert(n / 0x100000000 == 0) by {
        lemma_fundamental_div_mod(n, 0x100000000);
        vstd::arithmetic::div_mod::lemma_small_mod(n as nat, 0x100000000);
    }
    assert(q3 / 0x100 == 0);
    lemma_fundamental_div_mod(q3, 0x100);
    assert(q3 % 0x100 == q3);
    lemma_fundamental_div_mod(n, 0x100);
    lemma_fundamental_div_mod(q1, 0x100);
    lemma_fundamental_div_mod(q2, 0x100);
    assert(n % 0x100 == n - 0x100 * q1);
    assert(q1 % 0x100 == q1 - 0x100 * q2);
    assert(q2 % 0x100 == q2 - 0x100 * q3);
    assert(be32(n)[0] as int == q3);
    assert(be32(n)[1] as int == q2 - 0x100 * q3);
    assert(be32(n)[2] as int == q1 - 0x100 * q2);
    assert(be32(n)[3] as int == n - 0x100 * q1);
    assert(q3 * 0x1000000 + (q2 - 0x100 * q3) * 0x10000 + (q1 - 0x100 * q2) * 0x100 + (n - 0x100
        * q1) == n) by (nonlinear_arith);
}

/// Framing round-trip: however many extra bytes follow it in the
/// stream, a frame decodes to exactly the payload that was encoded,
/// and consumes exactly its own bytes.
pub proof fn lemma_frame_round_trip(p: Seq<u8>, extra: Seq<u8>)
    requires
        p.len() < 0x100000000,
    ensures
        decode_frame(frame_bytes(p) + extra) == Some((p, extra)),
{
    let n = p.len() as int;
    let b = frame_bytes(p) + extra;
    assert(b.len() == 4 + p.len() + extra.len());
    lemma_be32_round_trip(n);
    assert(b[0] == be32(n)[0]);
    assert(b[1] == be32(n)[1]);
    assert(b[2] == be32(n)[2]);
    assert(b[3] == be32(n)[3]);
    assert(be32_val(b) == n);
    assert(b.subrange(4, 4 + n) =~= p);
    assert(b.subrange(4 + n, b.len() as int) =~= extra);
}

/// Builds the wire bytes of one message: 4-byte big-endian length
/// prefix, then the payload unchanged.
pub fn encode_frame(msg: &[u8]) -> (r: Vec<u8>)
    requires
        msg@.len() < 0x100000000,
    ensures
        r@ == frame_bytes(msg@),
{
    let len: u32 = msg.len() as u32;
    let mut r: Vec<u8> = Vec::new();
    r.push((len / 0x1000000 % 0x100) as u8);
    r.push((len / 0x10000 % 0x100) as u8);
    r.push((len / 0x100 % 0x100) as u8);
    r.push((len % 0x100) as u8);
    assert(r@ =~= be32(msg@.len() as int));
    let mut i: usize = 0;
    while i < msg.len()
        invariant
            i <= msg@.len(),
            r@ == be32(msg@.len() as int) + msg@.subrange(0, i as int),
        decreases msg@.len() - i,
    {
        r.push(msg[i]);
        i = i + 1;
        assert(r@ =~= be32(msg@.len() as int) + msg@.subrange(0, i as int));
    }
    assert(msg@.subrange(0, msg@.len() as int) =~= msg@);
    r
}

/// Incremental decoder for one framed byte stream. Transport chunks of
/// any size are appended with `push_chunk`; `try_frame` removes and
/// returns the next complete payload once it has fully arrived.
pub struct FrameDecoder {
    buf: Vec<u8>,
}

impl FrameDecoder {
    /// The bytes received so far and not yet consumed by a frame.
    pub closed spec fn view(&self) -> Seq<u8> {
        self.buf@
    }

    pub fn new() -> (r: FrameDecoder)
        ensures
            r@ == Seq::<u8>::empty(),
    {
        FrameDecoder { buf: Vec::new() }
    }

    /// Appends one transport chunk, of any size, to the pending bytes.
    pub fn push_chunk(&mut self, chunk: &[u8])
        ensures
            final(self)@ == old(self)@ + chunk@,
    {
        let mut i: usize = 0;
        while i < chunk.len()
            invariant
                i <= chunk@.len(),
                self.buf@ == old(self).buf@ + chunk@.subrange(0, i as int),
            decreases chunk@.len() - i,
        {
            self.buf.push(chunk[i]);
            i = i + 1;
            assert(self.buf@ =~= old(self).buf@ + chunk@.subrange(0, i as int));
        }
        assert(chunk@.subrange(0, chunk@.len() as int) =~= chunk@);
    }

    /// Removes and returns the next complete payload, or returns
    /// nothing (and leaves the pending bytes unchanged) while the
    /// prefix or part of the payload is still missing.
    pub fn try_frame(&mut self) -> (r: Option<Vec<u8>>)
        ensures
            match decode_frame(old(self)@) {
                Some((payload, rest)) => {
                    &&& r is Some
                    &&& r->Some_0@ == payload
                    &&& final(self)@ == rest
                },
                None => {
                    &&& r is None
                    &&& final(self)@ == old(self)@
                },
            },
    {
        if self.buf.len() < 4 {
            return None;
        }
        let b0 = self.buf[0] as u32;
        let b1 = self.buf[1] as u32;
        let b2 = self.buf[2] as u32;
        let b3 = self.buf[3] as u32;
        let len: u32 = b0 * 0x1000000 + b1 * 0x10000 + b2 * 0x100 + b3;
        assert(len as int == be32_val(self.buf@));
        let n = len as usize;
        if self.buf.len() - 4 < n {
            return None;
        }
        let end: usize = 4 + n;
        let mut payload: Vec<u8> = Vec::new();
        let mut i: usize = 4;
        while i < end
            invariant
                4 <= i <= end,
                end == 4 + n,
                end <= self.buf@.len(),
                payload@ == self.buf@.subrange(4, i as int),
            decreases end - i,
        {
            payload.push(self.buf[i]);
            i = i + 1;
            assert(payload@ =~= self.buf@.subrange(4, i as int));
        }
        let mut rest: Vec<u8> = Vec::new();
        let mut j: usize = end;
        while j < self.buf.len()
            invariant
                4 + n <= j <= self.buf@.len(),
                rest@ == self.buf@.subrange(4 + n as int, j as int),
            decreases self.buf@.len() - j,
        {
            rest.push(self.buf[j]);
            j = j + 1;
            assert(rest@ =~= self.buf@.subrange(4 + n as int, j as int));
        }
        assert(rest@ =~= self.buf@.subrange(4 + n as int, self.buf@.len() as int));
        self.buf = rest;
        Some(payload)
    }
}

} // verus!
