//! Frames on the serial link: a bounded accumulator of received bytes that
//! hands out whole frames, and the frames of operations and responses.
use crate::framing::{first_zero, frame, framed, lemma_unstuff_stuffed, stuffed, unstuff, unstuffed, zero_free, TERMINATOR};
use crate::protocol::{
    decode_op, decode_resp, encode_op, encode_resp, entries_fit, lemma_op_round_trip,
    lemma_resp_round_trip, op_payload, op_payload_valid, resp_payload, resp_payload_valid, same_op,
    Op, Resp,
};
use arrayvec::ArrayVec;
use vstd::prelude::*;

verus! {

/// Capacity of the receive and send buffers, in bytes.
pub const BUF_SIZE: usize = 128;

/// A fixed-capacity byte buffer.
pub type ByteBuf = ArrayVec<u8, 128>;

/// The bytes a buffer holds, in order.
pub uninterp spec fn buffered(b: ArrayVec<u8, 128>) -> Seq<u8>;

/// Relies on `ArrayVec::new`: an empty buffer.
#[verifier::external_body]
fn buf_new() -> (r: ByteBuf)
    ensures
        buffered(r) == Seq::<u8>::empty(),
{
    ArrayVec::new()
}

/// Relies on `ArrayVec::len`: the number of bytes held, at most the capacity.
#[verifier::external_body]
fn buf_len(b: &ByteBuf) -> (r: usize)
    ensures
        r == buffered(*b).len(),
        r <= BUF_SIZE,
{
    b.len()
}

/// Relies on `ArrayVec::push`: appends a byte; it panics only when full.
#[verifier::external_body]
fn buf_push(b: &mut ByteBuf, x: u8)
    requires
        buffered(*old(b)).len() < BUF_SIZE,
    ensures
        buffered(*final(b)) == buffered(*old(b)).push(x),
{
    b.push(x)
}

/// Relies on `ArrayVec::as_slice`: the bytes held, in order.
#[verifier::external_body]
fn buf_as_slice(b: &ByteBuf) -> (r: &[u8])
    ensures
        r@ == buffered(*b),
{
    b.as_slice()
}

/// A buffer holding `s[from..to]`.
fn buf_from(s: &[u8], from: usize, to: usize) -> (r: ByteBuf)
    requires
        from <= to <= s@.len(),
        to - from <= BUF_SIZE,
    ensures
        buffered(r) == s@.subrange(from as int, to as int),
{
    let mut out = buf_new();
    let mut i = from;
    while i < to
        invariant
            from <= i <= to <= s@.len(),
            to - from <= BUF_SIZE,
            buffered(out) == s@.subrange(from as int, i as int),
        decreases to - i,
    {
        buf_push(&mut out, s[i]);
        i += 1;
        proof {
            assert(buffered(out) =~= s@.subrange(from as int, i as int));
        }
    }
    out
}

/// Why a received frame was dropped.
#[derive(Clone, Copy, Debug, PartialEq, Eq, Structural)]
pub enum FrameError {
    /// The accumulator filled up before a terminator came.
    Overflow,
    /// The frame's stuffing or contents are malformed.
    Corrupt,
}

/// Received bytes that do not yet make up a whole frame.
pub struct FrameReader {
    buf: ByteBuf,
}

impl FrameReader {
    pub closed spec fn pending(&self) -> Seq<u8> {
        buffered(self.buf)
    }

    pub open spec fn wf(&self) -> bool {
        self.pending().len() <= BUF_SIZE
    }

    pub fn new() -> (r: FrameReader)
        ensures
            r.pending() == Seq::<u8>::empty(),
            r.wf(),
    {
        FrameReader { buf: buf_new() }
    }

    /// Room left in the accumulator.
    pub fn remaining(&self) -> (r: usize)
        requires
            self.wf(),
        ensures
            r == BUF_SIZE - self.pending().len(),
    {
        BUF_SIZE - buf_len(&self.buf)
    }

    /// Takes as many of `bytes` as there is room for, and returns how many.
    pub fn feed(&mut self, bytes: &[u8]) -> (r: usize)
        requires
            old(self).wf(),
        ensures
            final(self).wf(),
            r == if bytes@.len() < BUF_SIZE - old(self).pending().len() {
                bytes@.len() as int
            } else {
                BUF_SIZE - old(self).pending().len()
            },
            final(self).pending() == old(self).pending() + bytes@.subrange(0, r as int),
    {
        let room = BUF_SIZE - buf_len(&self.buf);
        let take = if bytes.len() < room { bytes.len() } else { room };
        let mut i: usize = 0;
        while i < take
            invariant
                i <= take <= bytes@.len(),
                old(self).pending().len() + take <= BUF_SIZE,
                buffered(self.buf) == old(self).pending() + bytes@.subrange(0, i as int),
            decreases take - i,
        {
            buf_push(&mut self.buf, bytes[i]);
            i += 1;
            proof {
                assert(buffered(self.buf) =~= old(self).pending() + bytes@.subrange(0, i as int));
            }
        }
        take
    }

    /// Removes the first whole frame and returns its payload. `None` while
    /// no terminator has come and there is room; when the accumulator is
    /// full without one, its bytes are dropped as an overflow. A frame whose
    /// stuffing is malformed is dropped as corrupt.
    pub fn read_frame(&mut self) -> (r: Option<Result<Vec<u8>, FrameError>>)
        requires
            old(self).wf(),
        ensures
            final(self).wf(),
            ({
                let p = old(self).pending();
                let k = first_zero(p);
                if k >= p.len() {
                    if p.len() >= BUF_SIZE {
                        r == Some(Err::<Vec<u8>, FrameError>(FrameError::Overflow))
                            && final(self).pending() == Seq::<u8>::empty()
                    } else {
                        r.is_none() && final(self).pending() == p
                    }
                } else {
                    &&& final(self).pending() == p.subrange(k + 1, p.len() as int)
                    &&& match unstuffed(p.subrange(0, k)) {
                        None => r == Some(Err::<Vec<u8>, FrameError>(FrameError::Corrupt)),
                        Some(payload) => r matches Some(Ok(v)) && v@ == payload,
                    }
                }
            }),
    {
        let bytes = buf_as_slice(&self.buf);
        let n = bytes.len();
        let mut k: usize = 0;
        while k < n && bytes[k] != TERMINATOR
            invariant
                k <= n == bytes@.len(),
                bytes@ == old(self).pending(),
                zero_free(bytes@.subrange(0, k as int)),
            decreases n - k,
        {
            proof {
                assert forall|i: int| 0 <= i < k + 1 implies #[trigger] bytes@.subrange(0, k + 1)[i]
                    != 0 by {
                    if i < k {
                        assert(bytes@.subrange(0, k + 1)[i] == bytes@.subrange(0, k as int)[i]);
                    }
                }
            }
            k += 1;
        }
        proof {
            crate::framing::lemma_first_zero_at(bytes@, k as int);
        }
        if k == n {
            if n >= BUF_SIZE {
                self.buf = buf_new();
                return Some(Err(FrameError::Overflow));
            }
            return None;
        }
        let body = slice_of(bytes, 0, k);
        let rest = buf_from(bytes, k + 1, n);
        self.buf = rest;
        match unstuff(body.as_slice()) {
            None => Some(Err(FrameError::Corrupt)),
            Some(payload) => Some(Ok(payload)),
        }
    }

    /// Removes the first whole frame and decodes the operation it carries.
    pub fn read_op(&mut self) -> (r: Option<Result<Op, FrameError>>)
        requires
            old(self).wf(),
        ensures
            final(self).wf(),
            ({
                let p = old(self).pending();
                let k = first_zero(p);
                if k >= p.len() {
                    if p.len() >= BUF_SIZE {
                        r == Some(Err::<Op, FrameError>(FrameError::Overflow))
                            && final(self).pending() == Seq::<u8>::empty()
                    } else {
                        r.is_none() && final(self).pending() == p
                    }
                } else {
                    &&& final(self).pending() == p.subrange(k + 1, p.len() as int)
                    &&& match unstuffed(p.subrange(0, k)) {
                        Some(payload) => if op_payload_valid(payload) {
                            r matches Some(Ok(op)) && op_payload(op) == payload
                        } else {
                            r == Some(Err::<Op, FrameError>(FrameError::Corrupt))
                        },
                        None => r == Some(Err::<Op, FrameError>(FrameError::Corrupt)),
                    }
                }
            }),
    {
        match self.read_frame() {
            None => None,
            Some(Err(e)) => Some(Err(e)),
            Some(Ok(payload)) => match decode_op(payload.as_slice()) {
                Some(op) => Some(Ok(op)),
                None => Some(Err(FrameError::Corrupt)),
            },
        }
    }

    /// Removes the first whole frame and decodes the response it carries.
    pub fn read_resp(&mut self) -> (r: Option<Result<Resp, FrameError>>)
        requires
            old(self).wf(),
        ensures
            final(self).wf(),
            ({
                let p = old(self).pending();
                let k = first_zero(p);
                if k >= p.len() {
                    if p.len() >= BUF_SIZE {
                        r == Some(Err::<Resp, FrameError>(FrameError::Overflow))
                            && final(self).pending() == Seq::<u8>::empty()
                    } else {
                        r.is_none() && final(self).pending() == p
                    }
                } else {
                    &&& final(self).pending() == p.subrange(k + 1, p.len() as int)
                    &&& match unstuffed(p.subrange(0, k)) {
                        Some(payload) => if resp_payload_valid(payload) {
                            r matches Some(Ok(resp)) && resp_payload(resp) == payload
                        } else {
                            r == Some(Err::<Resp, FrameError>(FrameError::Corrupt))
                        },
                        None => r == Some(Err::<Resp, FrameError>(FrameError::Corrupt)),
                    }
                }
            }),
    {
        match self.read_frame() {
            None => None,
            Some(Err(e)) => Some(Err(e)),
            Some(Ok(payload)) => match decode_resp(payload.as_slice()) {
                Some(resp) => Some(Ok(resp)),
                None => Some(Err(FrameError::Corrupt)),
            },
        }
    }
}

/// Framed responses waiting to go out, at most [`BUF_SIZE`] bytes.
pub struct FrameWriter {
    buf: ByteBuf,
}

impl FrameWriter {
    pub closed spec fn pending(&self) -> Seq<u8> {
        buffered(self.buf)
    }

    pub open spec fn wf(&self) -> bool {
        self.pending().len() <= BUF_SIZE
    }

    pub fn new() -> (r: FrameWriter)
        ensures
            r.pending() == Seq::<u8>::empty(),
            r.wf(),
    {
        FrameWriter { buf: buf_new() }
    }

    /// Queues the frame of a response, or hands the response back, queueing
    /// nothing, when the frame does not fit.
    pub fn send(&mut self, resp: Resp) -> (r: Result<(), Resp>)
        requires
            old(self).wf(),
        ensures
            final(self).wf(),
            old(self).pending().len() + framed(resp_payload(resp)).len() <= BUF_SIZE ==> r is Ok
                && final(self).pending() == old(self).pending() + framed(resp_payload(resp)),
            old(self).pending().len() + framed(resp_payload(resp)).len() > BUF_SIZE ==> r == Err::<
                (),
                Resp,
            >(resp) && final(self).pending() == old(self).pending(),
    {
        let f = resp_frame(&resp);
        if f.len() > BUF_SIZE - buf_len(&self.buf) {
            return Err(resp);
        }
        let n = f.len();
        let mut i: usize = 0;
        while i < n
            invariant
                n == f@.len(),
                i <= n,
                old(self).pending().len() + n <= BUF_SIZE,
                buffered(self.buf) == old(self).pending() + f@.subrange(0, i as int),
            decreases n - i,
        {
            buf_push(&mut self.buf, f[i]);
            i += 1;
            proof {
                assert(buffered(self.buf) =~= old(self).pending() + f@.subrange(0, i as int));
            }
        }
        proof {
            assert(f@.subrange(0, n as int) =~= f@);
        }
        Ok(())
    }

    /// The bytes waiting to go out.
    pub fn bytes(&self) -> (r: &[u8])
        ensures
            r@ == self.pending(),
    {
        buf_as_slice(&self.buf)
    }

    /// Drops the first `n` bytes, which have been written out.
    pub fn consume(&mut self, n: usize)
        requires
            old(self).wf(),
            n <= old(self).pending().len(),
        ensures
            final(self).wf(),
            final(self).pending() == old(self).pending().subrange(n as int, old(self).pending().len() as int),
    {
        let bytes = buf_as_slice(&self.buf);
        let len = bytes.len();
        self.buf = buf_from(bytes, n, len);
    }

    /// Drops every waiting byte.
    pub fn clear(&mut self)
        ensures
            final(self).pending() == Seq::<u8>::empty(),
            final(self).wf(),
    {
        self.buf = buf_new();
    }
}

/// Most times an operation is sent before a full queue is given up on.
pub const MAX_SEND_ATTEMPTS: u32 = 120;

/// What a sender does with the reply to an operation.
#[derive(Clone, Copy, Debug, PartialEq, Eq, Structural)]
pub enum ReplyAction {
    /// The operation was taken; here is the reply.
    Done(Resp),
    /// The queue was full: wait, then send the operation again.
    Retry,
    /// The queue stayed full for every allowed attempt.
    GaveUp,
    /// The operation was refused.
    Refused,
}

/// The sender's decision on the reply to its `attempt`-th sending (counted
/// from one): QueueFull is retried until [`MAX_SEND_ATTEMPTS`] sendings have
/// been made, Nack is refused, anything else ends the exchange.
pub fn reply_action(resp: Resp, attempt: u32) -> (r: ReplyAction)
    ensures
        resp == Resp::QueueFull && attempt < MAX_SEND_ATTEMPTS ==> r == ReplyAction::Retry,
        resp == Resp::QueueFull && attempt >= MAX_SEND_ATTEMPTS ==> r == ReplyAction::GaveUp,
        resp == Resp::Nack ==> r == ReplyAction::Refused,
        resp != Resp::QueueFull && resp != Resp::Nack ==> r == ReplyAction::Done(resp),
{
    match resp {
        Resp::QueueFull => if attempt < MAX_SEND_ATTEMPTS {
            ReplyAction::Retry
        } else {
            ReplyAction::GaveUp
        },
        Resp::Nack => ReplyAction::Refused,
        other => ReplyAction::Done(other),
    }
}

/// A copy of `v[from..to]`.
fn slice_of(v: &[u8], from: usize, to: usize) -> (r: Vec<u8>)
    requires
        from <= to <= v@.len(),
    ensures
        r@ == v@.subrange(from as int, to as int),
{
    let mut out: Vec<u8> = Vec::new();
    let mut i = from;
    while i < to
        invariant
            from <= i <= to <= v@.len(),
            out@ == v@.subrange(from as int, i as int),
        decreases to - i,
    {
        out.push(v[i]);
        i += 1;
        proof {
            assert(out@ =~= v@.subrange(from as int, i as int));
        }
    }
    out
}

/// The frame that carries an operation.
pub fn op_frame(op: &Op) -> (r: Vec<u8>)
    requires
        entries_fit(*op),
    ensures
        r@ == framed(op_payload(*op)),
{
    let p = encode_op(op);
    proof {
        crate::protocol::lemma_op_payload_len(*op);
    }
    frame(p.as_slice())
}

/// The frame that carries a response.
pub fn resp_frame(resp: &Resp) -> (r: Vec<u8>)
    ensures
        r@ == framed(resp_payload(*resp)),
{
    let p = encode_resp(resp);
    proof {
        crate::protocol::lemma_resp_payload_len(*resp);
    }
    frame(p.as_slice())
}

/// An operation's frame ends with the terminator and holds no other zero,
/// and reading it back gives the same operation, tables of up to sixteen
/// entries included.
pub proof fn lemma_op_frame_round_trip(a: Op)
    requires
        entries_fit(a),
    ensures
        ({
            let f = framed(op_payload(a));
            &&& f.last() == TERMINATOR
            &&& first_zero(f) == f.len() - 1
            &&& unstuffed(f.subrange(0, f.len() - 1)) == Some(op_payload(a))
            &&& op_payload_valid(op_payload(a))
            &&& forall|b: Op| #[trigger] op_payload(b) == op_payload(a) ==> same_op(a, b)
        }),
{
    let p = op_payload(a);
    crate::protocol::lemma_op_payload_len(a);
    lemma_unstuff_stuffed(p);
    let f = framed(p);
    assert(f.subrange(0, f.len() - 1) =~= stuffed(p));
    crate::framing::lemma_first_zero_at(f, f.len() - 1);
    lemma_op_round_trip(a, a);
    assert forall|b: Op| #[trigger] op_payload(b) == op_payload(a) implies same_op(a, b) by {
        lemma_op_round_trip(a, b);
    }
}

/// A response's frame ends with the terminator and holds no other zero,
/// and reading it back gives the same response.
pub proof fn lemma_resp_frame_round_trip(a: Resp)
    ensures
        ({
            let f = framed(resp_payload(a));
            &&& f.last() == TERMINATOR
            &&& first_zero(f) == f.len() - 1
            &&& unstuffed(f.subrange(0, f.len() - 1)) == Some(resp_payload(a))
            &&& resp_payload_valid(resp_payload(a))
            &&& forall|b: Resp| #[trigger] resp_payload(b) == resp_payload(a) ==> a == b
        }),
{
    let p = resp_payload(a);
    crate::protocol::lemma_resp_payload_len(a);
    lemma_unstuff_stuffed(p);
    let f = framed(p);
    assert(f.subrange(0, f.len() - 1) =~= stuffed(p));
    crate::framing::lemma_first_zero_at(f, f.len() - 1);
    lemma_resp_round_trip(a, a);
    assert forall|b: Resp| #[trigger] resp_payload(b) == resp_payload(a) implies a == b by {
        lemma_resp_round_trip(a, b);
    }
}

} // verus!
