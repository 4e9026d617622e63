//! Framing of the byte stream between host and bootloader.
//!
//! A frame is a run of non-zero bytes that a zero byte ends. The receiver
//! collects the bytes of the frame that is under way and hands the frame out
//! when its delimiter arrives; turning frames into commands is left to the
//! caller.

use vstd::prelude::*;
use crate::cobs::{
    decoded, encode_blocks, encoded, lemma_blocks_hold_no_zero, lemma_round_trip,
};

verus! {

/// Capacity of the receive buffer: the longest frame that is accepted.
pub const RX_BUF_SIZE: usize = 2048;

/// Capacity of the transmit buffer.
pub const TX_BUF_SIZE: usize = 2048;

/// What a chunk of received bytes does to the bytes collected so far: the
/// bytes collected afterwards, and the frame that the chunk completed.
///
/// A zero byte ends the frame under way, unless nothing was collected. The
/// rest of the chunk is dropped with it. A byte that finds the buffer full
/// discards what was collected and is itself dropped.
pub open spec fn received(collected: Seq<u8>, chunk: Seq<u8>) -> (Seq<u8>, Option<Seq<u8>>)
    decreases chunk.len(),
{
    if chunk.len() == 0 {
        (collected, None)
    } else if chunk[0] == 0 {
        if collected.len() > 0 {
            (Seq::empty(), Some(collected))
        } else {
            received(collected, chunk.skip(1))
        }
    } else if collected.len() < RX_BUF_SIZE {
        received(collected.push(chunk[0]), chunk.skip(1))
    } else {
        received(Seq::empty(), chunk.skip(1))
    }
}

/// Collects the bytes of the frame that is being received.
pub struct FrameReceiver {
    rx_buf: Vec<u8>,
}

impl View for FrameReceiver {
    type V = Seq<u8>;

    /// The bytes collected so far.
    closed spec fn view(&self) -> Seq<u8> {
        self.rx_buf@
    }
}

impl FrameReceiver {
    /// A receiver that has collected nothing.
    pub fn new() -> (receiver: Self)
        ensures
            receiver@ == Seq::<u8>::empty(),
    {
        FrameReceiver { rx_buf: Vec::new() }
    }

    /// Takes in the bytes that one read of the link returned. Returns the
    /// frame that they completed, without its delimiter.
    pub fn try_receive(&mut self, chunk: &[u8]) -> (frame: Option<Vec<u8>>)
        ensures
            final(self)@ == received(old(self)@, chunk@).0,
            match frame {
                Some(bytes) => received(old(self)@, chunk@).1 == Some(bytes@),
                None => received(old(self)@, chunk@).1 is None,
            },
    {
        let mut i: usize = 0;
        assert(chunk@.skip(0) =~= chunk@);
        while i < chunk.len()
            invariant
                i <= chunk@.len(),
                received(old(self)@, chunk@) == received(self@, chunk@.skip(i as int)),
            decreases chunk@.len() - i,
        {
            let byte: u8 = chunk[i];
            proof {
                assert(chunk@.skip(i as int)[0] == byte);
                assert(chunk@.skip(i as int).skip(1) =~= chunk@.skip(i + 1));
            }
            if byte == 0x00 {
                // delimiter: hand out the accumulated frame
                if self.rx_buf.len() > 0 {
                    let mut frame: Vec<u8> = Vec::new();
                    frame.append(&mut self.rx_buf);
                    return Some(frame);
                }
            } else if self.rx_buf.len() < RX_BUF_SIZE {
                self.rx_buf.push(byte);
            } else {
                // Overflow: discard frame
                self.rx_buf.clear();
            }
            i += 1;
        }
        None
    }
}

// --- Laws ---

/// A frame that fits the buffer is handed out whole when its delimiter
/// arrives, whatever of it was collected before: `collected` and `rest` hold
/// no zero byte and together no more than the buffer takes.
pub proof fn lemma_frame_is_received(collected: Seq<u8>, rest: Seq<u8>, after: Seq<u8>)
    requires
        0 < collected.len() + rest.len() <= RX_BUF_SIZE,
        forall|j: int| 0 <= j < rest.len() ==> rest[j] != 0,
    ensures
        received(collected, rest + seq![0u8] + after) == (
            Seq::<u8>::empty(),
            Some(collected + rest),
        ),
    decreases rest.len(),
{
    let chunk = rest + seq![0u8] + after;
    if rest.len() == 0 {
        assert(chunk[0] == 0);
        assert(collected + rest =~= collected);
    } else {
        assert(chunk[0] == rest[0]);
        assert(chunk.skip(1) =~= rest.skip(1) + seq![0u8] + after);
        lemma_frame_is_received(collected.push(rest[0]), rest.skip(1), after);
        assert(collected.push(rest[0]) + rest.skip(1) =~= collected + rest);
    }
}

/// A payload whose frame fits the buffer arrives: a receiver that has
/// collected nothing and takes in the encoded frame hands out the blocks of
/// the payload, which decode to the payload.
pub proof fn lemma_payload_arrives(data: Seq<u8>)
    requires
        encode_blocks(data).len() <= RX_BUF_SIZE,
    ensures
        received(Seq::empty(), encoded(data)) == (Seq::<u8>::empty(), Some(encode_blocks(data))),
        decoded(encode_blocks(data)) == Some(data),
{
    lemma_blocks_hold_no_zero(data);
    lemma_round_trip(data);
    lemma_frame_is_received(Seq::empty(), encode_blocks(data), Seq::empty());
    assert(encode_blocks(data) + seq![0u8] + Seq::<u8>::empty() =~= encoded(data));
    assert(Seq::<u8>::empty() + encode_blocks(data) =~= encode_blocks(data));
}

// --- Sending ---

/// What the link made of an attempt to write the rest of a frame.
#[derive(Clone, Copy, Debug, PartialEq, Eq, Structural)]
pub enum WriteOutcome {
    /// This many bytes were taken.
    Written(usize),
    /// The link can take nothing at the moment.
    WouldBlock,
    /// The link failed.
    Failed,
}

/// What the sender of a frame does next.
#[derive(Clone, Copy, Debug, PartialEq, Eq, Structural)]
pub enum SendStep {
    /// Write the frame from `offset` on.
    Write { offset: usize },
    /// Poll the device, then write the frame from `offset` on.
    PollAndWrite { offset: usize },
    /// Stop: the frame is out, or the link failed.
    Done,
}

/// The next step of sending a frame of `len` bytes, of which `offset` were
/// written before the attempt that ended in `outcome`.
pub open spec fn send_step(len: usize, offset: usize, outcome: WriteOutcome) -> SendStep {
    if offset >= len {
        SendStep::Done
    } else {
        match outcome {
            WriteOutcome::Written(n) => if offset + n < len {
                SendStep::Write { offset: (offset + n) as usize }
            } else {
                SendStep::Done
            },
            WriteOutcome::WouldBlock => SendStep::PollAndWrite { offset },
            WriteOutcome::Failed => SendStep::Done,
        }
    }
}

/// Decides how the sending of a frame goes on after one attempt to write:
/// on with the rest while bytes are left, once more after a poll if the link
/// would block, and no further if the link failed. Sending never waits.
pub fn after_write(len: usize, offset: usize, outcome: WriteOutcome) -> (step: SendStep)
    ensures
        step == send_step(len, offset, outcome),
{
    if offset >= len {
        return SendStep::Done;
    }
    match outcome {
        WriteOutcome::Written(n) => {
            if n < len - offset {
                SendStep::Write { offset: offset + n }
            } else {
                SendStep::Done
            }
        },
        WriteOutcome::WouldBlock => SendStep::PollAndWrite { offset },
        WriteOutcome::Failed => SendStep::Done,
    }
}

} // verus!
