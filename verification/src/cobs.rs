//! COBS (Consistent Overhead Byte Stuffing) encoder/decoder.
//!
//! COBS removes every zero byte from a payload, so that a single zero byte
//! can delimit frames. The payload is cut into blocks: each block starts with
//! a code byte, one more than the number of data bytes that follow it. A code
//! below 255 stands for its data bytes and the zero that followed them in the
//! payload; the code 255 stands for 254 data bytes and no zero.

use vstd::prelude::*;
use crate::bounded::HeaplessVec;

verus! {

/// The most data bytes that one block carries.
pub const MAX_BLOCK_LEN: usize = 254;

// --- Model ---

/// Number of non-zero bytes at the start of `data`.
pub open spec fn run_length(data: Seq<u8>) -> nat
    decreases data.len(),
{
    if data.len() == 0 || data[0] == 0 {
        0
    } else {
        1 + run_length(data.skip(1))
    }
}

/// The blocks that encode `data`, without the closing delimiter.
pub open spec fn encode_blocks(data: Seq<u8>) -> Seq<u8>
    decreases data.len(),
{
    let run = run_length(data);
    if run >= MAX_BLOCK_LEN && data.len() >= MAX_BLOCK_LEN {
        // a full block: 254 data bytes, no zero implied
        seq![255u8] + data.take(MAX_BLOCK_LEN as int) + encode_blocks(data.skip(MAX_BLOCK_LEN as int))
    } else if run >= data.len() {
        // the last block: what is left holds no zero
        seq![(data.len() + 1) as u8] + data
    } else {
        // a block that ends at a zero of the payload
        seq![(run + 1) as u8] + data.take(run as int) + encode_blocks(data.skip(run + 1 as int))
    }
}

/// The frame that encodes `data`: its blocks and the delimiter.
pub open spec fn encoded(data: Seq<u8>) -> Seq<u8> {
    encode_blocks(data) + seq![0u8]
}

/// What the blocks of `frame` from index `i` on decode to: `None` if a block
/// announces more bytes than the frame holds. A delimiter, or the end of the
/// frame, ends the payload.
pub open spec fn decode_from(frame: Seq<u8>, i: int) -> Option<Seq<u8>>
    decreases frame.len() - i,
{
    if i < 0 || i >= frame.len() || frame[i] == 0 {
        Some(Seq::empty())
    } else {
        let end = i + frame[i];
        if end > frame.len() {
            None
        } else {
            match decode_from(frame, end) {
                None => None,
                Some(rest) => Some(frame.subrange(i + 1, end) + implied_zero(frame, i) + rest),
            }
        }
    }
}

/// The zero that the block at index `i` of `frame` implies: one zero, unless
/// the block is full or the payload ends after it.
pub open spec fn implied_zero(frame: Seq<u8>, i: int) -> Seq<u8> {
    let end = i + frame[i];
    if frame[i] < 255 && end < frame.len() && frame[end] != 0 {
        seq![0u8]
    } else {
        Seq::empty()
    }
}

/// The payload of `frame`; `None` for an empty frame and for one whose last
/// block is cut short.
pub open spec fn decoded(frame: Seq<u8>) -> Option<Seq<u8>> {
    if frame.len() == 0 {
        None
    } else {
        decode_from(frame, 0)
    }
}

// --- Lemmas ---

/// The run at the start of `data` lies inside `data`, holds no zero, and ends
/// at a zero or at the end of `data`.
pub proof fn lemma_run_length(data: Seq<u8>)
    ensures
        run_length(data) <= data.len(),
        forall|j: int| 0 <= j < run_length(data) ==> data[j] != 0,
        run_length(data) < data.len() ==> data[run_length(data) as int] == 0,
    decreases data.len(),
{
    if data.len() == 0 || data[0] == 0 {
    } else {
        let tail = data.skip(1);
        lemma_run_length(tail);
        assert forall|j: int| 0 <= j < run_length(data) implies data[j] != 0 by {
            if j > 0 {
                assert(tail[j - 1] == data[j]);
            }
        }
        if run_length(data) < data.len() {
            assert(tail[run_length(tail) as int] == data[run_length(data) as int]);
        }
    }
}

/// A stretch of `n` non-zero bytes at the start of `data` is part of the run,
/// and is the run if a zero or the end of `data` follows it.
pub proof fn lemma_run_length_of_prefix(data: Seq<u8>, n: nat)
    requires
        n <= data.len(),
        forall|j: int| 0 <= j < n ==> data[j] != 0,
    ensures
        run_length(data) >= n,
        (n == data.len() || data[n as int] == 0) ==> run_length(data) == n,
    decreases n,
{
    if n == 0 {
    } else {
        let tail = data.skip(1);
        assert forall|j: int| 0 <= j < n - 1 implies tail[j] != 0 by {
            assert(tail[j] == data[j + 1]);
        }
        if n < data.len() {
            assert(tail[n - 1] == data[n as int]);
        }
        lemma_run_length_of_prefix(tail, (n - 1) as nat);
    }
}

/// The blocks of a payload hold no zero byte, and there is at least one.
pub proof fn lemma_blocks_hold_no_zero(data: Seq<u8>)
    ensures
        encode_blocks(data).len() >= 1,
        forall|j: int| 0 <= j < encode_blocks(data).len() ==> encode_blocks(data)[j] != 0,
    decreases data.len(),
{
    lemma_run_length(data);
    let run = run_length(data);
    let blocks = encode_blocks(data);
    if run >= MAX_BLOCK_LEN && data.len() >= MAX_BLOCK_LEN {
        let rest = data.skip(MAX_BLOCK_LEN as int);
        lemma_blocks_hold_no_zero(rest);
        assert forall|j: int| 0 <= j < blocks.len() implies blocks[j] != 0 by {
            if 1 <= j <= MAX_BLOCK_LEN {
                assert(blocks[j] == data[j - 1]);
            } else if j > MAX_BLOCK_LEN {
                assert(blocks[j] == encode_blocks(rest)[j - 1 - MAX_BLOCK_LEN]);
            }
        }
    } else if run >= data.len() {
        assert forall|j: int| 0 <= j < blocks.len() implies blocks[j] != 0 by {
            if j >= 1 {
                assert(blocks[j] == data[j - 1]);
            }
        }
    } else {
        let rest = data.skip(run + 1 as int);
        lemma_blocks_hold_no_zero(rest);
        assert forall|j: int| 0 <= j < blocks.len() implies blocks[j] != 0 by {
            if 1 <= j <= run {
                assert(blocks[j] == data[j - 1]);
            } else if j > run {
                assert(blocks[j] == encode_blocks(rest)[j - 1 - run]);
            }
        }
    }
}

/// What decoding makes of one block: in a frame where the code byte `code`
/// and the `code - 1` bytes of `block` stand behind `before`, and what stands
/// behind them decodes to `rest`, decoding from the code byte yields the
/// block, the zero it implies, and `rest`.
proof fn lemma_decode_block(
    before: Seq<u8>,
    code: u8,
    block: Seq<u8>,
    behind: Seq<u8>,
    rest: Seq<u8>,
)
    requires
        code >= 1,
        block.len() == code - 1,
        decode_from(before + seq![code] + block + behind, before.len() + code) == Some(rest),
    ensures
        decode_from(before + seq![code] + block + behind, before.len() as int) == Some(
            block + (if code < 255 && behind.len() > 0 && behind[0] != 0 {
                seq![0u8]
            } else {
                Seq::<u8>::empty()
            }) + rest,
        ),
{
    let frame = before + seq![code] + block + behind;
    let i = before.len() as int;
    assert(frame[i] == code);
    assert(frame.subrange(i + 1, i + code) =~= block);
    if behind.len() > 0 {
        assert(frame[i + code] == behind[0]);
    }
}

/// The first block of the blocks of `data`: its code byte, the bytes it
/// carries, whether a zero of the payload ends it, and what is left of the
/// payload behind it.
proof fn lemma_first_block(data: Seq<u8>) -> (parts: (u8, Seq<u8>, bool, Seq<u8>))
    ensures
        ({
            let (code, block, zero, left) = parts;
            &&& code >= 1
            &&& block.len() == code - 1
            &&& forall|j: int| 0 <= j < block.len() ==> block[j] != 0
            &&& zero ==> code < 255
            &&& data == block + (if zero {
                seq![0u8]
            } else {
                Seq::<u8>::empty()
            }) + left
            &&& if !zero && code < 255 {
                left.len() == 0 && encode_blocks(data) == seq![code] + block
            } else {
                left.len() < data.len() && encode_blocks(data) == seq![code] + block
                    + encode_blocks(left)
            }
        }),
{
    lemma_run_length(data);
    let run = run_length(data);
    if run >= MAX_BLOCK_LEN && data.len() >= MAX_BLOCK_LEN {
        let block = data.take(MAX_BLOCK_LEN as int);
        let left = data.skip(MAX_BLOCK_LEN as int);
        assert(block + Seq::<u8>::empty() + left =~= data);
        (255u8, block, false, left)
    } else if run >= data.len() {
        assert(data + Seq::<u8>::empty() + Seq::<u8>::empty() =~= data);
        ((data.len() + 1) as u8, data, false, Seq::empty())
    } else {
        let block = data.take(run as int);
        let left = data.skip(run + 1 as int);
        assert(block + seq![0u8] + left =~= data);
        ((run + 1) as u8, block, true, left)
    }
}

/// Decoding a frame from the place where the blocks of `data` start yields
/// `data`, whatever stands before the blocks, if a delimiter or the end of the
/// frame follows them.
pub proof fn lemma_decode_blocks(before: Seq<u8>, data: Seq<u8>, after: Seq<u8>)
    requires
        after.len() == 0 || after[0] == 0,
    ensures
        decode_from(before + encode_blocks(data) + after, before.len() as int) == Some(data),
    decreases data.len(),
{
    let (code, block, zero, left) = lemma_first_block(data);
    let frame = before + encode_blocks(data) + after;
    let start = before + seq![code] + block;
    if !zero && code < 255 {
        // the last block: the delimiter, or the end of the frame, follows
        assert(frame =~= start + after);
        assert(decode_from(start + after, start.len() as int) == Some(Seq::<u8>::empty()));
        lemma_decode_block(before, code, block, after, Seq::empty());
        assert(block + Seq::<u8>::empty() + Seq::<u8>::empty() =~= data);
    } else {
        // another block follows, and starts with a code byte
        let behind = encode_blocks(left) + after;
        lemma_decode_blocks(start, left, after);
        lemma_blocks_hold_no_zero(left);
        assert(frame =~= start + behind);
        assert(start + encode_blocks(left) + after =~= start + behind);
        assert(behind[0] == encode_blocks(left)[0]);
        lemma_decode_block(before, code, block, behind, left);
    }
}

/// Round trip: the frame that encodes a payload decodes to that payload,
/// with its delimiter and without it, and holds no zero byte but the
/// delimiter that ends it.
pub proof fn lemma_round_trip(data: Seq<u8>)
    ensures
        decoded(encoded(data)) == Some(data),
        decoded(encode_blocks(data)) == Some(data),
        encoded(data).last() == 0,
        forall|j: int| 0 <= j < encoded(data).len() - 1 ==> encoded(data)[j] != 0,
{
    lemma_blocks_hold_no_zero(data);
    lemma_decode_blocks(Seq::empty(), data, seq![0u8]);
    lemma_decode_blocks(Seq::empty(), data, Seq::empty());
    assert(Seq::<u8>::empty() + encode_blocks(data) + seq![0u8] =~= encoded(data));
    assert(Seq::<u8>::empty() + encode_blocks(data) + Seq::<u8>::empty() =~= encode_blocks(data));
    assert forall|j: int| 0 <= j < encoded(data).len() - 1 implies encoded(data)[j] != 0 by {
        assert(encoded(data)[j] == encode_blocks(data)[j]);
    }
}

// --- Encoder ---

/// What the encoder has written after `consumed` bytes of `data`: the blocks
/// that are closed, then the open block, which started at `start` of `data`
/// and whose code byte at `code_idx` is still to be filled in.
pub open spec fn encoder_state(
    data: Seq<u8>,
    output: Seq<u8>,
    consumed: int,
    start: int,
    code_idx: int,
    code: int,
) -> bool {
    &&& 0 <= start <= consumed <= data.len()
    &&& code == consumed - start + 1
    &&& 1 <= code <= MAX_BLOCK_LEN
    &&& forall|j: int| start <= j < consumed ==> data[j] != 0
    &&& 0 <= code_idx
    &&& output.len() == code_idx + code
    &&& output.subrange(code_idx + 1, output.len() as int) == data.subrange(start, consumed)
    &&& output.take(code_idx) + encode_blocks(data.skip(start)) == encode_blocks(data)
}

/// Closing the open block at a zero of the payload, or when it is full,
/// leaves the encoder with an empty open block behind the blocks so far.
proof fn lemma_close_block(
    data: Seq<u8>,
    output: Seq<u8>,
    consumed: int,
    start: int,
    code_idx: int,
    code: int,
)
    requires
        encoder_state(data, output, consumed, start, code_idx, code),
        consumed < data.len(),
        data[consumed] == 0 || code == MAX_BLOCK_LEN,
    ensures
        data[consumed] == 0 ==> encoder_state(
            data,
            output.update(code_idx, code as u8).push(0),
            consumed + 1,
            consumed + 1,
            output.len() as int,
            1,
        ),
        data[consumed] != 0 ==> encoder_state(
            data,
            output.push(data[consumed]).update(code_idx, 255u8).push(0),
            consumed + 1,
            consumed + 1,
            output.len() + 1 as int,
            1,
        ),
{
    let open = data.skip(start);
    let block = data.subrange(start, consumed);
    assert forall|j: int| 0 <= j < consumed - start implies open[j] != 0 by {
        assert(open[j] == data[start + j]);
    }
    if data[consumed] == 0 {
        assert(open[consumed - start] == 0);
        lemma_run_length_of_prefix(open, (consumed - start) as nat);
        assert(open.take(consumed - start) =~= block);
        assert(open.skip(consumed - start + 1) =~= data.skip(consumed + 1));
        let closed = output.update(code_idx, code as u8);
        let next = closed.push(0);
        assert(closed =~= output.take(code_idx) + seq![code as u8] + block);
        assert(next.take(output.len() as int) =~= closed);
        assert(next.subrange(output.len() + 1 as int, next.len() as int) =~= data.subrange(
            consumed + 1,
            consumed + 1,
        ));
        assert(closed + encode_blocks(data.skip(consumed + 1)) =~= output.take(code_idx) + (seq![
            code as u8,
        ] + block + encode_blocks(data.skip(consumed + 1))));
    } else {
        assert(open[consumed - start] == data[consumed]);
        assert forall|j: int| 0 <= j < MAX_BLOCK_LEN implies open[j] != 0 by {
            assert(open[j] == data[start + j]);
        }
        lemma_run_length_of_prefix(open, MAX_BLOCK_LEN as nat);
        let full = data.subrange(start, consumed + 1);
        assert(open.take(MAX_BLOCK_LEN as int) =~= full);
        assert(open.skip(MAX_BLOCK_LEN as int) =~= data.skip(consumed + 1));
        let closed = output.push(data[consumed]).update(code_idx, 255u8);
        let next = closed.push(0);
        assert(closed =~= output.take(code_idx) + seq![255u8] + full);
        assert(next.take(output.len() + 1 as int) =~= closed);
        assert(next.subrange(output.len() + 2 as int, next.len() as int) =~= data.subrange(
            consumed + 1,
            consumed + 1,
        ));
        assert(closed + encode_blocks(data.skip(consumed + 1)) =~= output.take(code_idx) + (seq![
            255u8,
        ] + full + encode_blocks(data.skip(consumed + 1))));
    }
}

/// A non-zero byte that does not fill the open block extends it.
proof fn lemma_extend_block(
    data: Seq<u8>,
    output: Seq<u8>,
    consumed: int,
    start: int,
    code_idx: int,
    code: int,
)
    requires
        encoder_state(data, output, consumed, start, code_idx, code),
        consumed < data.len(),
        data[consumed] != 0,
        code < MAX_BLOCK_LEN,
    ensures
        encoder_state(data, output.push(data[consumed]), consumed + 1, start, code_idx, code + 1),
{
    let next = output.push(data[consumed]);
    assert(next.subrange(code_idx + 1, next.len() as int) =~= data.subrange(start, consumed + 1));
    assert(next.take(code_idx) =~= output.take(code_idx));
}

/// Filling in the last code byte and appending the delimiter completes the
/// frame.
proof fn lemma_finish_frame(data: Seq<u8>, output: Seq<u8>, start: int, code_idx: int, code: int)
    requires
        encoder_state(data, output, data.len() as int, start, code_idx, code),
    ensures
        output.update(code_idx, code as u8).push(0) == encoded(data),
{
    let open = data.skip(start);
    assert forall|j: int| 0 <= j < open.len() implies open[j] != 0 by {
        assert(open[j] == data[start + j]);
    }
    lemma_run_length_of_prefix(open, open.len());
    assert(data.subrange(start, data.len() as int) =~= open);
    assert(output.update(code_idx, code as u8) =~= output.take(code_idx) + (seq![code as u8]
        + open));
}

/// COBS encode data into a Vec.
///
/// The output includes the trailing 0x00 delimiter.
pub fn encode(data: &[u8]) -> (frame: Vec<u8>)
    ensures
        frame@ == encoded(data@),
        decoded(frame@) == Some(data@),
        frame@.last() == 0,
        forall|j: int| 0 <= j < frame@.len() - 1 ==> frame@[j] != 0,
{
    let mut output: Vec<u8> = Vec::with_capacity(data.len());
    let mut code_idx: usize = 0;
    let mut code: u8 = 1;

    output.push(0);  // placeholder for first code byte

    let ghost mut start: int = 0;
    let mut i: usize = 0;
    proof {
        assert(output@.subrange(1, 1) =~= data@.subrange(0, 0));
        assert(data@.skip(0) =~= data@);
        assert(output@.take(0) + encode_blocks(data@) =~= encode_blocks(data@));
    }
    while i < data.len()
        invariant
            encoder_state(data@, output@, i as int, start, code_idx as int, code as int),
        decreases data@.len() - i,
    {
        let byte: u8 = data[i];
        if byte == 0 {
            proof {
                lemma_close_block(data@, output@, i as int, start, code_idx as int, code as int);
            }
            output.set(code_idx, code);
            code_idx = output.len();
            output.push(0);  // placeholder
            code = 1;
            proof {
                start = i + 1;
            }
        } else {
            proof {
                if code as int == MAX_BLOCK_LEN {
                    lemma_close_block(data@, output@, i as int, start, code_idx as int, code as int);
                } else {
                    lemma_extend_block(data@, output@, i as int, start, code_idx as int, code as int);
                }
            }
            output.push(byte);
            code += 1;
            if code == 255 {
                output.set(code_idx, code);
                code_idx = output.len();
                output.push(0);  // placeholder
                code = 1;
                proof {
                    start = i + 1;
                }
            }
        }
        i += 1;
    }
    proof {
        lemma_finish_frame(data@, output@, start, code_idx as int, code as int);
        lemma_round_trip(data@);
    }
    output.set(code_idx, code);
    output.push(0);  // delimiter

    output
}

// --- Decoder ---

/// COBS decode data from a slice.
///
/// Returns None if decoding fails: on an empty frame, and on a block that
/// announces more bytes than the frame holds.
pub fn decode(data: &[u8]) -> (payload: Option<Vec<u8>>)
    ensures
        match payload {
            Some(bytes) => decoded(data@) == Some(bytes@),
            None => decoded(data@) is None,
        },
{
    if data.len() == 0 {
        return None;
    }
    let mut output: Vec<u8> = Vec::with_capacity(data.len());
    let mut i: usize = 0;

    while i < data.len() && data[i] != 0
        invariant
            i <= data@.len(),
            match decode_from(data@, i as int) {
                Some(rest) => decoded(data@) == Some(output@ + rest),
                None => decoded(data@) is None,
            },
        decreases data@.len() - i,
    {
        let code: usize = data[i] as usize;
        let ghost block_at: int = i as int;
        let ghost before: Seq<u8> = output@;
        i += 1;

        let mut n: usize = 1;
        while n < code
            invariant
                0 <= block_at < data@.len(),
                1 <= n <= code,
                code == data@[block_at],
                decode_from(data@, block_at) is None ==> decoded(data@) is None,
                i == block_at + n,
                i <= data@.len(),
                output@ == before + data@.subrange(block_at + 1, i as int),
            decreases code - n,
        {
            if i >= data.len() {
                return None;  // unexpected end
            }
            output.push(data[i]);
            i += 1;
            n += 1;
            assert(output@ =~= before + data@.subrange(block_at + 1, i as int));
        }

        if code < 255 && i < data.len() && data[i] != 0 {
            output.push(0);
        }
        proof {
            let block = data@.subrange(block_at + 1, i as int);
            assert(output@ =~= before + block + implied_zero(data@, block_at));
            match decode_from(data@, i as int) {
                Some(rest) => {
                    assert(before + (block + implied_zero(data@, block_at) + rest) =~= output@
                        + rest);
                },
                None => {},
            }
        }
    }
    proof {
        assert(decode_from(data@, i as int) == Some(Seq::<u8>::empty()));
        assert(output@ + Seq::<u8>::empty() =~= output@);
    }
    Some(output)
}

// --- Fixed capacity ---

/// The first `capacity` bytes of `frame`, and all of it if it is no longer.
pub open spec fn truncated(frame: Seq<u8>, capacity: int) -> Seq<u8> {
    if frame.len() <= capacity {
        frame
    } else {
        frame.take(capacity)
    }
}

/// COBS encode data into a buffer of capacity `N`.
///
/// The output includes the trailing 0x00 delimiter if the frame fits the
/// buffer. A frame that does not fit is cut off after `N` bytes.
pub fn encode_heapless<const N: usize>(data: &[u8]) -> (frame: HeaplessVec<N>)
    ensures
        frame@ == truncated(encoded(data@), N as int),
        encoded(data@).len() <= N ==> decoded(frame@) == Some(data@),
{
    let mut output: HeaplessVec<N> = HeaplessVec::new();
    let mut code_idx: usize = 0;
    let mut code: u8 = 1;

    // Placeholder for first code byte
    let _ = output.push(0);

    // What an unbounded encoder would hold, and where its open block starts.
    let ghost mut whole: Seq<u8> = seq![0u8];
    let ghost mut whole_idx: int = 0;
    let ghost mut start: int = 0;
    let mut i: usize = 0;
    proof {
        assert(whole.subrange(1, 1) =~= data@.subrange(0, 0));
        assert(data@.skip(0) =~= data@);
        assert(whole.take(0) + encode_blocks(data@) =~= encode_blocks(data@));
        assert(output@ =~= truncated(whole, N as int));
    }
    while i < data.len()
        invariant
            encoder_state(data@, whole, i as int, start, whole_idx, code as int),
            output@ == truncated(whole, N as int),
            code_idx == if whole_idx < N { whole_idx } else { N as int },
        decreases data@.len() - i,
    {
        let byte: u8 = data[i];
        if byte == 0 {
            proof {
                lemma_close_block(data@, whole, i as int, start, whole_idx, code as int);
            }
            if code_idx < output.len() {
                output.raw_set(code_idx, code);
            }
            code_idx = output.len();
            let _ = output.push(0);  // placeholder
            proof {
                let next = whole.update(whole_idx, code as u8).push(0);
                assert(output@ =~= truncated(next, N as int));
                whole_idx = whole.len() as int;
                whole = next;
                start = i + 1;
            }
            code = 1;
        } else {
            proof {
                if code as int == MAX_BLOCK_LEN {
                    lemma_close_block(data@, whole, i as int, start, whole_idx, code as int);
                } else {
                    lemma_extend_block(data@, whole, i as int, start, whole_idx, code as int);
                }
            }
            let _ = output.push(byte);
            proof {
                assert(output@ =~= truncated(whole.push(byte), N as int));
            }
            code += 1;
            if code == 255 {
                if code_idx < output.len() {
                    output.raw_set(code_idx, code);
                }
                code_idx = output.len();
                let _ = output.push(0);  // placeholder
                proof {
                    let next = whole.push(byte).update(whole_idx, 255u8).push(0);
                    assert(output@ =~= truncated(next, N as int));
                    whole_idx = whole.len() + 1 as int;
                    whole = next;
                    start = i + 1;
                }
                code = 1;
            } else {
                proof {
                    whole = whole.push(byte);
                }
            }
        }
        i += 1;
    }

    proof {
        lemma_finish_frame(data@, whole, start, whole_idx, code as int);
        lemma_round_trip(data@);
    }
    if code_idx < output.len() {
        output.raw_set(code_idx, code);
    }
    let _ = output.push(0);  // delimiter
    proof {
        assert(output@ =~= truncated(whole.update(whole_idx, code as u8).push(0), N as int));
    }

    output
}

/// COBS decode data into a buffer of capacity `N`.
///
/// Returns None if decoding fails, and if the payload does not fit the buffer.
pub fn decode_heapless<const N: usize>(data: &[u8]) -> (payload: Option<HeaplessVec<N>>)
    ensures
        match payload {
            Some(bytes) => decoded(data@) == Some(bytes@),
            None => decoded(data@) matches Some(whole) ==> whole.len() > N,
        },
{
    if data.len() == 0 {
        return None;
    }
    let mut output: HeaplessVec<N> = HeaplessVec::new();
    let mut i: usize = 0;

    while i < data.len() && data[i] != 0
        invariant
            i <= data@.len(),
            match decode_from(data@, i as int) {
                Some(rest) => decoded(data@) == Some(output@ + rest),
                None => decoded(data@) is None,
            },
        decreases data@.len() - i,
    {
        let code: usize = data[i] as usize;
        let ghost block_at: int = i as int;
        let ghost before: Seq<u8> = output@;
        i += 1;

        let mut n: usize = 1;
        while n < code
            invariant
                0 <= block_at < data@.len(),
                1 <= n <= code,
                code == data@[block_at],
                decode_from(data@, block_at) matches Some(rest) ==> decoded(data@) == Some(
                    before + rest,
                ),
                decode_from(data@, block_at) is None ==> decoded(data@) is None,
                i == block_at + n,
                i <= data@.len(),
                output@ == before + data@.subrange(block_at + 1, i as int),
            decreases code - n,
        {
            if i >= data.len() {
                return None;  // unexpected end
            }
            if output.push(data[i]).is_err() {
                return None;  // buffer overflow
            }
            i += 1;
            n += 1;
            assert(output@ =~= before + data@.subrange(block_at + 1, i as int));
        }

        if code < 255 && i < data.len() && data[i] != 0 {
            if output.push(0).is_err() {
                return None;  // buffer overflow
            }
        }
        proof {
            let block = data@.subrange(block_at + 1, i as int);
            assert(output@ =~= before + block + implied_zero(data@, block_at));
            match decode_from(data@, i as int) {
                Some(rest) => {
                    assert(before + (block + implied_zero(data@, block_at) + rest) =~= output@
                        + rest);
                },
                None => {},
            }
        }
    }
    proof {
        assert(decode_from(data@, i as int) == Some(Seq::<u8>::empty()));
        assert(output@ + Seq::<u8>::empty() =~= output@);
    }
    Some(output)
}

} // verus!
