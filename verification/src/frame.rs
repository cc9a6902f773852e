//! Layout, checksum and measurement decoding of a single frame.
//!
//! A frame on the wire is the start marker, an index byte, and a body of
//! twenty bytes: two bytes of motor speed, four data blocks of four bytes
//! each, and a two-byte little-endian checksum.

use vstd::prelude::*;

verus! {

/// First byte of every frame.
pub const START_MARKER: u8 = 0xFA;

/// Index byte of the first frame of a revolution.
pub const INDEX_FIRST: u8 = 0xA0;

/// Index byte of the last frame of a revolution.
pub const INDEX_LAST: u8 = 0xF9;

/// Number of frames in one revolution.
pub const FRAME_COUNT: u8 = 90;

/// Number of measurements in one revolution, one per degree.
pub const SLOT_COUNT: usize = 360;

/// Number of bytes that follow the index byte of a frame.
pub const BODY_LEN: usize = 20;

/// Distance and quality stored for a measurement that could not be decoded.
pub const UNAVAILABLE: i32 = -1;

/// Value of the 16-bit little-endian word made of the bytes `low` and `high`.
pub open spec fn word(low: u8, high: u8) -> int {
    low as int + 256 * (high as int)
}

/// The ten words that the checksum covers, in wire order: the start marker
/// with the index byte, the speed, and two words for each data block.
pub open spec fn frame_words(
    idx: u8,
    speed: Seq<u8>,
    data0: Seq<u8>,
    data1: Seq<u8>,
    data2: Seq<u8>,
    data3: Seq<u8>,
) -> Seq<int> {
    seq![
        word(START_MARKER, (idx + INDEX_FIRST) as u8),
        word(speed[0], speed[1]),
        word(data0[0], data0[1]),
        word(data0[2], data0[3]),
        word(data1[0], data1[1]),
        word(data1[2], data1[3]),
        word(data2[0], data2[1]),
        word(data2[2], data2[3]),
        word(data3[0], data3[1]),
        word(data3[2], data3[3]),
    ]
}

/// Sum of ten words in which each word weighs twice as much as its successor.
pub open spec fn weighted_sum(w: Seq<int>) -> int {
    512 * w[0] + 256 * w[1] + 128 * w[2] + 64 * w[3] + 32 * w[4] + 16 * w[5] + 8 * w[6] + 4
        * w[7] + 2 * w[8] + w[9]
}

/// Folds a sum to fifteen bits: what lies above bit 14 is added back onto the
/// low fifteen bits, and the result is cut to fifteen bits again.
pub open spec fn fold15(acc: int) -> int {
    ((acc % 0x8000) + acc / 0x8000) % 0x8000
}

/// Folding to fifteen bits, said with masks and shifts.
pub proof fn lemma_fold15_in_bits(acc: u32)
    ensures
        fold15(acc as int) == (((acc & 0x7FFF) + (acc >> 15)) as u32) & 0x7FFF,
        0 <= fold15(acc as int) < 0x8000,
{
    assert((acc & 0x7FFF) == acc % 0x8000) by (bit_vector);
    assert((acc >> 15) == acc / 0x8000) by (bit_vector);
    let folded: u32 = ((acc & 0x7FFF) + (acc >> 15)) as u32;
    assert((folded & 0x7FFF) == folded % 0x8000) by (bit_vector);
}

/// The checksum that a frame with the given index and contents must carry.
pub open spec fn checksum_spec(
    idx: u8,
    speed: Seq<u8>,
    data0: Seq<u8>,
    data1: Seq<u8>,
    data2: Seq<u8>,
    data3: Seq<u8>,
) -> int {
    fold15(weighted_sum(frame_words(idx, speed, data0, data1, data2, data3)))
}

/// One step of the running sum: the sum so far is doubled and the word
/// `(data0, data1)` is added.
fn increment_checksum(chk32: u32, data0: u8, data1: u8) -> (r: u32)
    requires
        2 * chk32 + word(data0, data1) <= u32::MAX,
    ensures
        r == 2 * chk32 + word(data0, data1),
{
    assert((chk32 << 1) == 2 * chk32) by (bit_vector)
        requires
            chk32 <= 0x7FFF_FFFF,
    ;
    assert(((data1 as u32) << 8) == 256 * data1) by (bit_vector);
    (chk32 << 1) + (data0 as u32) + ((data1 as u32) << 8)
}

/// Computes the 15-bit checksum of a frame from its index (0 for the first
/// frame of a revolution), its two speed bytes and its four data blocks.
pub fn checksum(
    idx: u8,
    b_speed: &[u8],
    b_data0: &[u8],
    b_data1: &[u8],
    b_data2: &[u8],
    b_data3: &[u8],
) -> (r: u32)
    requires
        idx + INDEX_FIRST <= u8::MAX,
        b_speed@.len() >= 2,
        b_data0@.len() >= 4,
        b_data1@.len() >= 4,
        b_data2@.len() >= 4,
        b_data3@.len() >= 4,
    ensures
        r == checksum_spec(idx, b_speed@, b_data0@, b_data1@, b_data2@, b_data3@),
        r < 0x8000,
{
    let mut chk32: u32 = 0;
    chk32 = increment_checksum(chk32, START_MARKER, idx + INDEX_FIRST);
    chk32 = increment_checksum(chk32, b_speed[0], b_speed[1]);
    chk32 = increment_checksum(chk32, b_data0[0], b_data0[1]);
    chk32 = increment_checksum(chk32, b_data0[2], b_data0[3]);
    chk32 = increment_checksum(chk32, b_data1[0], b_data1[1]);
    chk32 = increment_checksum(chk32, b_data1[2], b_data1[3]);
    chk32 = increment_checksum(chk32, b_data2[0], b_data2[1]);
    chk32 = increment_checksum(chk32, b_data2[2], b_data2[3]);
    chk32 = increment_checksum(chk32, b_data3[0], b_data3[1]);
    chk32 = increment_checksum(chk32, b_data3[2], b_data3[3]);
    assert(chk32 == weighted_sum(
        frame_words(idx, b_speed@, b_data0@, b_data1@, b_data2@, b_data3@),
    ));
    proof {
        lemma_fold15_in_bits(chk32);
        assert((chk32 & 0x7FFF) == chk32 % 0x8000) by (bit_vector);
        assert((chk32 >> 15) == chk32 / 0x8000) by (bit_vector);
    }
    ((chk32 & 0x7FFF) + (chk32 >> 15)) & 0x7FFF
}

/// Reads the checksum that a frame carries from its two checksum bytes, low
/// byte first. All sixteen bits count.
pub fn incoming_checksum(b_checksum: &[u8]) -> (r: u32)
    requires
        b_checksum@.len() >= 2,
    ensures
        r == word(b_checksum@[0], b_checksum@[1]),
{
    let low: u8 = b_checksum[0];
    let high: u8 = b_checksum[1];
    assert(((high as u32) << 8) == 256 * high) by (bit_vector);
    (low as u32) + ((high as u32) << 8)
}

/// Distance in millimetres held by a data block: fourteen bits, the low
/// eight in the first byte. The two high bits of the second byte are flags
/// of the sensor and take no part.
pub open spec fn distance_of(block: Seq<u8>) -> int {
    block[0] as int + 256 * (block[1] as int % 64)
}

/// Signal quality held by a data block: the little-endian word in its last
/// two bytes.
pub open spec fn quality_of(block: Seq<u8>) -> int {
    word(block[2], block[3])
}

/// Decodes one data block into `(distance_mm, quality)`.
pub fn parse_data_packet(b_data: &[u8]) -> (r: (i32, i32))
    requires
        b_data@.len() >= 4,
    ensures
        r.0 == distance_of(b_data@),
        r.1 == quality_of(b_data@),
        0 <= r.0 < 0x4000,
        0 <= r.1 < 0x1_0000,
{
    let b0: u8 = b_data[0];
    let b1: u8 = b_data[1];
    let b2: u8 = b_data[2];
    let b3: u8 = b_data[3];
    assert(((b0 as i32) | (((b1 & 0x3F) as i32) << 8)) == b0 + 256 * (b1 % 64)) by (bit_vector);
    assert(((b2 as i32) | ((b3 as i32) << 8)) == b2 + 256 * b3) by (bit_vector);
    let dist_mm: i32 = (b0 as i32) | (((b1 & 0x3F) as i32) << 8);
    let quality: i32 = (b2 as i32) | ((b3 as i32) << 8);
    (dist_mm, quality)
}

/// The two speed bytes at the head of a frame body.
pub open spec fn body_speed(body: Seq<u8>) -> Seq<u8> {
    body.subrange(0, 2)
}

/// Data block `k` (0 to 3) of a frame body.
pub open spec fn body_block(body: Seq<u8>, k: int) -> Seq<u8> {
    body.subrange(2 + 4 * k, 6 + 4 * k)
}

/// The checksum that a frame body carries in its last two bytes, all
/// sixteen bits of it.
pub open spec fn body_checksum(body: Seq<u8>) -> int {
    word(body[18], body[19])
}

/// Whether the body of the frame with index `idx` carries the checksum that
/// its contents call for.
pub open spec fn body_is_valid(idx: u8, body: Seq<u8>) -> bool {
    body_checksum(body) == checksum_spec(
        idx,
        body_speed(body),
        body_block(body, 0),
        body_block(body, 1),
        body_block(body, 2),
        body_block(body, 3),
    )
}

/// Checks whether the body of the frame with index `idx` carries the
/// checksum that its contents call for.
pub fn verify_body(idx: u8, body: &[u8]) -> (ok: bool)
    requires
        idx + INDEX_FIRST <= u8::MAX,
        body@.len() == BODY_LEN,
    ensures
        ok == body_is_valid(idx, body@),
{
    let incoming: u32 = incoming_checksum(&body[18..20]);
    let calculated: u32 = checksum(
        idx,
        &body[0..2],
        &body[2..6],
        &body[6..10],
        &body[10..14],
        &body[14..18],
    );
    calculated == incoming
}

/// A frame body in which one of the two checksum bytes is not what it
/// should be does not pass for valid.
pub proof fn lemma_corrupt_checksum_is_invalid(idx: u8, body: Seq<u8>, at: int, byte: u8)
    requires
        body.len() == BODY_LEN,
        body_is_valid(idx, body),
        at == 18 || at == 19,
        byte != body[at],
    ensures
        !body_is_valid(idx, body.update(at, byte)),
{
    let corrupt = body.update(at, byte);
    assert(body_speed(corrupt) =~= body_speed(body));
    assert(body_block(corrupt, 0) =~= body_block(body, 0));
    assert(body_block(corrupt, 1) =~= body_block(body, 1));
    assert(body_block(corrupt, 2) =~= body_block(body, 2));
    assert(body_block(corrupt, 3) =~= body_block(body, 3));
}

/// The four distances that a frame body holds, in block order.
pub open spec fn body_distances(body: Seq<u8>) -> Seq<i32> {
    Seq::new(4, |k: int| distance_of(body_block(body, k)) as i32)
}

/// The four qualities that a frame body holds, in block order.
pub open spec fn body_qualities(body: Seq<u8>) -> Seq<i32> {
    Seq::new(4, |k: int| quality_of(body_block(body, k)) as i32)
}

} // verus!
