//! What holds of the synchroniser on whole frames and whole revolutions,
//! proved over the model of the decoder.

use crate::frame::{
    body_distances, body_is_valid, body_qualities, BODY_LEN, FRAME_COUNT, INDEX_FIRST,
    SLOT_COUNT, START_MARKER,
};
use crate::record::{pairs_text, record_text};
use crate::sync::{unavailable_frame, with_frame, DecoderView, SyncState};
use vstd::prelude::*;

verus! {

/// A frame as it travels on the wire: start marker, index byte, body.
pub open spec fn frame_bytes(idx: u8, body: Seq<u8>) -> Seq<u8> {
    seq![START_MARKER, (idx + INDEX_FIRST) as u8] + body
}

/// The distances that the frame with index `idx` and the given body leaves
/// in its four slots: those it holds, or none if its checksum is wrong.
pub open spec fn frame_distances(idx: u8, body: Seq<u8>) -> Seq<i32> {
    if body_is_valid(idx, body) {
        body_distances(body)
    } else {
        unavailable_frame()
    }
}

/// The qualities that the frame with index `idx` and the given body leaves
/// in its four slots: those it holds, or none if its checksum is wrong.
pub open spec fn frame_qualities(idx: u8, body: Seq<u8>) -> Seq<i32> {
    if body_is_valid(idx, body) {
        body_qualities(body)
    } else {
        unavailable_frame()
    }
}

/// The wire bytes of the first `n` frames of a revolution, frame `i` having
/// index `i` and body `bodies[i]`.
pub open spec fn revolution_bytes(bodies: Seq<Seq<u8>>, n: nat) -> Seq<u8>
    decreases n,
{
    if n == 0 {
        Seq::empty()
    } else {
        revolution_bytes(bodies, (n - 1) as nat) + frame_bytes(
            (n - 1) as u8,
            bodies[n - 1],
        )
    }
}

/// How many of the first `n` frames of a revolution carry a wrong checksum.
pub open spec fn rejected_frames(bodies: Seq<Seq<u8>>, n: nat) -> nat
    decreases n,
{
    if n == 0 {
        0
    } else if body_is_valid((n - 1) as u8, bodies[n - 1]) {
        rejected_frames(bodies, (n - 1) as nat)
    } else {
        rejected_frames(bodies, (n - 1) as nat) + 1
    }
}

/// Every byte leaves a well-formed decoder well formed.
pub proof fn lemma_on_byte_wf(m: DecoderView, byte: u8)
    requires
        m.wf(),
    ensures
        m.on_byte(byte).wf(),
{
}

/// Feeding one more byte after a run is one more step.
pub proof fn lemma_feed_push(m: DecoderView, bytes: Seq<u8>, byte: u8)
    ensures
        m.feed(bytes.push(byte)) == m.feed(bytes).on_byte(byte),
        m.emissions(bytes.push(byte)) == m.emissions(bytes) + if m.feed(
            bytes,
        ).completes_revolution() {
            1nat
        } else {
            0nat
        },
{
    assert(bytes.push(byte).drop_last() =~= bytes);
}

/// Every run of bytes leaves a well-formed decoder well formed.
pub proof fn lemma_feed_wf(m: DecoderView, bytes: Seq<u8>)
    requires
        m.wf(),
    ensures
        m.feed(bytes).wf(),
    decreases bytes.len(),
{
    if bytes.len() > 0 {
        lemma_feed_wf(m, bytes.drop_last());
        lemma_on_byte_wf(m.feed(bytes.drop_last()), bytes.last());
    }
}

/// Feeding two runs one after the other is feeding their concatenation, and
/// the revolutions that they complete add up.
pub proof fn lemma_feed_concat(m: DecoderView, first: Seq<u8>, second: Seq<u8>)
    ensures
        m.feed(first + second) == m.feed(first).feed(second),
        m.emissions(first + second) == m.emissions(first) + m.feed(first).emissions(second),
    decreases second.len(),
{
    if second.len() == 0 {
        assert(first + second =~= first);
    } else {
        lemma_feed_concat(m, first, second.drop_last());
        assert((first + second).drop_last() =~= first + second.drop_last());
    }
}

/// A byte changes no slot but the four of the frame that it completes, if it
/// completes one: what a slot holds stays until a frame with its index
/// arrives, from one revolution to the next. The buffer is never cleared.
pub proof fn lemma_other_slots_persist(m: DecoderView, byte: u8, i: int)
    requires
        m.wf(),
        0 <= i < SLOT_COUNT,
        !(m.completes_frame() && m.base() <= i < m.base() + 4),
    ensures
        m.on_byte(byte).distances[i] == m.distances[i],
        m.on_byte(byte).qualities[i] == m.qualities[i],
{
}

/// The count of rejected frames never goes down, and a byte raises it by at
/// most one.
pub proof fn lemma_errors_never_decrease(m: DecoderView, bytes: Seq<u8>)
    ensures
        m.errors <= m.feed(bytes).errors <= m.errors + bytes.len(),
    decreases bytes.len(),
{
    if bytes.len() > 0 {
        lemma_errors_never_decrease(m, bytes.drop_last());
    }
}

/// While it looks for the start marker, the decoder passes over every other
/// byte unchanged. While it waits for the index byte, a byte that is neither
/// an index nor the start marker sends it back to look for the start marker,
/// and changes nothing else.
pub proof fn lemma_stray_byte(m: DecoderView, byte: u8)
    ensures
        m.state == SyncState::WaitForStart && byte != START_MARKER ==> m.on_byte(byte) == m,
        m.state == SyncState::WaitForIndex && !(INDEX_FIRST <= byte <= START_MARKER)
            ==> m.on_byte(byte) == (DecoderView { state: SyncState::WaitForStart, ..m }),
        m.state == SyncState::WaitForIndex && byte == START_MARKER ==> m.on_byte(byte) == m,
        m.state != SyncState::ReadPacket ==> m.event(byte) is None,
{
}

/// A frame body is asked for in six pieces of 2, 4, 4, 4, 4 and 2 bytes: the
/// speed, the four data blocks and the checksum. No read reaches beyond the
/// end of the body.
pub proof fn lemma_body_is_read_in_six_pieces(m: DecoderView)
    requires
        m.wf(),
        m.state == SyncState::ReadPacket,
    ensures
        m.pending.len() == 0 ==> m.read_len() == 2,
        m.pending.len() == 2 ==> m.read_len() == 4,
        m.pending.len() == 6 ==> m.read_len() == 4,
        m.pending.len() == 10 ==> m.read_len() == 4,
        m.pending.len() == 14 ==> m.read_len() == 4,
        m.pending.len() == 18 ==> m.read_len() == 2,
        1 <= m.read_len() <= 4,
        m.pending.len() + m.read_len() <= BODY_LEN,
{
}

/// While a body is being read, the bytes that come in are collected until
/// the body is whole; the whole body is then judged and stored.
pub proof fn lemma_feed_body(m: DecoderView, bytes: Seq<u8>)
    requires
        m.wf(),
        m.state == SyncState::ReadPacket,
        m.pending.len() + bytes.len() <= BODY_LEN,
    ensures
        m.pending.len() + bytes.len() < BODY_LEN ==> m.feed(bytes) == (DecoderView {
            pending: m.pending + bytes,
            ..m
        }),
        m.pending.len() + bytes.len() == BODY_LEN ==> m.feed(bytes) == m.accept(
            m.pending + bytes,
        ),
        m.emissions(bytes) == if m.pending.len() + bytes.len() == BODY_LEN && m.index
            == FRAME_COUNT - 1 {
            1nat
        } else {
            0nat
        },
    decreases bytes.len(),
{
    if bytes.len() == 0 {
        assert(m.pending + bytes =~= m.pending);
    } else {
        let head = bytes.drop_last();
        lemma_feed_body(m, head);
        let before = m.feed(head);
        assert(before == (DecoderView { pending: m.pending + head, ..m }));
        assert((m.pending + head).push(bytes.last()) =~= m.pending + bytes);
        if m.pending.len() + bytes.len() == BODY_LEN {
            assert(before.completes_frame());
            assert(before.accept(m.pending + bytes) == m.accept(m.pending + bytes));
        }
    }
}

/// A frame that arrives while the decoder looks for a start marker takes it
/// through the index byte and the body and back to looking for the next
/// start marker. Its four slots then hold its measurements if its checksum
/// is right, and no measurement if not, in which case the frame is counted
/// as rejected. No other slot changes. The revolution is complete exactly
/// when the frame is the last of the ninety.
pub proof fn lemma_frame(m: DecoderView, idx: u8, body: Seq<u8>)
    requires
        m.wf(),
        m.state == SyncState::WaitForStart,
        idx < FRAME_COUNT,
        body.len() == BODY_LEN,
    ensures
        m.feed(frame_bytes(idx, body)) == (DecoderView { index: idx, ..m }).accept(body),
        m.feed(frame_bytes(idx, body)) == (DecoderView {
            state: SyncState::WaitForStart,
            index: idx,
            distances: with_frame(m.distances, 4 * idx, frame_distances(idx, body)),
            qualities: with_frame(m.qualities, 4 * idx, frame_qualities(idx, body)),
            errors: if body_is_valid(idx, body) {
                m.errors
            } else {
                m.errors + 1
            },
            ..m
        }),
        m.feed(frame_bytes(idx, body).take(1)).state == SyncState::WaitForIndex,
        forall|k: int|
            2 <= k < 2 + BODY_LEN ==> (#[trigger] m.feed(frame_bytes(idx, body).take(k))).state
                == SyncState::ReadPacket,
        m.emissions(frame_bytes(idx, body)) == if idx == FRAME_COUNT - 1 {
            1nat
        } else {
            0nat
        },
        m.emissions(frame_bytes(idx, body).drop_last()) == 0,
{
    let marker = seq![START_MARKER];
    let index_byte = (idx + INDEX_FIRST) as u8;
    let head = seq![START_MARKER, index_byte];
    let frame = frame_bytes(idx, body);
    lemma_feed_push(m, Seq::empty(), START_MARKER);
    assert(Seq::<u8>::empty().push(START_MARKER) =~= marker);
    lemma_feed_push(m, marker, index_byte);
    assert(marker.push(index_byte) =~= head);
    let started = m.feed(head);
    assert(started == (DecoderView { state: SyncState::ReadPacket, index: idx, ..m }));
    assert(m.emissions(head) == 0);
    assert(frame.take(1) =~= marker);
    assert forall|k: int| 2 <= k < 2 + BODY_LEN implies (#[trigger] m.feed(
        frame.take(k),
    )).state == SyncState::ReadPacket by {
        let part = body.take(k - 2);
        assert(frame.take(k) =~= head + part);
        lemma_feed_concat(m, head, part);
        lemma_feed_body(started, part);
    }
    lemma_feed_concat(m, head, body);
    lemma_feed_body(started, body);
    assert(started.pending + body =~= body);
    assert(m.pending =~= Seq::<u8>::empty());
    let last = body.drop_last();
    assert(frame.drop_last() =~= head + last);
    lemma_feed_concat(m, head, last);
    lemma_feed_body(started, last);
}

/// The distance buffer after the first `n` frames of a revolution: the
/// first `4 * n` degrees hold what the frames carried, degree `i` coming
/// from block `i % 4` of frame `i / 4`, and the others what `slots` held.
pub open spec fn partial_distances(slots: Seq<i32>, bodies: Seq<Seq<u8>>, n: nat) -> Seq<i32> {
    Seq::new(
        slots.len(),
        |i: int|
            if i < 4 * n {
                frame_distances((i / 4) as u8, bodies[i / 4])[i % 4]
            } else {
                slots[i]
            },
    )
}

/// The quality buffer after the first `n` frames of a revolution.
pub open spec fn partial_qualities(slots: Seq<i32>, bodies: Seq<Seq<u8>>, n: nat) -> Seq<i32> {
    Seq::new(
        slots.len(),
        |i: int|
            if i < 4 * n {
                frame_qualities((i / 4) as u8, bodies[i / 4])[i % 4]
            } else {
                slots[i]
            },
    )
}

/// The distances that a revolution of ninety frames leaves in the buffer,
/// degree by degree.
pub open spec fn revolution_distances(bodies: Seq<Seq<u8>>) -> Seq<i32> {
    Seq::new(
        SLOT_COUNT as nat,
        |i: int| frame_distances((i / 4) as u8, bodies[i / 4])[i % 4],
    )
}

/// The qualities that a revolution of ninety frames leaves in the buffer,
/// degree by degree.
pub open spec fn revolution_qualities(bodies: Seq<Seq<u8>>) -> Seq<i32> {
    Seq::new(
        SLOT_COUNT as nat,
        |i: int| frame_qualities((i / 4) as u8, bodies[i / 4])[i % 4],
    )
}

/// Storing frame `n` on top of the first `n` frames gives the buffer of the
/// first `n + 1` frames.
proof fn lemma_store_next(slots: Seq<i32>, bodies: Seq<Seq<u8>>, n: nat)
    requires
        n < FRAME_COUNT,
        slots.len() == SLOT_COUNT,
    ensures
        with_frame(
            partial_distances(slots, bodies, n),
            4 * (n as int),
            frame_distances(n as u8, bodies[n as int]),
        ) == partial_distances(slots, bodies, n + 1),
        with_frame(
            partial_qualities(slots, bodies, n),
            4 * (n as int),
            frame_qualities(n as u8, bodies[n as int]),
        ) == partial_qualities(slots, bodies, n + 1),
{
    let d0 = with_frame(
        partial_distances(slots, bodies, n),
        4 * (n as int),
        frame_distances(n as u8, bodies[n as int]),
    );
    let d1 = partial_distances(slots, bodies, n + 1);
    assert forall|i: int| 0 <= i < SLOT_COUNT implies d0[i] == d1[i] by {
        if 4 * n <= i < 4 * n + 4 {
            assert(i / 4 == n && i % 4 == i - 4 * n);
        }
    }
    assert(d0 =~= d1);
    let q0 = with_frame(
        partial_qualities(slots, bodies, n),
        4 * (n as int),
        frame_qualities(n as u8, bodies[n as int]),
    );
    let q1 = partial_qualities(slots, bodies, n + 1);
    assert forall|i: int| 0 <= i < SLOT_COUNT implies q0[i] == q1[i] by {
        if 4 * n <= i < 4 * n + 4 {
            assert(i / 4 == n && i % 4 == i - 4 * n);
        }
    }
    assert(q0 =~= q1);
}

/// The first `n` frames of a revolution, arriving in order while the decoder
/// looks for a start marker, fill the first `4 * n` slots and leave the
/// others as they were; each rejected frame is counted; and the revolution
/// is complete when all ninety have arrived, not before.
pub proof fn lemma_partial_revolution(m: DecoderView, bodies: Seq<Seq<u8>>, n: nat)
    requires
        m.wf(),
        m.state == SyncState::WaitForStart,
        n <= FRAME_COUNT,
        n <= bodies.len(),
        forall|i: int| 0 <= i < n ==> (#[trigger] bodies[i]).len() == BODY_LEN,
    ensures
        m.feed(revolution_bytes(bodies, n)) == (DecoderView {
            index: if n == 0 {
                m.index
            } else {
                (n - 1) as u8
            },
            distances: partial_distances(m.distances, bodies, n),
            qualities: partial_qualities(m.qualities, bodies, n),
            errors: m.errors + rejected_frames(bodies, n),
            ..m
        }),
        m.emissions(revolution_bytes(bodies, n)) == if n == FRAME_COUNT {
            1nat
        } else {
            0nat
        },
        n > 0 ==> m.emissions(revolution_bytes(bodies, n).drop_last()) == 0,
    decreases n,
{
    if n == 0 {
        assert(partial_distances(m.distances, bodies, 0) =~= m.distances);
        assert(partial_qualities(m.qualities, bodies, 0) =~= m.qualities);
    } else {
        let before = (n - 1) as nat;
        let idx = before as u8;
        let body = bodies[before as int];
        let earlier = revolution_bytes(bodies, before);
        let frame = frame_bytes(idx, body);
        lemma_partial_revolution(m, bodies, before);
        let middle = m.feed(earlier);
        assert(middle.wf());
        lemma_frame(middle, idx, body);
        lemma_store_next(m.distances, bodies, before);
        lemma_store_next(m.qualities, bodies, before);
        assert(revolution_bytes(bodies, n) == earlier + frame);
        assert(m.feed(earlier + frame) == middle.feed(frame) && m.emissions(earlier + frame)
            == m.emissions(earlier) + middle.emissions(frame)) by {
            lemma_feed_concat(m, earlier, frame);
        }
        assert(m.emissions((earlier + frame).drop_last()) == 0) by {
            assert((earlier + frame).drop_last() =~= earlier + frame.drop_last());
            lemma_feed_concat(m, earlier, frame.drop_last());
        }
    }
}

/// A whole revolution, its ninety frames arriving in order while the decoder
/// looks for a start marker, completes exactly once, with its very last
/// byte. The buffer then holds, degree by degree, what the frames carried:
/// nothing is left of what it held before.
pub proof fn lemma_revolution(m: DecoderView, bodies: Seq<Seq<u8>>)
    requires
        m.wf(),
        m.state == SyncState::WaitForStart,
        bodies.len() == FRAME_COUNT,
        forall|i: int| 0 <= i < FRAME_COUNT ==> (#[trigger] bodies[i]).len() == BODY_LEN,
    ensures
        m.emissions(revolution_bytes(bodies, FRAME_COUNT as nat)) == 1,
        m.emissions(revolution_bytes(bodies, FRAME_COUNT as nat).drop_last()) == 0,
        m.feed(revolution_bytes(bodies, FRAME_COUNT as nat)) == (DecoderView {
            index: (FRAME_COUNT - 1) as u8,
            distances: revolution_distances(bodies),
            qualities: revolution_qualities(bodies),
            errors: m.errors + rejected_frames(bodies, FRAME_COUNT as nat),
            ..m
        }),
{
    lemma_partial_revolution(m, bodies, FRAME_COUNT as nat);
    assert(partial_distances(m.distances, bodies, FRAME_COUNT as nat) =~= revolution_distances(
        bodies,
    ));
    assert(partial_qualities(m.qualities, bodies, FRAME_COUNT as nat) =~= revolution_qualities(
        bodies,
    ));
}

/// The record of a decoder holds one pair for each of the 360 degrees, in
/// the order of the degrees.
pub proof fn lemma_record_covers_every_degree(m: DecoderView, timestamp: Seq<char>)
    requires
        m.wf(),
    ensures
        record_text(timestamp, m.distances, m.qualities) == timestamp + seq![','] + pairs_text(
            m.distances,
            m.qualities,
            SLOT_COUNT as nat,
        ) + seq!['\n'],
{
}

} // verus!
