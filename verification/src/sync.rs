//! Frame synchronisation: finding frames in the byte stream, checking them
//! and keeping the measurements of the current revolution.

use crate::frame::{
    body_distances, body_is_valid, body_qualities, parse_data_packet, verify_body, BODY_LEN,
    FRAME_COUNT, INDEX_FIRST, INDEX_LAST, SLOT_COUNT, START_MARKER, UNAVAILABLE,
};
use crate::record::{format_record, format_record_now, record_text};
use crate::source::chunk_end;
use vstd::prelude::*;

verus! {

/// Where the synchroniser stands between two frames.
#[derive(Clone, Copy, Debug, PartialEq, Eq, Structural)]
pub enum SyncState {
    /// Looking for the start marker.
    WaitForStart,
    /// The start marker was seen; the index byte is due.
    WaitForIndex,
    /// Marker and index were seen; the body of the frame is being read.
    ReadPacket,
}

/// What the decoder reports when a byte completes a frame.
#[derive(Clone, Copy, Debug, PartialEq, Eq, Structural)]
pub struct FrameEvent {
    /// Index of the frame, 0 to 89.
    pub index: u8,
    /// Whether the frame carried the right checksum and was decoded.
    pub valid: bool,
    /// Whether this was the last frame of a revolution, so that the
    /// measurement buffer is due to be written out.
    pub revolution_complete: bool,
}

/// Mathematical model of a [`Decoder`].
pub struct DecoderView {
    /// Synchronisation state.
    pub state: SyncState,
    /// Index of the frame read last or being read.
    pub index: u8,
    /// Body bytes of the frame being read, as far as they have come in.
    pub pending: Seq<u8>,
    /// Distance in millimetres for each degree, or `UNAVAILABLE`.
    pub distances: Seq<i32>,
    /// Signal quality for each degree, or `UNAVAILABLE`.
    pub qualities: Seq<i32>,
    /// Number of frames rejected for their checksum so far.
    pub errors: nat,
}

/// `slots` with the four values of `values` written at `base` and onwards.
pub open spec fn with_frame(slots: Seq<i32>, base: int, values: Seq<i32>) -> Seq<i32> {
    Seq::new(
        slots.len(),
        |i: int|
            if base <= i < base + 4 {
                values[i - base]
            } else {
                slots[i]
            },
    )
}

/// Four slots that hold no measurement.
pub open spec fn unavailable_frame() -> Seq<i32> {
    Seq::new(4, |k: int| UNAVAILABLE)
}

impl DecoderView {
    /// The invariant of a decoder: the index names one of the ninety frames,
    /// body bytes are pending only while a body is being read, and never a
    /// whole body, and there is one slot per degree.
    pub open spec fn wf(self) -> bool {
        &&& self.index < FRAME_COUNT
        &&& self.pending.len() < BODY_LEN
        &&& (self.state != SyncState::ReadPacket ==> self.pending.len() == 0)
        &&& self.distances.len() == SLOT_COUNT
        &&& self.qualities.len() == SLOT_COUNT
    }

    /// A decoder that has seen nothing yet: it looks for a start marker, and
    /// no slot holds a measurement.
    pub open spec fn initial() -> Self {
        DecoderView {
            state: SyncState::WaitForStart,
            index: 0,
            pending: Seq::empty(),
            distances: Seq::new(SLOT_COUNT as nat, |i: int| UNAVAILABLE),
            qualities: Seq::new(SLOT_COUNT as nat, |i: int| UNAVAILABLE),
            errors: 0,
        }
    }

    /// First of the four slots that the frame being read fills.
    pub open spec fn base(self) -> int {
        4 * self.index
    }

    /// The decoder after the whole `body` of the frame being read has come
    /// in. A body with the right checksum has its four measurements stored;
    /// any other has its four slots marked unavailable and is counted. Either
    /// way the search for the next start marker begins.
    pub open spec fn accept(self, body: Seq<u8>) -> Self {
        if body_is_valid(self.index, body) {
            DecoderView {
                state: SyncState::WaitForStart,
                pending: Seq::empty(),
                distances: with_frame(self.distances, self.base(), body_distances(body)),
                qualities: with_frame(self.qualities, self.base(), body_qualities(body)),
                ..self
            }
        } else {
            DecoderView {
                state: SyncState::WaitForStart,
                pending: Seq::empty(),
                distances: with_frame(self.distances, self.base(), unavailable_frame()),
                qualities: with_frame(self.qualities, self.base(), unavailable_frame()),
                errors: self.errors + 1,
                ..self
            }
        }
    }

    /// Whether the next byte completes the body of a frame.
    pub open spec fn completes_frame(self) -> bool {
        self.state == SyncState::ReadPacket && self.pending.len() + 1 == BODY_LEN
    }

    /// The decoder after one more byte of the stream.
    pub open spec fn on_byte(self, byte: u8) -> Self {
        match self.state {
            SyncState::WaitForStart => if byte == START_MARKER {
                DecoderView { state: SyncState::WaitForIndex, ..self }
            } else {
                self
            },
            SyncState::WaitForIndex => if INDEX_FIRST <= byte <= INDEX_LAST {
                DecoderView {
                    state: SyncState::ReadPacket,
                    index: (byte - INDEX_FIRST) as u8,
                    ..self
                }
            } else if byte == START_MARKER {
                self
            } else {
                DecoderView { state: SyncState::WaitForStart, ..self }
            },
            SyncState::ReadPacket => if self.completes_frame() {
                self.accept(self.pending.push(byte))
            } else {
                DecoderView { pending: self.pending.push(byte), ..self }
            },
        }
    }

    /// Whether the next byte completes the last frame of a revolution, at
    /// which the measurement buffer is written out.
    pub open spec fn completes_revolution(self) -> bool {
        self.completes_frame() && self.index == FRAME_COUNT - 1
    }

    /// The decoder after a run of bytes, taken one by one.
    pub open spec fn feed(self, bytes: Seq<u8>) -> Self
        decreases bytes.len(),
    {
        if bytes.len() == 0 {
            self
        } else {
            self.feed(bytes.drop_last()).on_byte(bytes.last())
        }
    }

    /// How many revolutions a run of bytes completes.
    pub open spec fn emissions(self, bytes: Seq<u8>) -> nat
        decreases bytes.len(),
    {
        if bytes.len() == 0 {
            0
        } else if self.feed(bytes.drop_last()).completes_revolution() {
            self.emissions(bytes.drop_last()) + 1
        } else {
            self.emissions(bytes.drop_last())
        }
    }

    /// How many bytes the next read should ask for: one between frames, and
    /// inside a frame body what is missing of the piece being read.
    pub open spec fn read_len(self) -> int {
        if self.state == SyncState::ReadPacket {
            chunk_end(self.pending.len() as int) - self.pending.len()
        } else {
            1
        }
    }

    /// What one more byte of the stream makes the decoder report: nothing,
    /// unless the byte completes a frame.
    pub open spec fn event(self, byte: u8) -> Option<FrameEvent> {
        if self.completes_frame() {
            Some(
                FrameEvent {
                    index: self.index,
                    valid: body_is_valid(self.index, self.pending.push(byte)),
                    revolution_complete: self.completes_revolution(),
                },
            )
        } else {
            None
        }
    }
}

/// Frame synchroniser with the measurement buffer of the current revolution
/// and the count of rejected frames.
///
/// The buffer is never cleared. A slot keeps what it holds until a frame
/// with its index arrives, so where frames are lost a record carries the
/// last known value of their degrees, from whichever revolution it stems.
pub struct Decoder {
    state: SyncState,
    index: u8,
    pending: Vec<u8>,
    distances: Vec<i32>,
    qualities: Vec<i32>,
    errors: u64,
}

impl View for Decoder {
    type V = DecoderView;

    closed spec fn view(&self) -> DecoderView {
        DecoderView {
            state: self.state,
            index: self.index,
            pending: self.pending@,
            distances: self.distances@,
            qualities: self.qualities@,
            errors: self.errors as nat,
        }
    }
}

impl Decoder {
    /// The invariant that every decoder made by this crate keeps.
    pub open spec fn wf(&self) -> bool {
        self@.wf()
    }

    /// Makes a decoder that has seen nothing yet.
    pub fn new() -> (d: Decoder)
        ensures
            d.wf(),
            d@ == DecoderView::initial(),
    {
        let d = Decoder {
            state: SyncState::WaitForStart,
            index: 0,
            pending: Vec::new(),
            distances: vec![UNAVAILABLE; SLOT_COUNT],
            qualities: vec![UNAVAILABLE; SLOT_COUNT],
            errors: 0,
        };
        assert(d@.distances =~= DecoderView::initial().distances);
        assert(d@.qualities =~= DecoderView::initial().qualities);
        assert(d@.pending =~= DecoderView::initial().pending);
        d
    }

    /// The synchronisation state.
    pub fn state(&self) -> (r: SyncState)
        ensures
            r == self@.state,
    {
        self.state
    }

    /// Index of the frame read last or being read.
    pub fn index(&self) -> (r: u8)
        ensures
            r == self@.index,
    {
        self.index
    }

    /// Number of frames rejected for their checksum so far.
    pub fn error_count(&self) -> (r: u64)
        ensures
            r == self@.errors,
    {
        self.errors
    }

    /// The distance buffer, one slot per degree.
    pub fn distances(&self) -> (r: &[i32])
        ensures
            r@ == self@.distances,
    {
        self.distances.as_slice()
    }

    /// The quality buffer, one slot per degree.
    pub fn qualities(&self) -> (r: &[i32])
        ensures
            r@ == self@.qualities,
    {
        self.qualities.as_slice()
    }

    /// Distance and quality at `angle` degrees, or `None` if there is no
    /// such slot.
    pub fn measurement(&self, angle: usize) -> (r: Option<(i32, i32)>)
        requires
            self.wf(),
        ensures
            r == if angle < SLOT_COUNT {
                Some((self@.distances[angle as int], self@.qualities[angle as int]))
            } else {
                None
            },
    {
        if angle < SLOT_COUNT {
            Some((self.distances[angle], self.qualities[angle]))
        } else {
            None
        }
    }

    /// How many bytes the next read on the byte source should ask for.
    pub fn read_len(&self) -> (r: usize)
        requires
            self.wf(),
        ensures
            r == self@.read_len(),
            1 <= r <= 4,
            self@.state == SyncState::ReadPacket ==> self@.pending.len() + r <= BODY_LEN,
    {
        match self.state {
            SyncState::ReadPacket => {
                let have: usize = self.pending.len();
                if have < 2 {
                    2 - have
                } else if have < 6 {
                    6 - have
                } else if have < 10 {
                    10 - have
                } else if have < 14 {
                    14 - have
                } else if have < 18 {
                    18 - have
                } else {
                    20 - have
                }
            },
            _ => 1,
        }
    }

    /// Renders the record of the buffer as it stands, stamped with
    /// `timestamp`.
    pub fn record(&self, timestamp: &str) -> (r: String)
        ensures
            r@ == record_text(timestamp@, self@.distances, self@.qualities),
    {
        format_record(timestamp, self.distances.as_slice(), self.qualities.as_slice())
    }

    /// Renders the record of the buffer as it stands, stamped with the
    /// current time in UTC. The system clock must not read a time before
    /// 1970.
    pub fn record_now(&self) -> (r: String)
        ensures
            exists|timestamp: Seq<char>|
                r@ == #[trigger] record_text(timestamp, self@.distances, self@.qualities),
    {
        let r = format_record_now(self.distances.as_slice(), self.qualities.as_slice());
        proof {
            let timestamp = choose|timestamp: Seq<char>|
                r@ == #[trigger] record_text(timestamp, self.distances@, self.qualities@);
            assert(r@ == record_text(timestamp, self@.distances, self@.qualities));
        }
        r
    }

    /// Stores the outcome of the frame whose body is complete in `pending`.
    fn accept_pending(&mut self) -> (event: FrameEvent)
        requires
            old(self).index < FRAME_COUNT,
            old(self).pending@.len() == BODY_LEN,
            old(self).distances@.len() == SLOT_COUNT,
            old(self).qualities@.len() == SLOT_COUNT,
            old(self).errors < u64::MAX,
        ensures
            final(self).wf(),
            final(self)@ == old(self)@.accept(old(self).pending@),
            event == (FrameEvent {
                index: old(self).index,
                valid: body_is_valid(old(self).index, old(self).pending@),
                revolution_complete: old(self).index == FRAME_COUNT - 1,
            }),
    {
        let ghost body = self.pending@;
        let ghost before = self@;
        let body_slice = self.pending.as_slice();
        let valid = verify_body(self.index, body_slice);
        let mut d: [i32; 4] = [UNAVAILABLE; 4];
        let mut q: [i32; 4] = [UNAVAILABLE; 4];
        if valid {
            let m0 = parse_data_packet(&body_slice[2..6]);
            let m1 = parse_data_packet(&body_slice[6..10]);
            let m2 = parse_data_packet(&body_slice[10..14]);
            let m3 = parse_data_packet(&body_slice[14..18]);
            d = [m0.0, m1.0, m2.0, m3.0];
            q = [m0.1, m1.1, m2.1, m3.1];
        } else {
            self.errors = self.errors + 1;
        }
        let base: usize = (self.index as usize) * 4;
        self.distances.set(base, d[0]);
        self.distances.set(base + 1, d[1]);
        self.distances.set(base + 2, d[2]);
        self.distances.set(base + 3, d[3]);
        self.qualities.set(base, q[0]);
        self.qualities.set(base + 1, q[1]);
        self.qualities.set(base + 2, q[2]);
        self.qualities.set(base + 3, q[3]);
        self.pending.clear();
        self.state = SyncState::WaitForStart;
        proof {
            let after = before.accept(body);
            assert(self@.distances =~= after.distances);
            assert(self@.qualities =~= after.qualities);
            assert(self@.pending =~= after.pending);
        }
        FrameEvent { index: self.index, valid, revolution_complete: self.index == FRAME_COUNT - 1 }
    }

    /// Takes one more byte of the stream. Reports the frame that the byte
    /// completes, if it completes one.
    pub fn advance(&mut self, byte: u8) -> (event: Option<FrameEvent>)
        requires
            old(self).wf(),
            old(self)@.errors < u64::MAX,
        ensures
            final(self).wf(),
            final(self)@ == old(self)@.on_byte(byte),
            event == old(self)@.event(byte),
    {
        match self.state {
            SyncState::WaitForStart => {
                if byte == START_MARKER {
                    self.state = SyncState::WaitForIndex;
                }
                None
            },
            SyncState::WaitForIndex => {
                if byte >= INDEX_FIRST && byte <= INDEX_LAST {
                    self.index = byte - INDEX_FIRST;
                    self.state = SyncState::ReadPacket;
                } else if byte != START_MARKER {
                    self.state = SyncState::WaitForStart;
                }
                None
            },
            SyncState::ReadPacket => {
                self.pending.push(byte);
                if self.pending.len() < BODY_LEN {
                    None
                } else {
                    Some(self.accept_pending())
                }
            },
        }
    }
}

} // verus!
