//! Receive-side framing state machine for the wire frame codec.
//!
//! The receiver holds up to four bytes of an in-progress frame. A byte
//! with the start marker always begins a fresh frame (discarding any
//! partial progress); a continuation byte with no frame in progress is
//! dropped; the byte that completes five is decoded and the payload
//! emitted. This resynchronizes automatically after dropped or corrupted
//! bytes within one frame period.

use vstd::prelude::*;

verus! {

use crate::codec::{is_start_byte, spec_decode, spec_encode, unpack_keydata, lemma_frame_markers,
    lemma_codec_round_trip};

/// The bytes a receiver will hold after seeing byte `b` with `cur`
/// already stored: a start byte restarts the frame, a continuation byte
/// with nothing stored is dropped, the fifth byte resets the state, and
/// any other continuation byte is appended.
pub open spec fn next_partial(cur: Seq<u8>, b: u8) -> Seq<u8> {
    if is_start_byte(b) {
        seq![b]
    } else if cur.len() == 0 {
        cur
    } else if cur.len() == 4 {
        Seq::empty()
    } else {
        cur.push(b)
    }
}

/// The payload a receiver emits on seeing byte `b` with `cur` stored:
/// only a continuation byte that completes five bytes decodes a frame.
pub open spec fn frame_emitted(cur: Seq<u8>, b: u8) -> Option<u32> {
    if !is_start_byte(b) && cur.len() == 4 {
        Some(spec_decode(cur.push(b)))
    } else {
        None
    }
}

/// The emissions produced by feeding `bytes` in order to a receiver
/// holding `cur`: one entry per byte fed.
pub open spec fn run_emissions(cur: Seq<u8>, bytes: Seq<u8>) -> Seq<Option<u32>>
    decreases bytes.len(),
{
    if bytes.len() == 0 {
        Seq::empty()
    } else {
        seq![frame_emitted(cur, bytes[0])] + run_emissions(
            next_partial(cur, bytes[0]),
            bytes.drop_first(),
        )
    }
}

/// The framing state machine: a five-byte assembly buffer and the count
/// of bytes stored so far.
pub struct FrameReceiver {
    buffer: [u8; 5],
    fill: usize,
}

impl FrameReceiver {
    #[verifier::type_invariant]
    spec fn type_inv(self) -> bool {
        self.fill <= 4
    }

    /// The bytes of the in-progress frame stored so far.
    pub closed spec fn partial(&self) -> Seq<u8> {
        self.buffer@.take(self.fill as int)
    }

    /// A fresh receiver with no frame in progress.
    pub fn new() -> (r: Self)
        ensures
            r.partial() == Seq::<u8>::empty(),
    {
        let r = FrameReceiver { buffer: [0u8;5], fill: 0 };
        proof {
            assert(r.partial() =~= Seq::<u8>::empty());
        }
        r
    }

    /// Feed one received byte to the state machine; the byte that
    /// completes a five-byte frame yields its decoded payload.
    pub fn push_byte(&mut self, received: u8) -> (r: Option<u32>)
        ensures
            final(self).partial() == next_partial(old(self).partial(), received),
            r == frame_emitted(old(self).partial(), received),
    {
        proof {
            use_type_invariant(&*self);
        }
        if received & 0x80 == 0x80 {
            // A new start marker: any in-progress frame is corrupted, so
            // restart with this byte as the frame's first.
            self.buffer[0] = received;
            self.fill = 1;
            proof {
                assert(self.partial() =~= seq![received]);
            }
            None
        } else if self.fill == 0 {
            // A continuation byte cannot start a frame: drop it.
            None
        } else if self.fill == 4 {
            // Fifth byte: the frame is complete; decode and reset.
            self.buffer[4] = received;
            self.fill = 0;
            proof {
                assert(self.partial() =~= Seq::<u8>::empty());
                assert(self.buffer@ =~= old(self).partial().push(received));
            }
            Some(unpack_keydata(self.buffer))
        } else {
            self.buffer[self.fill] = received;
            self.fill = self.fill + 1;
            proof {
                assert(self.partial() =~= old(self).partial().push(received));
            }
            None
        }
    }
}

/// Resynchronization law: whatever bytes came before — that is, whatever
/// partial state `cur` they left behind — feeding one complete encoded
/// frame emits nothing on its first four bytes and exactly the frame's
/// payload on its fifth.
pub proof fn lemma_receiver_resync(cur: Seq<u8>, v: u32)
    ensures
        run_emissions(cur, spec_encode(v)) == seq![
            None::<u32>,
            None::<u32>,
            None::<u32>,
            None::<u32>,
            Some(v),
        ],
{
    lemma_frame_markers(v);
    lemma_codec_round_trip(v);
    let f = spec_encode(v);
    let s1 = next_partial(cur, f[0]);
    assert(s1 == seq![f[0]]);
    let s2 = next_partial(s1, f[1]);
    let s3 = next_partial(s2, f[2]);
    let s4 = next_partial(s3, f[3]);
    assert(s4 =~= seq![f[0], f[1], f[2], f[3]]);
    assert(s4.push(f[4]) =~= f);
    assert(frame_emitted(s4, f[4]) == Some(v));
    let rest1 = f.drop_first();
    let rest2 = rest1.drop_first();
    let rest3 = rest2.drop_first();
    let rest4 = rest3.drop_first();
    let rest5 = rest4.drop_first();
    assert(rest1[0] == f[1] && rest2[0] == f[2] && rest3[0] == f[3] && rest4[0] == f[4]);
    assert(rest5.len() == 0);
    assert(run_emissions(cur, f) == seq![frame_emitted(cur, f[0])] + run_emissions(s1, rest1));
    assert(run_emissions(s1, rest1) == seq![frame_emitted(s1, f[1])] + run_emissions(s2, rest2));
    assert(run_emissions(s2, rest2) == seq![frame_emitted(s2, f[2])] + run_emissions(s3, rest3));
    assert(run_emissions(s3, rest3) == seq![frame_emitted(s3, f[3])] + run_emissions(s4, rest4));
    assert(run_emissions(s4, rest4) == seq![frame_emitted(s4, f[4])] + run_emissions(
        next_partial(s4, f[4]),
        rest5,
    ));
    assert(run_emissions(next_partial(s4, f[4]), rest5) == Seq::<Option<u32>>::empty());
    assert(run_emissions(cur, f) =~= seq![
        None::<u32>,
        None::<u32>,
        None::<u32>,
        None::<u32>,
        Some(v),
    ]);
}

} // verus!
