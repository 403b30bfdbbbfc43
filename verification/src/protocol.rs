//! The wire protocol of one probe attempt.
//!
//! Each attempt sends a fixed four-byte magic marker and reads a
//! five-byte reply. A well-formed reply starts with the same marker and
//! ends in a status byte: `0x00` means the peer is healthy and expecting
//! the probe, `0x01` means it is healthy but not expecting one. Anything
//! else is a protocol mismatch.

use vstd::prelude::*;

use crate::retry::AttemptOutcome;

verus! {

/// The number of bytes in a reply: the marker plus one status byte.
pub const REPLY_LEN: usize = 5;

/// Status byte of a peer that is healthy and expecting the probe.
pub const STATUS_EXPECTING: u8 = 0x00;

/// Status byte of a peer that is healthy but not expecting the probe.
pub const STATUS_NOT_EXPECTING: u8 = 0x01;

/// The fixed four-byte magic marker that opens every attempt and that a
/// well-formed reply must echo.
pub open spec fn magic() -> Seq<u8> {
    seq![0x32u8, 0x7fu8, 0xfeu8, 0x4cu8]
}

/// The exact reply of a healthy peer that was expecting the probe.
pub open spec fn reply_expecting() -> Seq<u8> {
    magic().push(STATUS_EXPECTING)
}

/// The exact reply of a healthy peer that was not expecting the probe.
pub open spec fn reply_not_expecting() -> Seq<u8> {
    magic().push(STATUS_NOT_EXPECTING)
}

/// Builds the handshake message: the same marker bytes on every attempt.
pub fn handshake_message() -> (msg: Vec<u8>)
    ensures
        msg@ == magic(),
{
    let mut msg: Vec<u8> = Vec::new();
    msg.push(0x32);
    msg.push(0x7f);
    msg.push(0xfe);
    msg.push(0x4c);
    proof {
        assert(msg@ =~= magic());
    }
    msg
}

/// The shape of the bytes read back: either the marker was echoed and a
/// status byte followed, or the reply does not belong to this protocol.
#[derive(Clone, Copy, PartialEq, Eq, Structural, Debug)]
pub enum ReplyShape {
    /// A five-byte reply whose first four bytes are the magic marker;
    /// the field is its status byte.
    Matched(u8),
    /// Anything else: wrong length or wrong marker.
    Mismatched,
}

/// What [`parse_reply`] returns for any byte sequence.
pub open spec fn spec_parse_reply(bytes: Seq<u8>) -> ReplyShape {
    if bytes.len() == REPLY_LEN && bytes.subrange(0, 4) == magic() {
        ReplyShape::Matched(bytes[4])
    } else {
        ReplyShape::Mismatched
    }
}

/// Splits a reply into marker check and status byte: the marker must be
/// echoed exactly and the length must be exactly [`REPLY_LEN`].
pub fn parse_reply(reply: &[u8]) -> (shape: ReplyShape)
    ensures
        shape == spec_parse_reply(reply@),
{
    if reply.len() != REPLY_LEN {
        return ReplyShape::Mismatched;
    }
    if reply[0] == 0x32 && reply[1] == 0x7f && reply[2] == 0xfe && reply[3] == 0x4c {
        proof {
            assert(reply@.subrange(0, 4) =~= magic());
        }
        ReplyShape::Matched(reply[4])
    } else {
        proof {
            assert(reply@.subrange(0, 4)[0] == reply@[0]);
            assert(reply@.subrange(0, 4)[1] == reply@[1]);
            assert(reply@.subrange(0, 4)[2] == reply@[2]);
            assert(reply@.subrange(0, 4)[3] == reply@[3]);
            assert(reply@.subrange(0, 4) != magic());
        }
        ReplyShape::Mismatched
    }
}

/// What [`classify_reply`] returns for any byte sequence: the two
/// healthy replies map to the two success outcomes, everything else is
/// an invalid response.
pub open spec fn spec_classify(bytes: Seq<u8>) -> AttemptOutcome {
    match spec_parse_reply(bytes) {
        ReplyShape::Matched(status) => {
            if status == STATUS_EXPECTING {
                AttemptOutcome::Success
            } else if status == STATUS_NOT_EXPECTING {
                AttemptOutcome::SuccessUnexpected
            } else {
                AttemptOutcome::InvalidResponse
            }
        },
        ReplyShape::Mismatched => AttemptOutcome::InvalidResponse,
    }
}

/// Classifies the bytes read back from the peer. Never yields a
/// connection failure: those arise before any bytes can be classified.
pub fn classify_reply(reply: &[u8]) -> (outcome: AttemptOutcome)
    ensures
        outcome == spec_classify(reply@),
{
    match parse_reply(reply) {
        ReplyShape::Matched(status) => {
            if status == STATUS_EXPECTING {
                AttemptOutcome::Success
            } else if status == STATUS_NOT_EXPECTING {
                AttemptOutcome::SuccessUnexpected
            } else {
                AttemptOutcome::InvalidResponse
            }
        },
        ReplyShape::Mismatched => AttemptOutcome::InvalidResponse,
    }
}

/// Law: the classification recognises exactly the two healthy replies.
/// A reply classifies as `Success` precisely when it is the marker
/// followed by the expecting-status byte, as `SuccessUnexpected`
/// precisely when it is the marker followed by the not-expecting-status
/// byte, and as `InvalidResponse` in every other case; classification
/// never yields a connection failure.
pub proof fn lemma_classify_characterization(bytes: Seq<u8>)
    ensures
        spec_classify(bytes) == AttemptOutcome::Success <==> bytes == reply_expecting(),
        spec_classify(bytes) == AttemptOutcome::SuccessUnexpected <==> bytes
            == reply_not_expecting(),
        spec_classify(bytes) == AttemptOutcome::InvalidResponse <==> (bytes != reply_expecting()
            && bytes != reply_not_expecting()),
        !(spec_classify(bytes) matches AttemptOutcome::ConnectionFailure(_)),
{
    if bytes.len() == REPLY_LEN && bytes.subrange(0, 4) == magic() {
        assert(bytes[0] == magic()[0]) by {
            assert(bytes.subrange(0, 4)[0] == bytes[0]);
        }
        assert(bytes[1] == magic()[1]) by {
            assert(bytes.subrange(0, 4)[1] == bytes[1]);
        }
        assert(bytes[2] == magic()[2]) by {
            assert(bytes.subrange(0, 4)[2] == bytes[2]);
        }
        assert(bytes[3] == magic()[3]) by {
            assert(bytes.subrange(0, 4)[3] == bytes[3]);
        }
        if bytes[4] == STATUS_EXPECTING {
            assert(bytes =~= reply_expecting());
        } else if bytes[4] == STATUS_NOT_EXPECTING {
            assert(bytes =~= reply_not_expecting());
        } else {
            assert(bytes != reply_expecting()) by {
                assert(reply_expecting()[4] == STATUS_EXPECTING);
            }
            assert(bytes != reply_not_expecting()) by {
                assert(reply_not_expecting()[4] == STATUS_NOT_EXPECTING);
            }
        }
    } else {
        assert(bytes != reply_expecting() && bytes != reply_not_expecting()) by {
            if bytes == reply_expecting() || bytes == reply_not_expecting() {
                assert(bytes.len() == REPLY_LEN);
                assert(bytes.subrange(0, 4) =~= magic());
            }
        }
    }
}

} // verus!
