//! Validation of raw reply frames read from the bus, and the bus timing
//! constants.
//!
//! The byte-level serial I/O itself lives outside this crate; the caller
//! hands the bytes it read to [`validate_reply`], which enforces the framing
//! rules: a reply must be at least three bytes, addressed to the panel, and
//! end in a valid checksum. The checksum is stripped for the caller.

use vstd::prelude::*;

use crate::crc::{crc_check_ok, galaxy_crc, galaxy_crc_spec};

verus! {

/// The identifier of the panel on the bus, the recipient of every reply.
pub const PANEL_ADDRESS: u8 = 0x11;

/// Milliseconds that must pass between transmissions on the bus to allow for
/// signal propagation.
pub const INTERPACKET_GAP_MS: u64 = 10;

/// Milliseconds after which a read of a device reply gives up.
pub const BUS_TIMEOUT_MS: u64 = 100;

/// How reading a reply from the bus failed.
#[derive(Clone, Copy, Debug, PartialEq, Eq, Structural)]
pub enum ReadError {
    /// The read deadline expired.
    Timeout,
    /// The read returned no bytes at all.
    NoData,
    /// Fewer than the three bytes of a minimal frame arrived.
    InsufficientData,
    /// The embedded checksum does not match the frame.
    CrcCheckFailed,
    /// The reply was addressed to some address other than the panel, which
    /// is likely indicative of a tamper or wiring fault.
    InvalidReplyRecipient(u8),
    /// The underlying port failed; the error object stays with the caller.
    IoError,
}

/// What [`validate_reply`] returns for a given raw reply: the number of
/// payload bytes (checksum stripped), or the first failed check in order
/// of no data, insufficient data, wrong recipient, bad checksum.
pub open spec fn spec_validate_reply(r: Seq<u8>) -> Result<int, ReadError> {
    if r.len() == 0 {
        Err(ReadError::NoData)
    } else if r.len() < 3 {
        Err(ReadError::InsufficientData)
    } else if r[0] != PANEL_ADDRESS {
        Err(ReadError::InvalidReplyRecipient(r[0]))
    } else if !crc_check_ok(r) {
        Err(ReadError::CrcCheckFailed)
    } else {
        Ok(r.len() - 1)
    }
}

/// Validate the first `bytes_read` bytes of a reply buffer as one frame and
/// return the payload length with the checksum stripped.
pub fn validate_reply(reply: &[u8], bytes_read: usize) -> (r: Result<usize, ReadError>)
    requires
        bytes_read <= reply@.len(),
    ensures
        match r {
            Ok(n) => spec_validate_reply(reply@.subrange(0, bytes_read as int)) == Ok::<
                int,
                ReadError,
            >(n as int),
            Err(e) => spec_validate_reply(reply@.subrange(0, bytes_read as int)) == Err::<
                int,
                ReadError,
            >(e),
        },
{
    let ghost frame = reply@.subrange(0, bytes_read as int);
    if bytes_read == 0 {
        return Err(ReadError::NoData);
    }
    if bytes_read < 3 {
        return Err(ReadError::InsufficientData);
    }
    if reply[0] != PANEL_ADDRESS {
        return Err(ReadError::InvalidReplyRecipient(reply[0]));
    }
    let crc = reply[bytes_read - 1];
    let expect = galaxy_crc(&reply[0..bytes_read - 1]);
    proof {
        assert(reply@.subrange(0, bytes_read - 1) =~= frame.drop_last());
        assert(frame.last() == reply@[bytes_read - 1]);
    }
    if crc != expect {
        return Err(ReadError::CrcCheckFailed);
    }
    Ok(bytes_read - 1)
}

/// Milliseconds the bus must stay quiet after transmitting a frame before a
/// reply is read: the inter-packet gap, one millisecond for the stop bit,
/// and ten milliseconds per byte of the frame and of its checksum.
pub fn response_delay_ms(frame_len: usize) -> (r: u64)
    requires
        frame_len <= 0xFFFF,
    ensures
        r == INTERPACKET_GAP_MS + 1 + 10 * (1 + frame_len),
{
    INTERPACKET_GAP_MS + 1 + 10 * (1 + frame_len as u64)
}

} // verus!
