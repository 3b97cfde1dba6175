//! Parsed bus messages and their wire encoding.
//!
//! A framed message on the wire is `recipient_address | command | data... |
//! crc`, where the checksum covers everything before it. The parsed form
//! keeps no checksum: it is validated and stripped at the boundary.

use vstd::prelude::*;

use crate::crc::{galaxy_crc_spec, with_crc, GalaxyCRC};

verus! {

/// A parsed bus message: recipient, command opcode and optional payload.
#[derive(Debug)]
pub struct SerialMessage {
    pub recipient_address: u8,
    pub command: u8,
    pub additional_data: Option<Vec<u8>>,
}

/// The mathematical value of a [`SerialMessage`].
pub ghost struct MessageView {
    pub recipient_address: u8,
    pub command: u8,
    pub additional_data: Option<Seq<u8>>,
}

impl View for SerialMessage {
    type V = MessageView;

    open spec fn view(&self) -> MessageView {
        MessageView {
            recipient_address: self.recipient_address,
            command: self.command,
            additional_data: match self.additional_data {
                Some(d) => Some(d@),
                None => None,
            },
        }
    }
}

/// The wire bytes of a message before the checksum is appended.
pub open spec fn spec_serialise_without_crc(m: MessageView) -> Seq<u8> {
    match m.additional_data {
        Some(d) => seq![m.recipient_address, m.command] + d,
        None => seq![m.recipient_address, m.command],
    }
}

/// The full wire bytes of a message, checksum included.
pub open spec fn spec_serialise(m: MessageView) -> Seq<u8> {
    with_crc(spec_serialise_without_crc(m))
}

/// Why a byte sequence could not be parsed into a message.
#[derive(Clone, Copy, Debug, PartialEq, Eq, Structural)]
pub enum DeserialisationError {
    MissingRecipient,
    MissingCommand,
    MissingCrc,
    CrcFailed,
}

/// Parsing bytes that carry no checksum: the first two bytes are recipient
/// and command, the rest (if any) is the payload.
pub open spec fn spec_deserialise_unchecked(d: Seq<u8>) -> Result<
    MessageView,
    DeserialisationError,
> {
    if d.len() == 0 {
        Err(DeserialisationError::MissingRecipient)
    } else if d.len() == 1 {
        Err(DeserialisationError::MissingCommand)
    } else {
        Ok(
            MessageView {
                recipient_address: d[0],
                command: d[1],
                additional_data: if d.len() > 2 {
                    Some(d.skip(2))
                } else {
                    None
                },
            },
        )
    }
}

/// Parsing a full frame: too-short inputs are rejected, the final byte must
/// be the checksum of everything before it, and the rest parses as above.
pub open spec fn spec_deserialise(d: Seq<u8>) -> Result<MessageView, DeserialisationError> {
    if d.len() == 0 {
        Err(DeserialisationError::MissingRecipient)
    } else if d.len() == 2 {
        Err(DeserialisationError::MissingCrc)
    } else {
        match spec_deserialise_unchecked(d.drop_last()) {
            Err(e) => Err(e),
            Ok(m) => if galaxy_crc_spec(spec_serialise_without_crc(m)) != d.last() {
                Err(DeserialisationError::CrcFailed)
            } else {
                Ok(m)
            },
        }
    }
}

impl Clone for SerialMessage {
    /// A clone carries the same mathematical value.
    fn clone(&self) -> (r: Self)
        ensures
            r@ == self@,
    {
        SerialMessage {
            recipient_address: self.recipient_address,
            command: self.command,
            additional_data: match &self.additional_data {
                Some(d) => Some(clone_bytes(d)),
                None => None,
            },
        }
    }
}

/// Copy a byte vector element by element.
pub fn clone_bytes(v: &Vec<u8>) -> (r: Vec<u8>)
    ensures
        r@ == v@,
{
    let mut out: Vec<u8> = Vec::new();
    let mut i: usize = 0;
    while i < v.len()
        invariant
            0 <= i <= v@.len(),
            out@ == v@.subrange(0, i as int),
        decreases v@.len() - i,
    {
        out.push(v[i]);
        i = i + 1;
    }
    proof {
        assert(v@.subrange(0, v@.len() as int) =~= v@);
    }
    out
}

impl GalaxyCRC for SerialMessage {
    open spec fn crc_view(&self) -> Seq<u8> {
        spec_serialise_without_crc(self@)
    }

    fn galaxy_crc(&self) -> (r: u8) {
        let header: Vec<u8> = vec![self.recipient_address, self.command];
        let mut vs: Vec<&[u8]> = Vec::new();
        vs.push(header.as_slice());
        if let Some(d) = self.additional_data.as_ref() {
            vs.push(d.as_slice());
        }
        let r = crate::crc::galaxy_crc_vectored(vs.as_slice());
        proof {
            let parts = vs@.map_values(|v: &[u8]| v@);
            let empty = Seq::<Seq<u8>>::empty();
            assert(crate::crc::concat_bytes(empty) == Seq::<u8>::empty());
            if self.additional_data is Some {
                let d = self@.additional_data.unwrap();
                assert(parts.len() == 2);
                assert(parts[0] == header@ && parts[1] == d);
                let rest = parts.drop_first();
                assert(rest.drop_first() =~= empty);
                assert(crate::crc::concat_bytes(rest) == rest[0] + crate::crc::concat_bytes(
                    rest.drop_first(),
                ));
                assert(crate::crc::concat_bytes(parts) == parts[0] + crate::crc::concat_bytes(
                    rest,
                ));
                assert(crate::crc::concat_bytes(parts) =~= spec_serialise_without_crc(self@));
            } else {
                assert(parts.len() == 1);
                assert(parts[0] == header@);
                assert(parts.drop_first() =~= empty);
                assert(crate::crc::concat_bytes(parts) == parts[0] + crate::crc::concat_bytes(
                    parts.drop_first(),
                ));
                assert(crate::crc::concat_bytes(parts) =~= spec_serialise_without_crc(self@));
            }
        }
        r
    }
}

impl SerialMessage {
    /// Serialise the message for the wire, appending the checksum.
    pub fn serialise(&self) -> (r: Vec<u8>)
        ensures
            r@ == spec_serialise(self@),
    {
        let mut serialised = self.serialise_without_crc();
        let crc = serialised.galaxy_crc();
        serialised.push(crc);
        serialised
    }

    /// Serialise the message without the trailing checksum.
    pub fn serialise_without_crc(&self) -> (r: Vec<u8>)
        ensures
            r@ == spec_serialise_without_crc(self@),
    {
        let mut serialised: Vec<u8> = vec![self.recipient_address, self.command];
        match &self.additional_data {
            Some(d) => {
                let mut i: usize = 0;
                while i < d.len()
                    invariant
                        0 <= i <= d@.len(),
                        serialised@ == seq![
                            self.recipient_address,
                            self.command,
                        ] + d@.subrange(0, i as int),
                    decreases d@.len() - i,
                {
                    serialised.push(d[i]);
                    proof {
                        assert(d@.subrange(0, i as int).push(d@[i as int]) =~= d@.subrange(
                            0,
                            i as int + 1,
                        ));
                    }
                    i = i + 1;
                }
                proof {
                    assert(d@.subrange(0, d@.len() as int) =~= d@);
                }
            },
            None => {},
        }
        serialised
    }

    /// Parse a full frame, validating and stripping the trailing checksum.
    pub fn deserialise(data: &[u8]) -> (r: Result<SerialMessage, DeserialisationError>)
        ensures
            match r {
                Ok(m) => spec_deserialise(data@) == Ok::<MessageView, DeserialisationError>(m@),
                Err(e) => spec_deserialise(data@) == Err::<MessageView, DeserialisationError>(e),
            },
    {
        if data.len() == 0 {
            return Err(DeserialisationError::MissingRecipient);
        }
        // Check this first, otherwise parsing the checksum-less prefix would
        // report a missing command when in reality it is the checksum that is
        // absent.
        if data.len() == 2 {
            return Err(DeserialisationError::MissingCrc);
        }
        proof {
            assert(data@.subrange(0, data@.len() - 1) =~= data@.drop_last());
        }
        let msg = match Self::deserialise_unchecked(&data[0..data.len() - 1]) {
            Ok(m) => m,
            Err(e) => {
                return Err(e);
            },
        };
        let crc = data[data.len() - 1];
        if msg.galaxy_crc() != crc {
            Err(DeserialisationError::CrcFailed)
        } else {
            Ok(msg)
        }
    }

    /// Parse bytes that carry no checksum byte at the end; if one were
    /// included it would be taken as part of the payload. Only the field
    /// lengths are checked.
    pub fn deserialise_unchecked(data: &[u8]) -> (r: Result<SerialMessage, DeserialisationError>)
        ensures
            match r {
                Ok(m) => spec_deserialise_unchecked(data@) == Ok::<
                    MessageView,
                    DeserialisationError,
                >(m@),
                Err(e) => spec_deserialise_unchecked(data@) == Err::<
                    MessageView,
                    DeserialisationError,
                >(e),
            },
    {
        if data.len() == 0 {
            return Err(DeserialisationError::MissingRecipient);
        }
        if data.len() == 1 {
            return Err(DeserialisationError::MissingCommand);
        }
        let recipient_address = data[0];
        let command = data[1];
        let mut additional_data: Vec<u8> = Vec::new();
        let mut i: usize = 2;
        while i < data.len()
            invariant
                2 <= i <= data@.len(),
                additional_data@ == data@.subrange(2, i as int),
            decreases data@.len() - i,
        {
            additional_data.push(data[i]);
            proof {
                assert(data@.subrange(2, i as int).push(data@[i as int]) =~= data@.subrange(
                    2,
                    i as int + 1,
                ));
            }
            i = i + 1;
        }
        proof {
            assert(data@.subrange(2, data@.len() as int) =~= data@.skip(2));
        }
        Ok(
            SerialMessage {
                recipient_address,
                command,
                additional_data: if additional_data.len() > 0 {
                    Some(additional_data)
                } else {
                    None
                },
            },
        )
    }
}

/// Serialising a message and parsing the bytes back yields the original
/// message, provided a present payload is non-empty; a message without
/// payload also round-trips, its parsed payload again absent. (An empty
/// payload cannot round-trip: the wire carries no length, so two header
/// bytes followed by the checksum parse back to "no payload".)
pub proof fn lemma_serialise_deserialise_round_trip(m: MessageView)
    requires
        m.additional_data matches Some(d) ==> d.len() >= 1,
    ensures
        spec_deserialise(spec_serialise(m)) == Ok::<MessageView, DeserialisationError>(m),
{
    let s = spec_serialise_without_crc(m);
    let w = spec_serialise(m);
    assert(w.drop_last() =~= s);
    assert(w.last() == galaxy_crc_spec(s));
    match m.additional_data {
        Some(d) => {
            assert(s.len() == 2 + d.len());
            assert(s.skip(2) =~= d);
        },
        None => {
            assert(s.len() == 2);
        },
    }
    assert(spec_deserialise_unchecked(s) == Ok::<MessageView, DeserialisationError>(m));
}

/// How a transaction against a device ultimately failed.
#[derive(Clone, Copy, Debug, PartialEq, Eq, Structural)]
pub enum DeliveryError {
    Timeout,
    CrcFailed,
    DeserialisationError(DeserialisationError),
    BusError(crate::bus::ReadError),
}

/// The final outcome of one transaction: a parsed reply or the error that
/// ended it.
pub type SerialResponseResult = Result<SerialMessage, DeliveryError>;

/// Copy a transaction outcome element by element.
pub fn clone_response(r: &SerialResponseResult) -> (c: SerialResponseResult)
    ensures
        match c {
            Ok(m) => r matches Ok(o) && o@ == m@,
            Err(e) => r matches Err(o) && o == e,
        },
{
    match r {
        Ok(m) => Ok(m.clone()),
        Err(e) => Err(*e),
    }
}

} // verus!
