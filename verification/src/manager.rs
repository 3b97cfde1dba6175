//! Round-robin polling of registered bus devices: building each outbound
//! frame, interpreting each bus attempt with bounded retries, classifying
//! device health from the outcome, and marking failing devices into
//! backoff.
//!
//! The bus I/O itself and the timing sleeps live with the caller, which
//! drives one poll as: ask [`SerialManager::prepare_poll`] for the frame,
//! run up to three bus attempts through a [`PollSession`], and hand the
//! final outcome to [`SerialManager::finish_poll`].

use vstd::prelude::*;

use crate::backoff::{spec_entry, spec_mark_entry, spec_visit_entry, BackoffEntry, BackoffState};
use crate::bus::ReadError;
use crate::message::{
    clone_response, spec_deserialise_unchecked, DeliveryError, MessageView, SerialMessage,
};

verus! {

/// The reply command a device returns when the last outbound message was
/// corrupted or not understood by the device.
pub const LAST_MESSAGE_BAD_CHECKSUM_REPLY_COMMAND: u8 = 0xF2;

/// What the manager requires of any device on the bus: it produces the
/// next outbound command and payload, and digests the outcome of each
/// poll. `ready` is the device's own well-formedness; both calls keep it.
pub trait SerialDevice {
    /// The device's own well-formedness.
    spec fn ready(&self) -> bool;

    /// The next outbound command and payload for this device.
    fn next_message(&mut self) -> (r: (u8, Option<Vec<u8>>))
        requires
            old(self).ready(),
        ensures
            final(self).ready(),
    ;

    /// Deliver the outcome of one poll of this device.
    fn receive_update(&mut self, update: Result<SerialMessage, DeliveryError>)
        requires
            old(self).ready(),
        ensures
            final(self).ready(),
    ;
}

/// The manager's view of a device's health.
#[derive(Clone, Copy, Debug, PartialEq, Eq, Structural)]
pub enum DeviceStatus {
    Offline,
    OnlineOK,
    OnlineCorruptReplies,
    Unknown,
}

/// A registered device with its health record.
pub struct DeviceState<D: SerialDevice> {
    pub device: D,
    pub status: DeviceStatus,
    pub failures: u16,
}

impl<D: SerialDevice> DeviceState<D> {
    /// A fresh record: health unknown, no failures yet.
    pub fn new(device: D) -> (r: DeviceState<D>)
        requires
            device.ready(),
        ensures
            r.device == device,
            r.status == DeviceStatus::Unknown,
            r.failures == 0,
    {
        DeviceState { device, status: DeviceStatus::Unknown, failures: 0 }
    }
}

/// The health record after one poll outcome: success wipes the failure
/// count; an error counts it up (saturating) and classifies the device as
/// offline on timeouts and bus faults, or as corrupting replies when data
/// arrived but could not be trusted.
pub open spec fn spec_next_health(failures: u16, outcome: Result<MessageView, DeliveryError>) -> (
    u16,
    DeviceStatus,
) {
    match outcome {
        Ok(_) => (0u16, DeviceStatus::OnlineOK),
        Err(e) => (
            if failures < 0xFFFF {
                (failures + 1) as u16
            } else {
                failures
            },
            match e {
                // A bus-level fault cannot be pinned on this device with
                // certainty, but there is then a far bigger problem than
                // its health record; it is treated as offline.
                DeliveryError::Timeout | DeliveryError::BusError(_) => DeviceStatus::Offline,
                DeliveryError::CrcFailed | DeliveryError::DeserialisationError(_) => {
                    DeviceStatus::OnlineCorruptReplies
                },
            },
        ),
    }
}

/// The health record after a whole sequence of poll outcomes.
pub open spec fn spec_health_after(
    init: (u16, DeviceStatus),
    outs: Seq<Result<MessageView, DeliveryError>>,
) -> (u16, DeviceStatus)
    decreases outs.len(),
{
    if outs.len() == 0 {
        init
    } else {
        spec_next_health(spec_health_after(init, outs.drop_last()).0, outs.last())
    }
}

/// Health classification: after any non-empty sequence of outcomes, the
/// failure counter is zero exactly when the last outcome was a success,
/// and the status classifies the last outcome: online on success, offline
/// on a timeout or bus fault, corrupt-replies on a checksum or parse
/// failure.
pub proof fn lemma_health_classification(
    init: (u16, DeviceStatus),
    outs: Seq<Result<MessageView, DeliveryError>>,
)
    requires
        outs.len() >= 1,
    ensures
        ({
            let h = spec_health_after(init, outs);
            &&& (h.0 == 0 <==> outs.last() is Ok)
            &&& h.1 == match outs.last() {
                Ok(_) => DeviceStatus::OnlineOK,
                Err(e) => match e {
                    DeliveryError::Timeout | DeliveryError::BusError(_) => DeviceStatus::Offline,
                    DeliveryError::CrcFailed | DeliveryError::DeserialisationError(_) => {
                        DeviceStatus::OnlineCorruptReplies
                    },
                },
            }
        }),
{
}

/// One bus attempt interpreted at the delivery level: read errors are
/// mapped (no data at all reads as a timeout; too little data or a failed
/// checksum read as a corrupt reply; the rest stay bus errors), and a
/// successful read is parsed without a checksum, which the bus already
/// validated and stripped.
pub open spec fn spec_interpret_attempt(bus_result: Result<int, ReadError>, reply: Seq<u8>) -> Result<
    MessageView,
    DeliveryError,
> {
    match bus_result {
        Err(e) => Err(
            match e {
                ReadError::NoData => DeliveryError::Timeout,
                ReadError::Timeout => DeliveryError::Timeout,
                ReadError::CrcCheckFailed => DeliveryError::CrcFailed,
                ReadError::InsufficientData => DeliveryError::CrcFailed,
                other => DeliveryError::BusError(other),
            },
        ),
        Ok(n) => match spec_deserialise_unchecked(reply.subrange(0, n)) {
            Ok(m) => Ok(m),
            Err(e) => Err(DeliveryError::DeserialisationError(e)),
        },
    }
}

/// Whether an attempt's outcome warrants another attempt: every error
/// does, and so does a reply saying the device saw a bad checksum.
pub open spec fn spec_should_retry(r: Result<MessageView, DeliveryError>) -> bool {
    match r {
        Ok(m) => m.command == LAST_MESSAGE_BAD_CHECKSUM_REPLY_COMMAND,
        Err(_) => true,
    }
}

/// Interpret the raw result of one bus attempt.
pub fn interpret_attempt(bus_result: Result<usize, ReadError>, reply: &[u8]) -> (r: Result<
    SerialMessage,
    DeliveryError,
>)
    requires
        bus_result matches Ok(n) ==> n <= reply@.len(),
    ensures
        match r {
            Ok(m) => spec_interpret_attempt(result_as_int(bus_result), reply@) == Ok::<
                MessageView,
                DeliveryError,
            >(m@),
            Err(e) => spec_interpret_attempt(result_as_int(bus_result), reply@) == Err::<
                MessageView,
                DeliveryError,
            >(e),
        },
{
    match bus_result {
        Err(e) => Err(
            match e {
                ReadError::NoData => DeliveryError::Timeout,
                ReadError::Timeout => DeliveryError::Timeout,
                ReadError::CrcCheckFailed => DeliveryError::CrcFailed,
                ReadError::InsufficientData => DeliveryError::CrcFailed,
                other => DeliveryError::BusError(other),
            },
        ),
        Ok(n) => match SerialMessage::deserialise_unchecked(&reply[0..n]) {
            Ok(m) => Ok(m),
            Err(e) => Err(DeliveryError::DeserialisationError(e)),
        },
    }
}

/// A bus result with its payload length as a mathematical integer.
pub open spec fn result_as_int(r: Result<usize, ReadError>) -> Result<int, ReadError> {
    match r {
        Ok(n) => Ok(n as int),
        Err(e) => Err(e),
    }
}

/// Whether this outcome warrants another attempt.
pub fn should_retry(r: &Result<SerialMessage, DeliveryError>) -> (retry: bool)
    ensures
        retry == spec_should_retry(
            match r {
                Ok(m) => Ok(m@),
                Err(e) => Err(*e),
            },
        ),
{
    match r {
        Ok(reply) => reply.command == LAST_MESSAGE_BAD_CHECKSUM_REPLY_COMMAND,
        Err(_) => true,
    }
}

/// How many attempts one poll makes before giving up.
pub const POLL_ATTEMPTS: u8 = 3;

/// One step of a poll: try again, or stop with this final outcome.
pub enum PollStep {
    Retry,
    Done(Result<SerialMessage, DeliveryError>),
}

/// The retry state of one poll of one device: up to [`POLL_ATTEMPTS`] bus
/// attempts, stopping early on the first outcome that does not warrant a
/// retry.
pub struct PollSession {
    attempts_left: u8,
}

impl PollSession {
    /// Attempts not yet used.
    pub closed spec fn attempts_left(&self) -> u8 {
        self.attempts_left
    }

    /// A fresh poll with all attempts available.
    pub fn new() -> (r: PollSession)
        ensures
            r.attempts_left() == POLL_ATTEMPTS,
    {
        PollSession { attempts_left: POLL_ATTEMPTS }
    }

    /// Digest one bus attempt: retry while the outcome warrants it and
    /// attempts remain, else the poll is over with this outcome.
    pub fn on_attempt(&mut self, bus_result: Result<usize, ReadError>, reply: &[u8]) -> (r:
        PollStep)
        requires
            old(self).attempts_left() >= 1,
            bus_result matches Ok(n) ==> n <= reply@.len(),
        ensures
            final(self).attempts_left() == old(self).attempts_left() - 1,
            ({
                let outcome = spec_interpret_attempt(result_as_int(bus_result), reply@);
                if spec_should_retry(outcome) && old(self).attempts_left() > 1 {
                    r is Retry
                } else {
                    match r {
                        PollStep::Retry => false,
                        PollStep::Done(res) => match res {
                            Ok(m) => outcome == Ok::<MessageView, DeliveryError>(m@),
                            Err(e) => outcome == Err::<MessageView, DeliveryError>(e),
                        },
                    }
                }
            }),
    {
        let outcome = interpret_attempt(bus_result, reply);
        let retry = should_retry(&outcome);
        self.attempts_left = self.attempts_left - 1;
        if retry && self.attempts_left > 0 {
            PollStep::Retry
        } else {
            PollStep::Done(outcome)
        }
    }
}


/// The record for `id` is the same in both managers.
pub open spec fn health_unchanged<D: SerialDevice>(
    pre: &SerialManager<D>,
    post: &SerialManager<D>,
    id: u8,
) -> bool {
    &&& post.has(id)
    &&& post.failures_of(id) == pre.failures_of(id)
    &&& post.status_of(id) == pre.status_of(id)
}

/// The polling manager: the registered devices, in registration order,
/// with their health records, and the backoff table.
pub struct SerialManager<D: SerialDevice> {
    devices: Vec<(u8, DeviceState<D>)>,
    backoff: BackoffState,
}

impl<D: SerialDevice> SerialManager<D> {
    /// The registered device addresses, in registration order.
    pub closed spec fn ids(&self) -> Seq<u8> {
        self.devices@.map_values(|e: (u8, DeviceState<D>)| e.0)
    }

    /// Whether a device is registered under this address.
    pub closed spec fn has(&self, id: u8) -> bool {
        exists|i: int| 0 <= i < self.devices@.len() && #[trigger] self.devices@[i].0 == id
    }

    /// The index of the device registered under this address.
    pub closed spec fn index_of(&self, id: u8) -> int {
        choose|i: int| 0 <= i < self.devices@.len() && #[trigger] self.devices@[i].0 == id
    }

    /// The failure counter of the device at this address.
    pub closed spec fn failures_of(&self, id: u8) -> u16 {
        self.devices@[self.index_of(id)].1.failures
    }

    /// The health status of the device at this address.
    pub closed spec fn status_of(&self, id: u8) -> DeviceStatus {
        self.devices@[self.index_of(id)].1.status
    }

    /// The backoff table's contents.
    pub closed spec fn backoff_map(&self) -> Map<u8, BackoffEntry> {
        self.backoff@
    }

    /// Addresses are unique, the backoff table is well formed, and every
    /// registered device is ready.
    pub closed spec fn wf(&self) -> bool {
        &&& forall|i: int, j: int|
            0 <= i < j < self.devices@.len() ==> self.devices@[i].0 != self.devices@[j].0
        &&& self.backoff.wf()
        &&& forall|i: int|
            0 <= i < self.devices@.len() ==> #[trigger] self.devices@[i].1.device.ready()
    }

    /// A manager with no devices and an empty backoff table.
    pub fn new() -> (r: SerialManager<D>)
        ensures
            r.wf(),
            r.ids() == Seq::<u8>::empty(),
            forall|id: u8| !r.has(id),
            r.backoff_map() == Map::<u8, BackoffEntry>::empty(),
    {
        let r = SerialManager { devices: Vec::new(), backoff: BackoffState::new() };
        proof {
            assert(r.ids() =~= Seq::<u8>::empty());
        }
        r
    }

    /// The index of the record for `id`, if one exists.
    fn find(&self, id: u8) -> (r: Option<usize>)
        requires
            self.wf(),
        ensures
            match r {
                Some(i) => i < self.devices@.len() && self.devices@[i as int].0 == id
                    && self.has(id) && self.index_of(id) == i,
                None => !self.has(id),
            },
    {
        let mut j: usize = 0;
        while j < self.devices.len()
            invariant
                self.wf(),
                0 <= j <= self.devices@.len(),
                forall|t: int| 0 <= t < j ==> self.devices@[t].0 != id,
            decreases self.devices@.len() - j,
        {
            if self.devices[j].0 == id {
                proof {
                    assert forall|t: int|
                        0 <= t < self.devices@.len() && #[trigger] self.devices@[t].0
                            == id implies t == j by {
                        if t > j {
                            assert(self.devices@[j as int].0 != self.devices@[t].0);
                        }
                    }
                }
                return Some(j);
            }
            j = j + 1;
        }
        None
    }

    /// Register a device under an address that is not yet taken.
    pub fn register_device(&mut self, id: u8, device: D)
        requires
            old(self).wf(),
            !old(self).has(id),
            device.ready(),
        ensures
            final(self).wf(),
            final(self).ids() == old(self).ids().push(id),
            forall|x: u8| #[trigger] final(self).has(x) <==> old(self).has(x) || x == id,
            final(self).failures_of(id) == 0,
            final(self).status_of(id) == DeviceStatus::Unknown,
            final(self).backoff_map() == old(self).backoff_map(),
            forall|other: u8|
                other != id && old(self).has(other) ==> #[trigger] health_unchanged(
                    old(self),
                    final(self),
                    other,
                ),
    {
        let ghost s0 = self.devices@;
        self.devices.push((id, DeviceState::new(device)));
        proof {
            let s1 = self.devices@;
            assert(s1[s1.len() - 1].0 == id);
            assert(self.ids() =~= old(self).ids().push(id));
            assert(self.index_of(id) == s1.len() - 1);
            assert forall|x: u8| #[trigger] self.has(x) <==> old(self).has(x) || x == id by {
                if self.has(x) && x != id {
                    let t = choose|t: int| 0 <= t < s1.len() && #[trigger] s1[t].0 == x;
                    assert(s0[t].0 == x);
                }
                if old(self).has(x) {
                    let t = choose|t: int| 0 <= t < s0.len() && #[trigger] s0[t].0 == x;
                    assert(s1[t].0 == x);
                }
            }
            assert forall|other: u8| other != id && old(self).has(other) implies #[trigger] health_unchanged(old(self), self, other) by {
                let i = old(self).index_of(other);
                assert(s1[i].0 == other);
                assert(self.index_of(other) == i);
            }
        }
    }

    /// Count down the backoff record for `id` at the start of a polling
    /// cycle; `Some` means skip this device this cycle.
    pub fn visit_backoff(&mut self, id: u8) -> (r: Option<usize>)
        requires
            old(self).wf(),
        ensures
            final(self).wf(),
            final(self).ids() == old(self).ids(),
            r == spec_visit_entry(spec_entry(old(self).backoff_map(), id)).0,
            final(self).backoff_map() == match spec_visit_entry(
                spec_entry(old(self).backoff_map(), id),
            ).1 {
                Some(e) => old(self).backoff_map().insert(id, e),
                None => old(self).backoff_map().remove(id),
            },
            forall|other: u8|
                old(self).has(other) ==> #[trigger] health_unchanged(old(self), final(self), other),
    {
        self.backoff.visit_device(id)
    }

    /// Ask the device for its next message and frame it for the wire,
    /// without the checksum (the bus appends it on transmission).
    pub fn prepare_poll(&mut self, id: u8) -> (r: Vec<u8>)
        requires
            old(self).wf(),
            old(self).has(id),
        ensures
            final(self).wf(),
            final(self).ids() == old(self).ids(),
            final(self).backoff_map() == old(self).backoff_map(),
            forall|other: u8|
                old(self).has(other) ==> #[trigger] health_unchanged(old(self), final(self), other),
            r@.len() >= 2,
            r@[0] == id,
    {
        let ghost s0 = self.devices@;
        let i = match self.find(id) {
            Some(i) => i,
            None => vstd::pervasive::unreached(),
        };
        let entry = &mut self.devices[i];
        let (command, data) = entry.1.device.next_message();
        let msg = SerialMessage { recipient_address: id, command, additional_data: data };
        let r = msg.serialise_without_crc();
        proof {
            let s1 = self.devices@;
            assert(s1 =~= s0.update(i as int, s1[i as int]));
            assert(self.ids() =~= old(self).ids());
            assert forall|other: u8| old(self).has(other) implies #[trigger] health_unchanged(old(self), self, other) by {
                let t = old(self).index_of(other);
                assert(s1[t].0 == other);
                assert(self.index_of(other) == t);
            }
        }
        r
    }

    /// Deliver the final outcome of one poll to the device, update its
    /// health per [`spec_next_health`], and mark it into backoff when it
    /// went offline. Returns success exactly when the outcome was a reply.
    pub fn finish_poll(&mut self, id: u8, outcome: Result<SerialMessage, DeliveryError>) -> (r:
        Result<(), DeliveryError>)
        requires
            old(self).wf(),
            old(self).has(id),
        ensures
            final(self).wf(),
            final(self).ids() == old(self).ids(),
            ({
                let o = match outcome {
                    Ok(m) => Ok::<MessageView, DeliveryError>(m@),
                    Err(e) => Err::<MessageView, DeliveryError>(e),
                };
                let h = spec_next_health(old(self).failures_of(id), o);
                &&& final(self).failures_of(id) == h.0
                &&& final(self).status_of(id) == h.1
                &&& final(self).backoff_map() == if h.1 == DeviceStatus::Offline {
                    old(self).backoff_map().insert(
                        id,
                        spec_mark_entry(spec_entry(old(self).backoff_map(), id)),
                    )
                } else {
                    old(self).backoff_map()
                }
            }),
            forall|other: u8|
                other != id && old(self).has(other) ==> #[trigger] health_unchanged(
                    old(self),
                    final(self),
                    other,
                ),
            match outcome {
                Ok(_) => r == Ok::<(), DeliveryError>(()),
                Err(e) => r == Err::<(), DeliveryError>(e),
            },
    {
        let ghost s0 = self.devices@;
        let i = match self.find(id) {
            Some(i) => i,
            None => vstd::pervasive::unreached(),
        };
        let entry = &mut self.devices[i];
        entry.1.device.receive_update(clone_response(&outcome));
        let failures = entry.1.failures;
        let (new_failures, new_status) = match &outcome {
            Ok(_) => (0u16, DeviceStatus::OnlineOK),
            Err(e) => (
                if failures < 0xFFFF {
                    failures + 1
                } else {
                    failures
                },
                match e {
                    DeliveryError::Timeout | DeliveryError::BusError(_) => DeviceStatus::Offline,
                    DeliveryError::CrcFailed | DeliveryError::DeserialisationError(_) => {
                        DeviceStatus::OnlineCorruptReplies
                    },
                },
            ),
        };
        entry.1.failures = new_failures;
        entry.1.status = new_status;
        let is_offline = matches!(new_status, DeviceStatus::Offline);
        if is_offline {
            self.backoff.mark_device_backoff(id);
        }
        proof {
            let s1 = self.devices@;
            assert(s1 =~= s0.update(i as int, s1[i as int]));
            assert(self.ids() =~= old(self).ids());
            assert(s1[i as int].0 == id);
            assert(self.index_of(id) == i);
            assert forall|other: u8|
                other != id && old(self).has(other) implies #[trigger] health_unchanged(
                old(self),
                self,
                other,
            ) by {
                let t = old(self).index_of(other);
                assert(s1[t].0 == other);
                assert(self.index_of(other) == t);
            }
        }
        match outcome {
            Ok(_) => Ok(()),
            Err(e) => Err(e),
        }
    }

    /// The registered addresses, in registration order.
    pub fn device_ids(&self) -> (r: Vec<u8>)
        requires
            self.wf(),
        ensures
            r@ == self.ids(),
    {
        let mut out: Vec<u8> = Vec::new();
        let mut j: usize = 0;
        while j < self.devices.len()
            invariant
                0 <= j <= self.devices@.len(),
                out@ == self.devices@.map_values(|e: (u8, DeviceState<D>)| e.0).subrange(
                    0,
                    j as int,
                ),
            decreases self.devices@.len() - j,
        {
            out.push(self.devices[j].0);
            proof {
                let ids = self.devices@.map_values(|e: (u8, DeviceState<D>)| e.0);
                assert(ids.subrange(0, j as int).push(ids[j as int]) =~= ids.subrange(
                    0,
                    j as int + 1,
                ));
            }
            j = j + 1;
        }
        proof {
            let ids = self.devices@.map_values(|e: (u8, DeviceState<D>)| e.0);
            assert(ids.subrange(0, ids.len() as int) =~= ids);
        }
        out
    }

    /// The health status recorded for this address.
    pub fn device_status(&self, id: u8) -> (r: DeviceStatus)
        requires
            self.wf(),
            self.has(id),
        ensures
            r == self.status_of(id),
    {
        let i = match self.find(id) {
            Some(i) => i,
            None => vstd::pervasive::unreached(),
        };
        self.devices[i].1.status
    }

    /// The failure counter recorded for this address.
    pub fn device_failures(&self, id: u8) -> (r: u16)
        requires
            self.wf(),
            self.has(id),
        ensures
            r == self.failures_of(id),
    {
        let i = match self.find(id) {
            Some(i) => i,
            None => vstd::pervasive::unreached(),
        };
        self.devices[i].1.failures
    }
}

} // verus!
