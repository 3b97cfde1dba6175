//! The LCD keypad device: desired and last-sent state, outbound command
//! selection by prioritised diff, and reply handling with tamper tracking,
//! key events and acknowledgement freshness flags.

use vstd::prelude::*;

use crate::display::{
    display_wf, spec_forced_update, spec_strategic_update, DisplayView, KeypadDisplayState,
};
use crate::message::{DeliveryError, MessageView, SerialMessage};

verus! {

/// The character each key code reports: the low nibble of an
/// acknowledgement-with-key payload indexes this table.
pub open spec fn spec_key_char(idx: u8) -> char {
    if idx == 0 {
        '0'
    } else if idx == 1 {
        '1'
    } else if idx == 2 {
        '2'
    } else if idx == 3 {
        '3'
    } else if idx == 4 {
        '4'
    } else if idx == 5 {
        '5'
    } else if idx == 6 {
        '6'
    } else if idx == 7 {
        '7'
    } else if idx == 8 {
        '8'
    } else if idx == 9 {
        '9'
    } else if idx == 10 {
        'B'
    } else if idx == 11 {
        'A'
    } else if idx == 12 {
        'E'
    } else if idx == 13 {
        'X'
    } else if idx == 14 {
        '*'
    } else {
        '#'
    }
}

/// Decode a key code (`"0123456789BAEX*#"` by index) to its character.
pub fn key_to_char(idx: u8) -> (r: char)
    requires
        idx < 16,
    ensures
        r == spec_key_char(idx),
{
    if idx == 0 {
        '0'
    } else if idx == 1 {
        '1'
    } else if idx == 2 {
        '2'
    } else if idx == 3 {
        '3'
    } else if idx == 4 {
        '4'
    } else if idx == 5 {
        '5'
    } else if idx == 6 {
        '6'
    } else if idx == 7 {
        '7'
    } else if idx == 8 {
        '8'
    } else if idx == 9 {
        '9'
    } else if idx == 10 {
        'B'
    } else if idx == 11 {
        'A'
    } else if idx == 12 {
        'E'
    } else if idx == 13 {
        'X'
    } else if idx == 14 {
        '*'
    } else {
        '#'
    }
}

/// The LCD backlight.
#[derive(Clone, Copy, Debug, PartialEq, Eq, Structural)]
pub enum Backlight {
    Off,
    On,
}

/// The wire encoding of a backlight setting.
pub open spec fn spec_backlight_code(b: Backlight) -> u8 {
    match b {
        Backlight::Off => 0x00,
        Backlight::On => 0x01,
    }
}

impl Backlight {
    /// The wire encoding of this setting.
    pub fn code(self) -> (r: u8)
        ensures
            r == spec_backlight_code(self),
    {
        match self {
            Backlight::Off => 0x00,
            Backlight::On => 0x01,
        }
    }
}

/// The keypad sounder: quiet, continuous, or beeping with the given on and
/// off times in tenths of a second.
#[derive(Clone, Copy, Debug, PartialEq, Eq, Structural)]
pub enum Beeper {
    Off,
    On,
    Intermittent { on_time: u8, off_time: u8 },
}

/// The three-byte wire encoding of a beeper setting: mode, on time, off
/// time (the times in tenths of a second, zero unless intermittent).
pub open spec fn spec_beeper_payload(b: Beeper) -> Seq<u8> {
    match b {
        Beeper::Off => seq![0x00u8, 0x00u8, 0x00u8],
        Beeper::On => seq![0x01u8, 0x00u8, 0x00u8],
        Beeper::Intermittent { on_time, off_time } => seq![0x03u8, on_time, off_time],
    }
}

impl Beeper {
    /// An intermittent beep from on and off times given in milliseconds;
    /// the device stores tenths of a second, so each must fit `0xFF`
    /// tenths.
    pub fn new_intermittent(on_time_ms: u64, off_time_ms: u64) -> (r: Beeper)
        requires
            on_time_ms <= 0xFF * 100,
            off_time_ms <= 0xFF * 100,
        ensures
            r == (Beeper::Intermittent {
                on_time: (on_time_ms / 100) as u8,
                off_time: (off_time_ms / 100) as u8,
            }),
    {
        Beeper::Intermittent {
            on_time: (on_time_ms / 100) as u8,
            off_time: (off_time_ms / 100) as u8,
        }
    }

    /// The wire encoding of this setting.
    pub fn payload(self) -> (r: Vec<u8>)
        ensures
            r@ == spec_beeper_payload(self),
    {
        let r: Vec<u8> = match self {
            Beeper::Off => vec![0x00, 0x00, 0x00],
            Beeper::On => vec![0x01, 0x00, 0x00],
            Beeper::Intermittent { on_time, off_time } => vec![0x03, on_time, off_time],
        };
        proof {
            assert(r@ =~= spec_beeper_payload(self));
        }
        r
    }
}

/// Whether the sounder chirps when a key is pressed.
#[derive(Clone, Copy, Debug, PartialEq, Eq, Structural)]
pub enum KeyClicks {
    Off,
    Quiet,
    Normal,
}

/// The wire encoding of a key-click setting.
pub open spec fn spec_key_clicks_code(k: KeyClicks) -> u8 {
    match k {
        KeyClicks::Off => 0x03,
        KeyClicks::Quiet => 0x05,
        KeyClicks::Normal => 0x01,
    }
}

impl KeyClicks {
    /// The wire encoding of this setting.
    pub fn code(self) -> (r: u8)
        ensures
            r == spec_key_clicks_code(self),
    {
        match self {
            KeyClicks::Off => 0x03,
            KeyClicks::Quiet => 0x05,
            KeyClicks::Normal => 0x01,
        }
    }
}

/// Everything the panel wants the keypad to show and do.
#[derive(Debug)]
pub struct State {
    /// LCD backlight.
    pub backlight: Backlight,
    /// Keypad sounder.
    pub beeper: Beeper,
    /// LED blink state (true = flash, false = steady). Sent as a flag of
    /// the screen command, but not part of the screen diff.
    pub blink: bool,
    /// Chirp when pressing keys.
    pub key_clicks: KeyClicks,
    /// Contents of the display.
    pub screen: KeypadDisplayState,
}

/// The mathematical value of a [`State`].
#[verifier::ext_equal]
pub ghost struct StateView {
    pub backlight: Backlight,
    pub beeper: Beeper,
    pub blink: bool,
    pub key_clicks: KeyClicks,
    pub screen: DisplayView,
}

impl View for State {
    type V = StateView;

    open spec fn view(&self) -> StateView {
        StateView {
            backlight: self.backlight,
            beeper: self.beeper,
            blink: self.blink,
            key_clicks: self.key_clicks,
            screen: self.screen@,
        }
    }
}

impl Clone for State {
    /// A clone carries the same mathematical value.
    fn clone(&self) -> (r: Self)
        ensures
            r@ == self@,
    {
        State {
            backlight: self.backlight,
            beeper: self.beeper,
            blink: self.blink,
            key_clicks: self.key_clicks,
            screen: self.screen.clone(),
        }
    }
}

impl Default for State {
    /// Everything off, with the boot banner on the screen.
    fn default() -> (r: Self)
        ensures
            r@.backlight == Backlight::Off,
            r@.beeper == Beeper::Off,
            r@.key_clicks == KeyClicks::Off,
            r@.blink == false,
            r@.screen == KeypadDisplayState::default_view(),
            display_wf(r@.screen),
    {
        State {
            backlight: Backlight::Off,
            beeper: Beeper::Off,
            key_clicks: KeyClicks::Off,
            screen: KeypadDisplayState::default(),
            blink: false,
        }
    }
}

/// A key press reported by the keypad.
#[derive(Clone, Copy, Debug, PartialEq, Eq)]
pub enum EventType {
    KeyPress(char),
}

/// An event published to keypad subscribers.
#[derive(Clone, Copy, Debug, PartialEq, Eq)]
pub struct Event(pub EventType);

/// A toggleable freshness flag: each query returns either `0x00` or the
/// constant `B` and flips for the next query. Commands that acknowledge
/// events carry it so the device can tell a fresh acknowledgement from a
/// retransmission.
#[derive(Debug)]
pub struct UpdateFlag<const B: u8>(pub bool);

impl<const B: u8> UpdateFlag<B> {
    /// Emit the flag's current value and flip it.
    pub fn get_toggle(&mut self) -> (r: u8)
        ensures
            final(self).0 == !old(self).0,
            r == if old(self).0 {
                B
            } else {
                0u8
            },
    {
        self.0 = !self.0;
        if self.0 {
            // It was clear; this emission reads as fresh value zero.
            0x0
        } else {
            B
        }
    }
}

/// A freshness flag's stored bit after `k` emissions, starting cleared.
pub open spec fn flag_after_toggles(k: nat) -> bool
    decreases k,
{
    if k == 0 {
        false
    } else {
        !flag_after_toggles((k - 1) as nat)
    }
}

/// Freshness bits alternate: on the `k`-th actual emission a flag that
/// started cleared puts `0x00` on the wire for odd `k` and its constant
/// (`0x80` for the screen flag, `0x02` for the key flag) for even `k`. A
/// candidate command that is not emitted queries no flag and leaves the bit
/// as it is, as the contracts of the emitting functions show.
pub proof fn lemma_freshness_bits_alternate(k: nat)
    requires
        k >= 1,
    ensures
        flag_after_toggles(k) == (k % 2 == 1),
        (if flag_after_toggles((k - 1) as nat) {
            0x80u8
        } else {
            0u8
        }) == if k % 2 == 1 {
            0u8
        } else {
            0x80u8
        },
        (if flag_after_toggles((k - 1) as nat) {
            0x02u8
        } else {
            0u8
        }) == if k % 2 == 1 {
            0u8
        } else {
            0x02u8
        },
    decreases k,
{
    if k > 1 {
        lemma_freshness_bits_alternate((k - 1) as nat);
        assert(flag_after_toggles(k) == !flag_after_toggles((k - 1) as nat));
        assert(flag_after_toggles((k - 1) as nat) == ((k - 1) % 2 == 1));
        assert(k % 2 == if (k - 1) % 2 == 1 {
            0int
        } else {
            1int
        }) by (nonlinear_arith)
            requires
                k >= 1,
        ;
    } else {
        assert(flag_after_toggles((k - 1) as nat) == false);
    }
}

/// A freshness bit toggles exactly when its command goes out on the wire:
/// one call of `next_message` flips the screen flag precisely when it emits
/// a screen update, and flips the key flag precisely when it emits a key
/// acknowledgement, whether standalone or riding along on a screen update.
/// A candidate command that is not emitted leaves its bit alone.
pub proof fn lemma_freshness_toggles_only_on_emission(k: KeypadView)
    ensures
        ({
            let (k2, cmd, _data) = spec_next_message(k);
            &&& (k2.updates.screen_update_flag.0 != k.updates.screen_update_flag.0 <==> cmd
                == 0x07)
            &&& (k2.updates.key_update_flag.0 != k.updates.key_update_flag.0 <==> (cmd == 0x0B
                || (cmd == 0x07 && k.updates.send_key_ack)))
        }),
{
}

/// The keypad's force-send booleans and freshness flags.
#[derive(Debug)]
pub struct KeypadUpdates {
    /// A key press awaits acknowledgement.
    pub send_key_ack: bool,
    /// Force-send flags for each subsystem, set when the device must be
    /// resynchronised regardless of diffs.
    pub send_backlight: bool,
    pub send_beeper: bool,
    pub send_key_clicks: bool,
    pub send_screen: bool,
    /// Freshness flag carried by screen updates.
    pub screen_update_flag: UpdateFlag<0x80>,
    /// Freshness flag carried by key acknowledgements.
    pub key_update_flag: UpdateFlag<0x02>,
}

impl Default for KeypadUpdates {
    /// Nothing forced, nothing pending, both freshness flags cleared.
    fn default() -> (r: Self)
        ensures
            r.send_key_ack == false,
            r.send_backlight == false,
            r.send_beeper == false,
            r.send_key_clicks == false,
            r.send_screen == false,
            r.screen_update_flag.0 == false,
            r.key_update_flag.0 == false,
    {
        KeypadUpdates {
            send_key_ack: false,
            send_backlight: false,
            send_beeper: false,
            send_key_clicks: false,
            send_screen: false,
            screen_update_flag: UpdateFlag(false),
            key_update_flag: UpdateFlag(false),
        }
    }
}

impl KeypadDisplayState {
    /// The boot banner as a mathematical value.
    pub open spec fn default_view() -> DisplayView {
        DisplayView {
            line0: crate::display::spec_boot_line0(),
            line1: crate::display::spec_boot_line1(),
            cursor_position: None,
            cursor_style: crate::display::CursorStyle::Hidden,
        }
    }
}

/// The command opcodes the panel sends to a keypad.
#[derive(Clone, Copy, Debug, PartialEq, Eq, Structural)]
pub enum Command {
    /// Brings the keypad into the system from its startup state, or back
    /// after it dropped off the bus.
    Initialise,
    /// General poll of the device state, used when nothing else needs to be
    /// sent.
    Ping,
    /// Updates the contents of the screen, partially or fully.
    Screen,
    /// Acknowledges receipt of the last button press.
    ButtonAck,
    /// Sets the sounder behaviour.
    Beeper,
    /// Sets the LCD backlight.
    Backlight,
    /// Sets whether key presses click.
    KeyClicks,
}

/// The wire opcode of each command.
pub open spec fn spec_command_code(c: Command) -> u8 {
    match c {
        Command::Initialise => 0x00,
        Command::Ping => 0x06,
        Command::Screen => 0x07,
        Command::KeyClicks => 0x19,
        Command::ButtonAck => 0x0B,
        Command::Beeper => 0x0C,
        Command::Backlight => 0x0D,
    }
}

impl Command {
    /// The wire opcode of this command.
    pub fn code(self) -> (r: u8)
        ensures
            r == spec_command_code(self),
    {
        match self {
            Command::Initialise => 0x00,
            Command::Ping => 0x06,
            Command::Screen => 0x07,
            Command::KeyClicks => 0x19,
            Command::ButtonAck => 0x0B,
            Command::Beeper => 0x0C,
            Command::Backlight => 0x0D,
        }
    }
}

/// The reply opcodes a keypad sends back to the panel.
#[derive(Clone, Copy, Debug, PartialEq, Eq, Structural)]
pub enum ReplyCommand {
    /// The keypad completed initialisation; carries a three-byte payload,
    /// possibly the firmware version.
    Initialised,
    /// Quiescent acknowledgement with nothing else to convey.
    Ack,
    /// Acknowledgement carrying tamper state and possibly a key press.
    AckWithKey,
    /// The keypad could not process the last message.
    BadChecksum,
}

/// A reply carried an opcode this crate does not know.
#[derive(Clone, Copy, Debug, PartialEq, Eq, Structural)]
pub struct InvalidReplyCommandByteError(pub u8);

impl ReplyCommand {
    /// The wire opcode of this reply.
    pub fn code(self) -> (r: u8)
        ensures
            r == match self {
                ReplyCommand::Initialised => 0xFFu8,
                ReplyCommand::Ack => 0xFEu8,
                ReplyCommand::AckWithKey => 0xF4u8,
                ReplyCommand::BadChecksum => 0xF2u8,
            },
    {
        match self {
            ReplyCommand::Initialised => 0xFF,
            ReplyCommand::Ack => 0xFE,
            ReplyCommand::AckWithKey => 0xF4,
            ReplyCommand::BadChecksum => 0xF2,
        }
    }

    /// Decode a reply opcode; anything outside the four known opcodes is an
    /// error carrying the offending byte.
    pub fn from_code(value: u8) -> (r: Result<ReplyCommand, InvalidReplyCommandByteError>)
        ensures
            r == match value {
                0xF2u8 => Ok::<ReplyCommand, InvalidReplyCommandByteError>(
                    ReplyCommand::BadChecksum,
                ),
                0xF4u8 => Ok::<ReplyCommand, InvalidReplyCommandByteError>(
                    ReplyCommand::AckWithKey,
                ),
                0xFEu8 => Ok::<ReplyCommand, InvalidReplyCommandByteError>(ReplyCommand::Ack),
                0xFFu8 => Ok::<ReplyCommand, InvalidReplyCommandByteError>(
                    ReplyCommand::Initialised,
                ),
                x => Err::<ReplyCommand, InvalidReplyCommandByteError>(
                    InvalidReplyCommandByteError(x),
                ),
            },
    {
        match value {
            0xF2 => Ok(ReplyCommand::BadChecksum),
            0xF4 => Ok(ReplyCommand::AckWithKey),
            0xFE => Ok(ReplyCommand::Ack),
            0xFF => Ok(ReplyCommand::Initialised),
            x => Err(InvalidReplyCommandByteError(x)),
        }
    }
}

/// The whole keypad device as a mathematical value.
#[verifier::ext_equal]
pub ghost struct KeypadView {
    pub state: StateView,
    pub last_state: Option<StateView>,
    pub tamper: bool,
    pub updates: KeypadUpdates,
    pub events: Seq<Event>,
}

/// The serial-side handler and state for an LCD keypad on the bus. The
/// device is online exactly while `last_state` is `Some`.
pub struct SerialKeypad {
    /// What the panel wants the keypad to show (the desired state).
    pub state: State,
    /// A snapshot of what was last sent to the device; `None` while the
    /// device is offline or uninitialised.
    pub last_state: Option<State>,
    /// The device reported a tamper condition.
    pub tamper: bool,
    /// Force-send booleans and freshness flags.
    pub updates: KeypadUpdates,
    /// Key events decoded from replies, awaiting collection by the
    /// subscriber plumbing.
    pub pending_events: Vec<Event>,
}

impl View for SerialKeypad {
    type V = KeypadView;

    open spec fn view(&self) -> KeypadView {
        KeypadView {
            state: self.state@,
            last_state: match self.last_state {
                Some(s) => Some(s@),
                None => None,
            },
            tamper: self.tamper,
            updates: KeypadUpdates {
                send_key_ack: self.updates.send_key_ack,
                send_backlight: self.updates.send_backlight,
                send_beeper: self.updates.send_beeper,
                send_key_clicks: self.updates.send_key_clicks,
                send_screen: self.updates.send_screen,
                screen_update_flag: UpdateFlag(self.updates.screen_update_flag.0),
                key_update_flag: UpdateFlag(self.updates.key_update_flag.0),
            },
            events: self.pending_events@,
        }
    }
}

/// The display-flags byte that prefixes every screen update: a constant
/// `0x01`, the screen freshness bit, the key acknowledgement (with its
/// freshness bit) when one rides along, and the blink flag.
pub open spec fn spec_display_flags(up: KeypadUpdates, blink: bool) -> u8 {
    0x01u8 | (if up.screen_update_flag.0 {
        0x80u8
    } else {
        0u8
    }) | (if up.send_key_ack {
        0x10u8 | (if up.key_update_flag.0 {
            0x02u8
        } else {
            0u8
        })
    } else {
        0u8
    }) | (if blink {
        0x08u8
    } else {
        0u8
    })
}

/// What one call of `next_message` does: the device state afterwards, the
/// command opcode, and its payload. An uninitialised keypad is always sent
/// `Initialise`; otherwise the first applicable branch of the strict
/// priority order backlight, beeper, key clicks, screen, key
/// acknowledgement, ping is taken, the force flag cleared, the relevant
/// field copied into the last-sent snapshot, and freshness flags toggled
/// exactly where their bit goes out on the wire.
pub open spec fn spec_next_message(k: KeypadView) -> (KeypadView, u8, Option<Seq<u8>>) {
    match k.last_state {
        None => (k, 0x00u8, Some(seq![0x0Eu8])),
        Some(last) => {
            let cur = k.state;
            let up = k.updates;
            if up.send_backlight || cur.backlight != last.backlight {
                (
                    KeypadView {
                        last_state: Some(StateView { backlight: cur.backlight, ..last }),
                        updates: KeypadUpdates { send_backlight: false, ..up },
                        ..k
                    },
                    0x0Du8,
                    Some(seq![spec_backlight_code(cur.backlight)]),
                )
            } else if up.send_beeper || cur.beeper != last.beeper {
                (
                    KeypadView {
                        last_state: Some(StateView { beeper: cur.beeper, ..last }),
                        updates: KeypadUpdates { send_beeper: false, ..up },
                        ..k
                    },
                    0x0Cu8,
                    Some(spec_beeper_payload(cur.beeper)),
                )
            } else if up.send_key_clicks || cur.key_clicks != last.key_clicks {
                (
                    KeypadView {
                        last_state: Some(StateView { key_clicks: cur.key_clicks, ..last }),
                        updates: KeypadUpdates { send_key_clicks: false, ..up },
                        ..k
                    },
                    0x19u8,
                    Some(seq![spec_key_clicks_code(cur.key_clicks)]),
                )
            } else if up.send_screen || cur.screen != last.screen || cur.blink != last.blink {
                let flags = spec_display_flags(up, cur.blink);
                let body = if up.send_screen {
                    spec_forced_update(cur.screen)
                } else {
                    spec_strategic_update(last.screen, cur.screen)
                };
                (
                    KeypadView {
                        last_state: Some(StateView { screen: cur.screen, blink: cur.blink, ..last }),
                        updates: KeypadUpdates {
                            send_screen: false,
                            send_key_ack: false,
                            screen_update_flag: UpdateFlag(!up.screen_update_flag.0),
                            key_update_flag: if up.send_key_ack {
                                UpdateFlag(!up.key_update_flag.0)
                            } else {
                                up.key_update_flag
                            },
                            ..up
                        },
                        ..k
                    },
                    0x07u8,
                    Some(seq![flags] + body),
                )
            } else if up.send_key_ack {
                (
                    KeypadView {
                        updates: KeypadUpdates {
                            send_key_ack: false,
                            key_update_flag: UpdateFlag(!up.key_update_flag.0),
                            ..up
                        },
                        ..k
                    },
                    0x0Bu8,
                    Some(seq![if up.key_update_flag.0 {
                        0x02u8
                    } else {
                        0u8
                    }]),
                )
            } else {
                (k, 0x06u8, None)
            }
        },
    }
}

/// What one call of `receive_update` does to the device state. Errors and
/// bad-checksum replies knock the device offline (the snapshot is dropped,
/// so the next poll re-initialises). A well-formed `Initialised` reply with
/// the expected firmware triplet brings an offline device online: the
/// desired state is snapshotted and every subsystem marked for resending.
/// Acknowledgements maintain the tamper flag; one that carries a key
/// publishes the key event and schedules the acknowledgement, unless an
/// acknowledgement is already pending, in which case the report is a
/// duplicate and is dropped. Malformed payloads and unknown opcodes change
/// nothing.
pub open spec fn spec_receive_update(
    k: KeypadView,
    m: Result<MessageView, DeliveryError>,
) -> KeypadView {
    match m {
        Err(_) => KeypadView { last_state: None, ..k },
        Ok(reply) => {
            if reply.command == 0xFF {
                match reply.additional_data {
                    Some(d) => if k.last_state is None && d.len() == 3 && d[0] == 0x08 && d[1]
                        == 0x00 && d[2] == 0x64 {
                        KeypadView {
                            last_state: Some(k.state),
                            tamper: false,
                            updates: KeypadUpdates {
                                send_backlight: true,
                                send_beeper: true,
                                send_key_clicks: true,
                                send_screen: true,
                                ..k.updates
                            },
                            ..k
                        }
                    } else {
                        k
                    },
                    None => k,
                }
            } else if reply.command == 0xFE {
                KeypadView { tamper: false, ..k }
            } else if reply.command == 0xF4 {
                match reply.additional_data {
                    Some(d) => if d.len() == 1 {
                        let b = d[0];
                        if b == 0x7F {
                            KeypadView { tamper: true, ..k }
                        } else if !k.updates.send_key_ack {
                            KeypadView {
                                tamper: b & 0x40 == 0x40,
                                updates: KeypadUpdates { send_key_ack: true, ..k.updates },
                                events: k.events.push(
                                    Event(EventType::KeyPress(spec_key_char(b & 0xF))),
                                ),
                                ..k
                            }
                        } else {
                            KeypadView { tamper: b & 0x40 == 0x40, ..k }
                        }
                    } else {
                        k
                    },
                    None => k,
                }
            } else if reply.command == 0xF2 {
                KeypadView { last_state: None, ..k }
            } else {
                k
            }
        },
    }
}

/// Compare two byte vectors.
fn eq_bytes(a: &Vec<u8>, b: &Vec<u8>) -> (r: bool)
    ensures
        r <==> a@ == b@,
{
    if a.len() != b.len() {
        return false;
    }
    let mut i: usize = 0;
    while i < a.len()
        invariant
            a@.len() == b@.len(),
            0 <= i <= a@.len(),
            forall|t: int| 0 <= t < i ==> a@[t] == b@[t],
        decreases a@.len() - i,
    {
        if a[i] != b[i] {
            return false;
        }
        i = i + 1;
    }
    proof {
        assert(a@ =~= b@);
    }
    true
}

/// Compare two display states.
fn eq_display(a: &KeypadDisplayState, b: &KeypadDisplayState) -> (r: bool)
    ensures
        r <==> a@ == b@,
{
    let lines_eq = eq_bytes(&a.lines[0], &b.lines[0]) && eq_bytes(&a.lines[1], &b.lines[1]);
    let cursor_eq = match (a.cursor_position, b.cursor_position) {
        (Option::None, Option::None) => true,
        (Option::Some(x), Option::Some(y)) => x == y,
        _ => false,
    };
    let style_eq = a.cursor_style == b.cursor_style;
    let r = lines_eq && cursor_eq && style_eq;
    proof {
        if r {
            assert(a@ =~= b@);
        }
    }
    r
}

impl SerialKeypad {
    /// The desired screen fits the 16-column display.
    pub open spec fn wf(&self) -> bool {
        display_wf(self@.state.screen)
    }

    /// A fresh keypad: default desired state, offline, no tamper, nothing
    /// pending.
    pub fn new() -> (r: SerialKeypad)
        ensures
            r@.state.backlight == Backlight::Off,
            r@.state.beeper == Beeper::Off,
            r@.state.key_clicks == KeyClicks::Off,
            r@.state.blink == false,
            r@.state.screen == KeypadDisplayState::default_view(),
            r@.last_state is None,
            r@.tamper == false,
            r@.updates.send_key_ack == false,
            r@.updates.send_backlight == false,
            r@.updates.send_beeper == false,
            r@.updates.send_key_clicks == false,
            r@.updates.send_screen == false,
            r@.updates.screen_update_flag.0 == false,
            r@.updates.key_update_flag.0 == false,
            r@.events == Seq::<Event>::empty(),
            r.wf(),
    {
        SerialKeypad {
            state: State::default(),
            last_state: None,
            tamper: false,
            updates: KeypadUpdates::default(),
            pending_events: Vec::new(),
        }
    }

    /// Whether the device currently reports tamper.
    pub fn is_tamper(&self) -> (r: bool)
        ensures
            r == self@.tamper,
    {
        self.tamper
    }

    /// Replace the desired state.
    pub fn set_state(&mut self, s: State)
        ensures
            final(self)@ == (KeypadView { state: s@, ..old(self)@ }),
    {
        self.state = s;
        proof {
            assert(self@ =~= (KeypadView { state: s@, ..old(self)@ }));
        }
    }

    /// Edit the desired state in place. The edit sees the current desired
    /// state and nothing else changes.
    pub fn mutate_state<F: FnOnce(State) -> State>(&mut self, f: F)
        requires
            f.requires((old(self).state,)),
        ensures
            f.ensures((old(self).state,), final(self).state),
            final(self)@ == (KeypadView { state: final(self).state@, ..old(self)@ }),
    {
        let mut s = State::default();
        core::mem::swap(&mut s, &mut self.state);
        self.state = f(s);
        proof {
            assert(self@ =~= (KeypadView { state: self.state@, ..old(self)@ }));
        }
    }

    /// Hand over the key events decoded so far, oldest first, clearing the
    /// queue.
    pub fn drain_events(&mut self) -> (r: Vec<Event>)
        ensures
            r@ == old(self)@.events,
            final(self)@ == (KeypadView { events: Seq::<Event>::empty(), ..old(self)@ }),
    {
        let mut out: Vec<Event> = Vec::new();
        core::mem::swap(&mut out, &mut self.pending_events);
        proof {
            assert(self@ =~= (KeypadView { events: Seq::<Event>::empty(), ..old(self)@ }));
        }
        out
    }

    /// Select the next outbound command for an initialised keypad, per the
    /// strict priority order of [`spec_next_message`].
    pub fn next_command(&mut self) -> (r: (Command, Option<Vec<u8>>))
        requires
            old(self).wf(),
            old(self).last_state is Some,
        ensures
            ({
                let (k2, cmd, data) = spec_next_message(old(self)@);
                &&& final(self)@ == k2
                &&& spec_command_code(r.0) == cmd
                &&& match r.1 {
                    Some(d) => data == Some(d@),
                    None => data is None,
                }
            }),
            final(self).wf(),
    {
        let ghost k = self@;
        // The state is updated optimistically as the command is issued: the
        // bus layer retries delivery, and an unsatisfactory reply resets
        // the whole snapshot anyway, at which point these partial updates
        // are immaterial.
        match &mut self.last_state {
            Some(last) => {
                if self.updates.send_backlight || !(self.state.backlight == last.backlight) {
                    self.updates.send_backlight = false;
                    last.backlight = self.state.backlight;
                    let r = (Command::Backlight, Some(vec![self.state.backlight.code()]));
                    proof {
                        assert(self@ =~= spec_next_message(k).0);
                    }
                    r
                } else if self.updates.send_beeper || !(self.state.beeper == last.beeper) {
                    self.updates.send_beeper = false;
                    last.beeper = self.state.beeper;
                    let r = (Command::Beeper, Some(self.state.beeper.payload()));
                    proof {
                        assert(self@ =~= spec_next_message(k).0);
                    }
                    r
                } else if self.updates.send_key_clicks || !(self.state.key_clicks
                    == last.key_clicks) {
                    self.updates.send_key_clicks = false;
                    last.key_clicks = self.state.key_clicks;
                    let r = (Command::KeyClicks, Some(vec![self.state.key_clicks.code()]));
                    proof {
                        assert(self@ =~= spec_next_message(k).0);
                    }
                    r
                } else if self.updates.send_screen || !eq_display(&self.state.screen, &last.screen)
                    || !(self.state.blink == last.blink) {
                    let send_screen = self.updates.send_screen;
                    let ack_rides_along = self.updates.send_key_ack;
                    let display_flags = 0x01 | self.updates.screen_update_flag.get_toggle() | (
                    if ack_rides_along {
                        self.updates.send_key_ack = false;
                        0x10 | self.updates.key_update_flag.get_toggle()
                    } else {
                        0
                    }) | (if self.state.blink {
                        0x08
                    } else {
                        0
                    });
                    let mut data: Vec<u8> = vec![display_flags];
                    let mut body = if send_screen {
                        // A forced send resynchronises with a full update,
                        // ruling out drift between this snapshot and the
                        // device's actual screen.
                        self.state.screen.forced_update()
                    } else {
                        self.state.screen.strategic_update(&last.screen)
                    };
                    data.append(&mut body);
                    self.updates.send_screen = false;
                    last.screen = self.state.screen.clone();
                    last.blink = self.state.blink;
                    proof {
                        assert(self@ =~= spec_next_message(k).0);
                        assert(data@ =~= spec_next_message(k).2.unwrap());
                    }
                    (Command::Screen, Some(data))
                } else if self.updates.send_key_ack {
                    self.updates.send_key_ack = false;
                    let flag = self.updates.key_update_flag.get_toggle();
                    let r = (Command::ButtonAck, Some(vec![flag]));
                    proof {
                        assert(self@ =~= spec_next_message(k).0);
                    }
                    r
                } else {
                    (Command::Ping, None)
                }
            },
            None => vstd::pervasive::unreached(),
        }
    }

    /// Whether the keypad is uninitialised (offline).
    pub fn is_offline(&self) -> (r: bool)
        ensures
            r == (self@.last_state is None),
    {
        self.last_state.is_none()
    }

    /// Produce the next outbound message for this device: `Initialise`
    /// while offline, else the prioritised diff of [`next_command`].
    pub fn next_message(&mut self) -> (r: (u8, Option<Vec<u8>>))
        requires
            old(self).wf(),
        ensures
            ({
                let (k2, cmd, data) = spec_next_message(old(self)@);
                &&& final(self)@ == k2
                &&& r.0 == cmd
                &&& match r.1 {
                    Some(d) => data == Some(d@),
                    None => data is None,
                }
            }),
            final(self).wf(),
    {
        if self.last_state.is_none() {
            (0x00, Some(vec![0x0E]))
        } else {
            let (command, data) = self.next_command();
            (command.code(), data)
        }
    }

    /// Digest the outcome of one poll, per [`spec_receive_update`].
    pub fn receive_update(&mut self, msg: Result<SerialMessage, DeliveryError>)
        requires
            old(self).wf(),
        ensures
            final(self)@ == spec_receive_update(
                old(self)@,
                match msg {
                    Ok(m) => Ok(m@),
                    Err(e) => Err(e),
                },
            ),
            final(self).wf(),
    {
        let ghost k = self@;
        match msg {
            Ok(reply) => {
                match ReplyCommand::from_code(reply.command) {
                    Ok(ReplyCommand::Initialised) => {
                        if self.last_state.is_some() {
                            // An initialise response for an already
                            // initialised keypad: nothing to do here.
                        } else {
                            match &reply.additional_data {
                                Some(d) => {
                                    if d.len() == 3 {
                                        if d[0] == 0x08 && d[1] == 0x00 && d[2] == 0x64 {
                                            // Snapshotting the desired state
                                            // cannot race an external edit:
                                            // the forced flags resend every
                                            // subsystem on the next polls.
                                            self.last_state = Some(self.state.clone());
                                            self.tamper = false;
                                            self.updates.send_backlight = true;
                                            self.updates.send_beeper = true;
                                            self.updates.send_key_clicks = true;
                                            self.updates.send_screen = true;
                                        }
                                    }
                                },
                                None => {},
                            }
                        }
                    },
                    Ok(ReplyCommand::Ack) => {
                        self.tamper = false;
                    },
                    Ok(ReplyCommand::AckWithKey) => {
                        match &reply.additional_data {
                            Some(d) => {
                                if d.len() == 1 {
                                    let b = d[0];
                                    if b == 0x7F {
                                        self.tamper = true;
                                    } else {
                                        self.tamper = b & 0x40 == 0x40;
                                        // A pending acknowledgement means a
                                        // reported key is a duplicate: no
                                        // acknowledgement has yet been sent,
                                        // so the event is dropped.
                                        if !self.updates.send_key_ack {
                                            let idx = b & 0xF;
                                            proof {
                                                assert(idx < 16) by (bit_vector)
                                                    requires
                                                        idx == b & 0xF,
                                                ;
                                            }
                                            let key_press = key_to_char(idx);
                                            self.updates.send_key_ack = true;
                                            self.pending_events.push(
                                                Event(EventType::KeyPress(key_press)),
                                            );
                                        }
                                    }
                                }
                            },
                            None => {},
                        }
                    },
                    Ok(ReplyCommand::BadChecksum) => {
                        // The device did not understand the last message;
                        // it is taken offline and re-initialised.
                        self.last_state = None;
                    },
                    Err(_) => {
                        // Unknown reply opcode: logged by the caller, no
                        // state change.
                    },
                }
            },
            Err(_) => {
                // On a delivery error the device is marked offline and will
                // be re-initialised.
                self.last_state = None;
            },
        }
        proof {
            assert(self@ =~= spec_receive_update(
                k,
                match msg {
                    Ok(m) => Ok(m@),
                    Err(e) => Err(e),
                },
            ));
        }
    }
}

impl crate::manager::SerialDevice for SerialKeypad {
    /// The desired screen fits the display.
    open spec fn ready(&self) -> bool {
        self.wf()
    }

    fn next_message(&mut self) -> (r: (u8, Option<Vec<u8>>)) {
        SerialKeypad::next_message(self)
    }

    fn receive_update(&mut self, update: Result<SerialMessage, DeliveryError>) {
        SerialKeypad::receive_update(self, update)
    }
}

impl Default for SerialKeypad {
    /// Same as [`SerialKeypad::new`].
    fn default() -> (r: Self)
        ensures
            r@ == SerialKeypad::new_view(),
            r.wf(),
    {
        SerialKeypad::new()
    }
}

impl SerialKeypad {
    /// The value of a fresh keypad.
    pub open spec fn new_view() -> KeypadView {
        KeypadView {
            state: StateView {
                backlight: Backlight::Off,
                beeper: Beeper::Off,
                blink: false,
                key_clicks: KeyClicks::Off,
                screen: KeypadDisplayState::default_view(),
            },
            last_state: None,
            tamper: false,
            updates: KeypadUpdates {
                send_key_ack: false,
                send_backlight: false,
                send_beeper: false,
                send_key_clicks: false,
                send_screen: false,
                screen_update_flag: UpdateFlag(false),
                key_update_flag: UpdateFlag(false),
            },
            events: Seq::empty(),
        }
    }
}

} // verus!
