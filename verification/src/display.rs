//! The keypad LCD screen state and the diff/update cost optimiser.
//!
//! The display has two 16-column lines; on the wire, line 0 occupies cell
//! addresses `0x00..0x0F` and line 1 the non-contiguous range `0x40..0x4F`.
//! A screen transition can be encoded as a full update (reset the display
//! and rewrite both lines) or a partial update (seek the cursor and rewrite
//! only changed cells); the optimiser scores both and emits the cheaper one,
//! subject to a hard ceiling on partial updates that the keypad firmware
//! imposes.

use vstd::prelude::*;

use crate::message::clone_bytes;

verus! {

/// How the LCD cursor is drawn; `Hidden` shows no cursor at all.
#[derive(Clone, Copy, Debug, PartialEq, Eq, Structural)]
pub enum CursorStyle {
    Hidden,
    Block,
    Underline,
}

/// The single-byte operation codes understood inside a screen update
/// payload.
pub struct ScreenOpCodes;

impl ScreenOpCodes {
    // Cursor positioning operations.
    pub const CURSOR_FIRST_LINE: u8 = 0x01;

    pub const CURSOR_SECOND_LINE: u8 = 0x02;

    pub const CURSOR_SEEK_BYTE: u8 = 0x03;

    // Cursor style operations.
    pub const CURSOR_BLOCK_STYLE: u8 = 0x06;

    pub const CURSOR_HIDDEN: u8 = 0x07;

    pub const CURSOR_UNDERLINE_STYLE: u8 = 0x10;

    // Display operations.
    pub const DISPLAY_RESET: u8 = 0x17;

    /// The opcode that draws a cursor in the given style.
    pub fn cursor_style_op_code(cursor_style: CursorStyle) -> (r: u8)
        ensures
            r == spec_style_op(cursor_style),
    {
        match cursor_style {
            CursorStyle::Hidden => ScreenOpCodes::CURSOR_HIDDEN,
            CursorStyle::Block => ScreenOpCodes::CURSOR_BLOCK_STYLE,
            CursorStyle::Underline => ScreenOpCodes::CURSOR_UNDERLINE_STYLE,
        }
    }
}

/// The opcode for a cursor style.
pub open spec fn spec_style_op(s: CursorStyle) -> u8 {
    match s {
        CursorStyle::Hidden => 0x07,
        CursorStyle::Block => 0x06,
        CursorStyle::Underline => 0x10,
    }
}

/// The desired contents of the keypad display: two lines of at most 16
/// bytes, an optional commanded cursor position (`None` lets the cursor
/// float, which shortens updates), and the cursor style.
#[derive(Debug)]
pub struct KeypadDisplayState {
    pub lines: [Vec<u8>; 2],
    pub cursor_position: Option<u8>,
    pub cursor_style: CursorStyle,
}

/// The mathematical value of a [`KeypadDisplayState`].
#[verifier::ext_equal]
pub ghost struct DisplayView {
    pub line0: Seq<u8>,
    pub line1: Seq<u8>,
    pub cursor_position: Option<u8>,
    pub cursor_style: CursorStyle,
}

impl View for KeypadDisplayState {
    type V = DisplayView;

    open spec fn view(&self) -> DisplayView {
        DisplayView {
            line0: self.lines[0]@,
            line1: self.lines[1]@,
            cursor_position: self.cursor_position,
            cursor_style: self.cursor_style,
        }
    }
}

impl Clone for KeypadDisplayState {
    /// A clone carries the same mathematical value.
    fn clone(&self) -> (r: Self)
        ensures
            r@ == self@,
    {
        KeypadDisplayState {
            lines: [clone_bytes(&self.lines[0]), clone_bytes(&self.lines[1])],
            cursor_position: self.cursor_position,
            cursor_style: self.cursor_style,
        }
    }
}

impl Default for KeypadDisplayState {
    /// The boot banner shown until some state is set.
    fn default() -> (r: Self)
        ensures
            r@.line0 == spec_boot_line0(),
            r@.line1 == spec_boot_line1(),
            r@.cursor_position is None,
            r@.cursor_style == CursorStyle::Hidden,
    {
        // "    ********    "
        let line0: Vec<u8> = vec![0x20, 0x20, 0x20, 0x20, 0x2A, 0x2A, 0x2A, 0x2A, 0x2A, 0x2A, 0x2A, 0x2A, 0x20, 0x20, 0x20, 0x20];
        // "Panel booting up"
        let line1: Vec<u8> = vec![0x50, 0x61, 0x6E, 0x65, 0x6C, 0x20, 0x62, 0x6F, 0x6F, 0x74, 0x69, 0x6E, 0x67, 0x20, 0x75, 0x70];
        proof {
            assert(line0@ =~= spec_boot_line0());
            assert(line1@ =~= spec_boot_line1());
        }
        KeypadDisplayState {
            lines: [line0, line1],
            cursor_position: None,
            cursor_style: CursorStyle::Hidden,
        }
    }
}

/// The boot banner's first line, `"    ********    "`.
pub open spec fn spec_boot_line0() -> Seq<u8> {
    seq![0x20, 0x20, 0x20, 0x20, 0x2A, 0x2A, 0x2A, 0x2A, 0x2A, 0x2A, 0x2A, 0x2A, 0x20, 0x20, 0x20, 0x20]
}

/// The boot banner's second line, `"Panel booting up"`.
pub open spec fn spec_boot_line1() -> Seq<u8> {
    seq![0x50, 0x61, 0x6E, 0x65, 0x6C, 0x20, 0x62, 0x6F, 0x6F, 0x74, 0x69, 0x6E, 0x67, 0x20, 0x75, 0x70]
}

/// Append a byte slice to a vector.
fn append_bytes(v: &mut Vec<u8>, s: &[u8])
    ensures
        final(v)@ == old(v)@ + s@,
{
    let mut i: usize = 0;
    while i < s.len()
        invariant
            0 <= i <= s@.len(),
            v@ == old(v)@ + s@.subrange(0, i as int),
        decreases s@.len() - i,
    {
        v.push(s[i]);
        proof {
            assert(old(v)@ + s@.subrange(0, i as int + 1) =~= (old(v)@ + s@.subrange(
                0,
                i as int,
            )).push(s@[i as int]));
        }
        i = i + 1;
    }
    proof {
        assert(s@.subrange(0, s@.len() as int) =~= s@);
    }
}

/// Both lines fit the 16-column display.
pub open spec fn display_wf(v: DisplayView) -> bool {
    v.line0.len() <= 16 && v.line1.len() <= 16
}

/// A line padded with spaces to the full 16 columns (and truncated there).
pub open spec fn padded(s: Seq<u8>) -> Seq<u8> {
    Seq::new(16, |i: int| if i < s.len() { s[i] } else { 0x20u8 })
}

/// The value of screen cell `c` (`0..=15` on line 0, `16..=31` on line 1),
/// after padding.
pub open spec fn cell(v: DisplayView, c: int) -> u8 {
    if c < 16 {
        padded(v.line0)[c]
    } else {
        padded(v.line1)[c - 16]
    }
}

/// The wire address of screen cell `c`: line 1 starts at `0x40`.
pub open spec fn cell_addr(c: int) -> int {
    if c < 16 {
        c
    } else {
        0x40 + (c - 16)
    }
}

/// Whether cell `c` must change when going from `from` to `to`.
pub open spec fn cell_differs(from: DisplayView, to: DisplayView, c: int) -> bool {
    cell(from, c) != cell(to, c)
}

/// How many of the cells before `c` differ.
pub open spec fn chars_diff_before(from: DisplayView, to: DisplayView, c: int) -> int
    decreases c,
{
    if c <= 0 {
        0
    } else {
        chars_diff_before(from, to, c - 1) + if cell_differs(from, to, c - 1) {
            1int
        } else {
            0int
        }
    }
}

/// Whether cell `c` starts a maximal run of consecutive differing cells.
pub open spec fn starts_block(from: DisplayView, to: DisplayView, c: int) -> bool {
    cell_differs(from, to, c) && (c == 0 || !cell_differs(from, to, c - 1))
}

/// How many maximal runs of differing cells start before cell `c`.
pub open spec fn blocks_before(from: DisplayView, to: DisplayView, c: int) -> int
    decreases c,
{
    if c <= 0 {
        0
    } else {
        blocks_before(from, to, c - 1) + if starts_block(from, to, c - 1) {
            1int
        } else {
            0int
        }
    }
}

/// The heuristic cost of a partial update: two points per changed block
/// (the worst-case cursor seek), one per changed cell, and one more if the
/// cursor style changes. Deliberately pessimistic: it never accounts for
/// fusing blocks across a single unchanged cell.
pub open spec fn spec_update_score(from: DisplayView, to: DisplayView) -> int {
    2 * blocks_before(from, to, 32) + chars_diff_before(from, to, 32) + if from.cursor_style
        != to.cursor_style {
        1int
    } else {
        0int
    }
}

proof fn lemma_score_prefix_bounds(from: DisplayView, to: DisplayView, c: int)
    requires
        c >= 0,
    ensures
        0 <= chars_diff_before(from, to, c) <= c,
        0 <= blocks_before(from, to, c) <= c,
    decreases c,
{
    if c > 0 {
        lemma_score_prefix_bounds(from, to, c - 1);
    }
}

/// Read cell `c` of a display state, with space padding.
fn cell_at(s: &KeypadDisplayState, c: usize) -> (r: u8)
    requires
        c < 32,
    ensures
        r == cell(s@, c as int),
{
    if c < 16 {
        if c < s.lines[0].len() {
            s.lines[0][c]
        } else {
            0x20
        }
    } else {
        let j = c - 16;
        if j < s.lines[1].len() {
            s.lines[1][j]
        } else {
            0x20
        }
    }
}

/// The bytes of a full update: reset the display, hide the cursor, rewrite
/// each non-empty line from its start, and finally draw the cursor style if
/// one is wanted.
pub open spec fn spec_full_update(v: DisplayView) -> Seq<u8> {
    let base = seq![0x17u8, 0x07u8];
    let b1 = if v.line0.len() > 0 {
        base + seq![0x01u8] + v.line0
    } else {
        base
    };
    let b2 = if v.line1.len() > 0 {
        b1 + seq![0x02u8] + v.line1
    } else {
        b1
    };
    if v.cursor_style != CursorStyle::Hidden {
        b2 + seq![spec_style_op(v.cursor_style)]
    } else {
        b2
    }
}

/// Where the cursor rests after a full update: just past the last line
/// written, or nowhere in particular on an empty screen.
pub open spec fn spec_full_cursor(v: DisplayView) -> Option<int> {
    if v.line1.len() > 0 {
        Some(0x40 + v.line1.len() as int)
    } else if v.line0.len() > 0 {
        Some(v.line0.len() as int)
    } else {
        None
    }
}

impl KeypadDisplayState {
    /// Both lines fit the 16-column display.
    pub open spec fn wf(&self) -> bool {
        display_wf(self@)
    }

    /// Encode a full update of this screen, and report the cell address the
    /// cursor is left at (`None` when nothing was written). Replaying the
    /// bytes against a device in any state (not mid-seek) leaves it
    /// rendering exactly this screen.
    pub fn full_update(&self) -> (r: (Vec<u8>, Option<usize>))
        requires
            self.wf(),
        ensures
            r.0@ == spec_full_update(self@),
            opt_as_int(r.1) == spec_full_cursor(self@),
            printable(self@) ==> forall|start: ScreenSim|
                #![trigger sim_apply(start, r.0@)]
                start.pending_seek == false ==> sim_displays(sim_apply(start, r.0@), self@),
    {
        let mut data: Vec<u8> = vec![ScreenOpCodes::DISPLAY_RESET, ScreenOpCodes::CURSOR_HIDDEN];
        let mut cursor_position: Option<usize> = None;
        // A full update writes lines from their start onto a blank display,
        // so no space padding is needed.
        if self.lines[0].len() > 0 {
            data.push(ScreenOpCodes::CURSOR_FIRST_LINE);
            append_bytes(&mut data, self.lines[0].as_slice());
            cursor_position = Some(self.lines[0].len());
            proof {
                assert(data@ =~= seq![0x17u8, 0x07u8] + seq![0x01u8] + self@.line0);
            }
        }
        if self.lines[1].len() > 0 {
            let ghost before = data@;
            data.push(ScreenOpCodes::CURSOR_SECOND_LINE);
            append_bytes(&mut data, self.lines[1].as_slice());
            cursor_position = Some(0x40 + self.lines[1].len());
            proof {
                assert(data@ =~= before + seq![0x02u8] + self@.line1);
            }
        }
        if !matches!(self.cursor_style, CursorStyle::Hidden) {
            let ghost before = data@;
            data.push(ScreenOpCodes::cursor_style_op_code(self.cursor_style));
            proof {
                assert(data@ =~= before + seq![spec_style_op(self@.cursor_style)]);
            }
        }
        proof {
            if printable(self@) {
                assert forall|start: ScreenSim| #![trigger sim_apply(start, data@)]
                    start.pending_seek == false implies sim_displays(
                    sim_apply(start, data@),
                    self@,
                ) by {
                    lemma_full_update_sound(self@, start);
                }
            }
        }
        (data, cursor_position)
    }

    /// The heuristic cost of partially updating this screen from `from`, as
    /// [`spec_update_score`] defines it.
    pub fn update_score(&self, from: &KeypadDisplayState) -> (r: usize)
        ensures
            r as int == spec_update_score(from@, self@),
    {
        let mut discrete_blocks: usize = 0;
        let mut chars_diff: usize = 0;
        let mut in_block = false;
        let mut c: usize = 0;
        while c < 32
            invariant
                0 <= c <= 32,
                discrete_blocks as int == blocks_before(from@, self@, c as int),
                chars_diff as int == chars_diff_before(from@, self@, c as int),
                in_block == (c > 0 && cell_differs(from@, self@, c as int - 1)),
            decreases 32 - c,
        {
            proof {
                lemma_score_prefix_bounds(from@, self@, c as int);
            }
            let a = cell_at(from, c);
            let b = cell_at(self, c);
            if a != b {
                chars_diff = chars_diff + 1;
                if !in_block {
                    discrete_blocks = discrete_blocks + 1;
                    in_block = true;
                }
            } else {
                in_block = false;
            }
            c = c + 1;
        }
        proof {
            lemma_score_prefix_bounds(from@, self@, 32);
        }
        let cursor_score: usize = if !eq_style(from.cursor_style, self.cursor_style) {
            1
        } else {
            0
        };
        2 * discrete_blocks + chars_diff + cursor_score
    }
}

/// Compare two cursor styles.
fn eq_style(a: CursorStyle, b: CursorStyle) -> (r: bool)
    ensures
        r <==> a == b,
{
    match (a, b) {
        (CursorStyle::Hidden, CursorStyle::Hidden) => true,
        (CursorStyle::Block, CursorStyle::Block) => true,
        (CursorStyle::Underline, CursorStyle::Underline) => true,
        _ => false,
    }
}

/// An `Option<usize>` as the mathematical option it denotes.
pub open spec fn opt_as_int(o: Option<usize>) -> Option<int> {
    match o {
        Some(p) => Some(p as int),
        None => None,
    }
}

// ---------------------------------------------------------------------------
// A cell-level model of the keypad's own display RAM, cursor and cursor
// style, against which the update encodings are proved sound.
// ---------------------------------------------------------------------------

/// The device side of a screen update: two 16-cell line buffers, the cursor
/// address, the cursor style, and whether the previous byte was a seek
/// opcode awaiting its address operand.
#[verifier::ext_equal]
pub ghost struct ScreenSim {
    pub line0: Seq<u8>,
    pub line1: Seq<u8>,
    pub cursor: int,
    pub style: CursorStyle,
    pub pending_seek: bool,
}

/// The device state that renders `v`, with the cursor at `cursor`.
pub open spec fn sim_init(v: DisplayView, cursor: int) -> ScreenSim {
    ScreenSim {
        line0: padded(v.line0),
        line1: padded(v.line1),
        cursor,
        style: v.cursor_style,
        pending_seek: false,
    }
}

/// Writing one character: it lands in whichever line buffer the cursor
/// addresses (anywhere else it is lost), and the cursor advances.
pub open spec fn sim_write(s: ScreenSim, b: u8) -> ScreenSim {
    ScreenSim {
        line0: if 0 <= s.cursor < 16 {
            s.line0.update(s.cursor, b)
        } else {
            s.line0
        },
        line1: if 0x40 <= s.cursor < 0x50 {
            s.line1.update(s.cursor - 0x40, b)
        } else {
            s.line1
        },
        cursor: s.cursor + 1,
        style: s.style,
        pending_seek: false,
    }
}

/// The device consuming one byte of a screen update payload.
pub open spec fn sim_step(s: ScreenSim, b: u8) -> ScreenSim {
    if s.pending_seek {
        ScreenSim { cursor: b as int, pending_seek: false, ..s }
    } else if b == 0x01 {
        ScreenSim { cursor: 0, ..s }
    } else if b == 0x02 {
        ScreenSim { cursor: 0x40, ..s }
    } else if b == 0x03 {
        ScreenSim { pending_seek: true, ..s }
    } else if b == 0x06 {
        ScreenSim { style: CursorStyle::Block, ..s }
    } else if b == 0x07 {
        ScreenSim { style: CursorStyle::Hidden, ..s }
    } else if b == 0x10 {
        ScreenSim { style: CursorStyle::Underline, ..s }
    } else if b == 0x17 {
        ScreenSim {
            line0: padded(Seq::empty()),
            line1: padded(Seq::empty()),
            cursor: 0,
            ..s
        }
    } else {
        sim_write(s, b)
    }
}

/// The device consuming a whole payload, byte by byte.
pub open spec fn sim_apply(s: ScreenSim, bytes: Seq<u8>) -> ScreenSim
    decreases bytes.len(),
{
    if bytes.len() == 0 {
        s
    } else {
        sim_step(sim_apply(s, bytes.drop_last()), bytes.last())
    }
}

proof fn lemma_sim_apply_push(s: ScreenSim, bytes: Seq<u8>, b: u8)
    ensures
        sim_apply(s, bytes.push(b)) == sim_step(sim_apply(s, bytes), b),
{
    assert(bytes.push(b).drop_last() =~= bytes);
}

proof fn lemma_sim_apply_concat(s: ScreenSim, a: Seq<u8>, b: Seq<u8>)
    ensures
        sim_apply(s, a + b) == sim_apply(sim_apply(s, a), b),
    decreases b.len(),
{
    if b.len() == 0 {
        assert(a + b =~= a);
    } else {
        assert((a + b).drop_last() =~= a + b.drop_last());
        lemma_sim_apply_concat(s, a, b.drop_last());
    }
}

/// Every cell is an ordinary character, not one of the single-byte screen
/// opcodes. Screen text satisfies this; a line holding raw control bytes
/// could not be told apart from opcodes on the wire.
pub open spec fn printable(v: DisplayView) -> bool {
    forall|c: int| 0 <= c < 32 ==> cell(v, c) >= 0x20
}

/// Line 0 as the device holds it when the first `c` cells of the screen
/// have already been rewritten from `from` to `to`.
pub open spec fn hybrid0(from: DisplayView, to: DisplayView, c: int) -> Seq<u8> {
    Seq::new(16, |k: int| if k < c {
        cell(to, k)
    } else {
        cell(from, k)
    })
}

/// Line 1 likewise (its cells are numbers `16..=31`).
pub open spec fn hybrid1(from: DisplayView, to: DisplayView, c: int) -> Seq<u8> {
    Seq::new(16, |k: int| if k + 16 < c {
        cell(to, k + 16)
    } else {
        cell(from, k + 16)
    })
}

/// The device state expected after the partial-update walk has processed
/// the first `c` cells, while tracking `cursor`; a device whose cursor
/// started at `c0` has not moved it if no write happened yet.
pub open spec fn sim_matches(
    s: ScreenSim,
    from: DisplayView,
    to: DisplayView,
    c: int,
    cursor: Option<int>,
    c0: int,
) -> bool {
    &&& s.line0 == hybrid0(from, to, c)
    &&& s.line1 == hybrid1(from, to, c)
    &&& s.cursor == match cursor {
        Some(p) => p,
        None => c0,
    }
    &&& s.style == from.cursor_style
    &&& s.pending_seek == false
}

/// The device renders exactly `v`'s cells and cursor style.
pub open spec fn sim_displays(s: ScreenSim, v: DisplayView) -> bool {
    &&& s.line0 == padded(v.line0)
    &&& s.line1 == padded(v.line1)
    &&& s.style == v.cursor_style
    &&& s.pending_seek == false
}

// ---------------------------------------------------------------------------
// The partial update walk.
// ---------------------------------------------------------------------------

/// The walk's running state: the bytes emitted so far, where the device
/// cursor now is (`None`: nothing written yet, so unknown), and the
/// one-byte look-back of a just-skipped equal cell.
pub ghost struct PartialState {
    pub bytes: Seq<u8>,
    pub cursor: Option<int>,
    pub skipped: Option<u8>,
}

/// The bytes that move the cursor to cell `c` from far away: a single
/// line-start opcode at a line's first column, otherwise a two-byte seek.
pub open spec fn spec_seek_to(c: int) -> Seq<u8> {
    if c % 16 == 0 {
        seq![if c < 16 {
            0x01u8
        } else {
            0x02u8
        }]
    } else {
        seq![0x03u8, cell_addr(c) as u8]
    }
}

/// One cell of the partial-update walk. An equal cell only refreshes the
/// look-back byte. A differing cell first brings the cursor to the cell:
/// free if it is already there; by re-emitting the skipped equal character
/// when that is one byte cheaper than seeking; otherwise by an explicit
/// seek. Then the new character is written. The look-back never crosses the
/// line boundary.
pub open spec fn partial_step(
    st: PartialState,
    from: DisplayView,
    to: DisplayView,
    c: int,
) -> PartialState {
    let st0 = if c == 16 {
        PartialState { skipped: None, ..st }
    } else {
        st
    };
    let b = cell(to, c);
    if !cell_differs(from, to, c) {
        PartialState { skipped: Some(b), ..st0 }
    } else {
        let off = cell_addr(c);
        let seek_bytes: Seq<u8> = match st0.cursor {
            None => spec_seek_to(c),
            Some(p) => if off - p == 0 {
                Seq::empty()
            } else if off - p == 1 && st0.skipped is Some {
                seq![st0.skipped.unwrap()]
            } else if off - p >= 2 {
                spec_seek_to(c)
            } else {
                Seq::empty()
            },
        };
        PartialState {
            bytes: st0.bytes + seek_bytes + seq![b],
            cursor: Some(off + 1),
            skipped: None,
        }
    }
}

/// The walk's state after its first `c` cells.
pub open spec fn partial_states(from: DisplayView, to: DisplayView, c: int) -> PartialState
    decreases c,
{
    if c <= 0 {
        PartialState { bytes: Seq::empty(), cursor: None, skipped: None }
    } else {
        partial_step(partial_states(from, to, c - 1), from, to, c - 1)
    }
}

/// The bytes of a partial update: the walk over all 32 cells, then the new
/// cursor style if it changed.
pub open spec fn spec_partial_update(from: DisplayView, to: DisplayView) -> Seq<u8> {
    let st = partial_states(from, to, 32);
    if from.cursor_style != to.cursor_style {
        st.bytes + seq![spec_style_op(to.cursor_style)]
    } else {
        st.bytes
    }
}

/// Where a partial update leaves the device cursor, when it wrote at all.
pub open spec fn spec_partial_cursor(from: DisplayView, to: DisplayView) -> Option<int> {
    partial_states(from, to, 32).cursor
}

/// The walk's bookkeeping facts, holding after `c` cells: the tracked
/// cursor sits one past some differing cell (and nothing was emitted while
/// no cell differed), and the look-back byte is the previous cell's value
/// when that cell was equal.
pub open spec fn partial_inv(from: DisplayView, to: DisplayView, c: int) -> bool {
    let st = partial_states(from, to, c);
    &&& match st.cursor {
        None => forall|t: int| 0 <= t < c ==> !cell_differs(from, to, t),
        Some(p) => exists|j: int|
            0 <= j < c && #[trigger] cell_differs(from, to, j) && p == cell_addr(j) + 1,
    }
    &&& (st.skipped matches Some(sk) ==> c >= 1 && !cell_differs(from, to, c - 1) && sk == cell(
        to,
        c - 1,
    ) && sk == cell(from, c - 1))
}

proof fn lemma_partial_inv(from: DisplayView, to: DisplayView, c: int)
    requires
        0 <= c <= 32,
    ensures
        partial_inv(from, to, c),
    decreases c,
{
    if c > 0 {
        lemma_partial_inv(from, to, c - 1);
        let st = partial_states(from, to, c - 1);
        if cell_differs(from, to, c - 1) {
            assert(partial_states(from, to, c).cursor == Some(cell_addr(c - 1) + 1));
        }
    }
}

/// The walk never writes more than the heuristic score plus one byte: each
/// changed cell costs its character, each block start at most its two seek
/// bytes (one recouped by fusion or at a line start), and the one extra
/// byte pays for a block that straddles the line boundary, where a
/// line-start opcode is emitted inside a single scored block.
proof fn lemma_partial_len(from: DisplayView, to: DisplayView, c: int)
    requires
        0 <= c <= 32,
    ensures
        partial_states(from, to, c).bytes.len() <= 2 * blocks_before(from, to, c)
            + chars_diff_before(from, to, c) + if c >= 17 {
            1int
        } else {
            0int
        },
    decreases c,
{
    if c > 0 {
        lemma_partial_len(from, to, c - 1);
        lemma_partial_inv(from, to, c - 1);
        lemma_score_prefix_bounds(from, to, c - 1);
        let st = partial_states(from, to, c - 1);
        let st0 = if c - 1 == 16 {
            PartialState { skipped: None, ..st }
        } else {
            st
        };
        if cell_differs(from, to, c - 1) {
            let off = cell_addr(c - 1);
            match st0.cursor {
                None => {},
                Some(p) => {
                    if off - p == 0 {
                        // The cursor is already in place: the previous cell
                        // was just written, so this is no block start.
                        let j = choose|j: int|
                            0 <= j < c - 1 && #[trigger] cell_differs(from, to, j) && p
                                == cell_addr(j) + 1;
                        assert((c - 1) % 16 != 0);
                        assert(j == c - 2);
                    } else if off - p == 1 && st0.skipped is Some {
                        // Fusion: the look-back says the previous cell was
                        // equal, so this block start costs one byte.
                        assert(starts_block(from, to, c - 1));
                    } else if off - p >= 2 {
                        if c - 1 >= 1 && cell_differs(from, to, c - 2) {
                            // A mid-block seek can only be the line-start
                            // opcode at the line boundary; its one byte is
                            // covered by the straddling-block slack.
                            assert(st.cursor == Some(cell_addr(c - 2) + 1));
                            assert((c - 1) % 16 == 0);
                            assert(c - 1 == 16);
                        }
                    }
                },
            }
        }
    }
}

proof fn lemma_hybrid_extend_equal(from: DisplayView, to: DisplayView, c: int)
    requires
        0 <= c < 32,
        !cell_differs(from, to, c),
    ensures
        hybrid0(from, to, c + 1) == hybrid0(from, to, c),
        hybrid1(from, to, c + 1) == hybrid1(from, to, c),
{
    assert(hybrid0(from, to, c + 1) =~= hybrid0(from, to, c));
    assert(hybrid1(from, to, c + 1) =~= hybrid1(from, to, c));
}

/// Writing cell `c`'s new value with the cursor on it advances the device
/// from the `c`-cell hybrid to the `c + 1`-cell hybrid.
proof fn lemma_sim_write_cell(
    s: ScreenSim,
    from: DisplayView,
    to: DisplayView,
    c: int,
    b: u8,
)
    requires
        0 <= c < 32,
        s.line0 == hybrid0(from, to, c),
        s.line1 == hybrid1(from, to, c),
        s.cursor == cell_addr(c),
        s.pending_seek == false,
        b == cell(to, c),
        b >= 0x20,
    ensures
        sim_step(s, b) == (ScreenSim {
            line0: hybrid0(from, to, c + 1),
            line1: hybrid1(from, to, c + 1),
            cursor: cell_addr(c) + 1,
            style: s.style,
            pending_seek: false,
        }),
{
    if c < 16 {
        assert(hybrid0(from, to, c).update(c, b) =~= hybrid0(from, to, c + 1));
        assert(hybrid1(from, to, c) =~= hybrid1(from, to, c + 1));
    } else {
        assert(hybrid1(from, to, c).update(c - 16, b) =~= hybrid1(from, to, c + 1));
        assert(hybrid0(from, to, c) =~= hybrid0(from, to, c + 1));
    }
}

/// Replaying the walk's bytes against a device that renders `from` — with
/// its cursor anywhere — rewrites exactly the first `c` cells to their new
/// values and tracks the cursor faithfully.
proof fn lemma_partial_sound(from: DisplayView, to: DisplayView, c: int, c0: int)
    requires
        0 <= c <= 32,
        printable(from),
        printable(to),
    ensures
        sim_matches(
            sim_apply(sim_init(from, c0), partial_states(from, to, c).bytes),
            from,
            to,
            c,
            partial_states(from, to, c).cursor,
            c0,
        ),
    decreases c,
{
    let start = sim_init(from, c0);
    if c == 0 {
        assert(hybrid0(from, to, 0) =~= padded(from.line0));
        assert(hybrid1(from, to, 0) =~= padded(from.line1));
    } else {
        lemma_partial_sound(from, to, c - 1, c0);
        lemma_partial_inv(from, to, c - 1);
        let st = partial_states(from, to, c - 1);
        let st0 = if c - 1 == 16 {
            PartialState { skipped: None, ..st }
        } else {
            st
        };
        let prev = sim_apply(start, st.bytes);
        let b = cell(to, c - 1);
        if !cell_differs(from, to, c - 1) {
            lemma_hybrid_extend_equal(from, to, c - 1);
        } else {
            let off = cell_addr(c - 1);
            let seek_bytes: Seq<u8> = match st0.cursor {
                None => spec_seek_to(c - 1),
                Some(p) => if off - p == 0 {
                    Seq::empty()
                } else if off - p == 1 && st0.skipped is Some {
                    seq![st0.skipped.unwrap()]
                } else if off - p >= 2 {
                    spec_seek_to(c - 1)
                } else {
                    Seq::empty()
                },
            };
            // After the seek bytes the cursor is on the cell, and the
            // rendered cells are unchanged up to the fused write of the
            // equal look-back character.
            let sought = sim_apply(start, st.bytes + seek_bytes);
            assert(sought.line0 == hybrid0(from, to, c - 1) && sought.line1 == hybrid1(
                from,
                to,
                c - 1,
            ) && sought.cursor == off && sought.style == from.cursor_style
                && sought.pending_seek == false) by {
                match st0.cursor {
                    None => {
                        lemma_seek_applies(start, st.bytes, c - 1);
                    },
                    Some(p) => {
                        if off - p == 0 {
                            assert(st.bytes + seek_bytes =~= st.bytes);
                        } else if off - p == 1 && st0.skipped is Some {
                            let sk = st0.skipped.unwrap();
                            assert(st.bytes + seek_bytes =~= st.bytes.push(sk));
                            lemma_sim_apply_push(start, st.bytes, sk);
                            // The look-back write rewrites cell `c - 2`
                            // with the value it already shows.
                            assert((c - 1) % 16 != 0);
                            assert(p == cell_addr(c - 2));
                            assert(sk >= 0x20);
                            if c - 2 < 16 {
                                assert(hybrid0(from, to, c - 1).update(c - 2, sk) =~= hybrid0(
                                    from,
                                    to,
                                    c - 1,
                                ));
                            } else {
                                assert(hybrid1(from, to, c - 1).update((c - 2) - 16, sk)
                                    =~= hybrid1(from, to, c - 1));
                            }
                        } else if off - p >= 2 {
                            lemma_seek_applies(start, st.bytes, c - 1);
                        } else {
                            assert(st.bytes + seek_bytes =~= st.bytes);
                        }
                    },
                }
            }
            lemma_sim_write_cell(sought, from, to, c - 1, b);
            assert(st.bytes + seek_bytes + seq![b] =~= (st.bytes + seek_bytes).push(b));
            lemma_sim_apply_push(start, st.bytes + seek_bytes, b);
        }
    }
}

/// Appending a seek to cell `c` moves only the device cursor.
proof fn lemma_seek_applies(start: ScreenSim, base: Seq<u8>, c: int)
    requires
        0 <= c < 32,
        sim_apply(start, base).pending_seek == false,
    ensures
        sim_apply(start, base + spec_seek_to(c)) == (ScreenSim {
            cursor: cell_addr(c),
            ..sim_apply(start, base)
        }),
{
    if c % 16 == 0 {
        let op: u8 = if c < 16 {
            0x01
        } else {
            0x02
        };
        assert(base + spec_seek_to(c) =~= base.push(op));
        lemma_sim_apply_push(start, base, op);
    } else {
        let ob = cell_addr(c) as u8;
        assert(ob as int == cell_addr(c));
        assert(base + spec_seek_to(c) =~= base.push(0x03u8).push(ob));
        lemma_sim_apply_push(start, base, 0x03u8);
        lemma_sim_apply_push(start, base.push(0x03u8), ob);
    }
}

impl KeypadDisplayState {
    /// Encode a partial update of this screen from `from`, and report the
    /// cell address the cursor is left at (`None` when nothing was
    /// written). The payload stays within one byte of the heuristic score,
    /// and replaying it against a device that renders `from` yields exactly
    /// this screen, whatever the device's cursor position was.
    pub fn partial_update(&self, from: &KeypadDisplayState) -> (r: (Vec<u8>, Option<usize>))
        ensures
            r.0@ == spec_partial_update(from@, self@),
            opt_as_int(r.1) == spec_partial_cursor(from@, self@),
            r.0@.len() <= spec_update_score(from@, self@) + 1,
            printable(from@) && printable(self@) ==> forall|c0: int|
                #![trigger sim_init(from@, c0)]
                {
                    let end = sim_apply(sim_init(from@, c0), r.0@);
                    sim_displays(end, self@) && end.cursor == match spec_partial_cursor(
                        from@,
                        self@,
                    ) {
                        Some(p) => p,
                        None => c0,
                    }
                },
    {
        let ghost fv = from@;
        let ghost tv = self@;
        let mut data: Vec<u8> = Vec::new();
        let mut cursor_position: Option<usize> = None;
        let mut skipped_char: Option<u8> = None;
        let mut c: usize = 0;
        while c < 32
            invariant
                0 <= c <= 32,
                fv == from@,
                tv == self@,
                data@ == partial_states(fv, tv, c as int).bytes,
                opt_as_int(cursor_position) == partial_states(fv, tv, c as int).cursor,
                skipped_char == partial_states(fv, tv, c as int).skipped,
            decreases 32 - c,
        {
            proof {
                lemma_partial_inv(fv, tv, c as int);
            }
            let ghost st = partial_states(fv, tv, c as int);
            let ghost st0 = if c == 16 {
                PartialState { skipped: None, ..st }
            } else {
                st
            };
            if c == 16 {
                // The look-back byte never helps across the line boundary:
                // the line buffers are not adjacent on the wire.
                skipped_char = None;
            }
            let a = cell_at(from, c);
            let b = cell_at(self, c);
            let offset: usize = if c < 16 {
                c
            } else {
                0x40 + (c - 16)
            };
            proof {
                assert(offset as int == cell_addr(c as int));
            }
            if a != b {
                match cursor_position {
                    Some(p) => {
                        proof {
                            let j = choose|j: int|
                                0 <= j < c && #[trigger] cell_differs(fv, tv, j) && p
                                    == cell_addr(j) + 1;
                            assert(cell_addr(j) < cell_addr(c as int));
                        }
                        let d = offset - p;
                        if d == 1 && skipped_char.is_some() {
                            data.push(skipped_char.unwrap());
                        } else if d >= 2 {
                            push_seek(&mut data, c, offset);
                        }
                    },
                    None => {
                        push_seek(&mut data, c, offset);
                    },
                }
                skipped_char = None;
                data.push(b);
                cursor_position = Some(offset + 1);
                proof {
                    let stepped = partial_step(st, fv, tv, c as int);
                    assert(data@ =~= stepped.bytes);
                }
            } else {
                skipped_char = Some(b);
            }
            c = c + 1;
        }
        if !eq_style(from.cursor_style, self.cursor_style) {
            data.push(ScreenOpCodes::cursor_style_op_code(self.cursor_style));
            proof {
                assert(data@ =~= spec_partial_update(fv, tv));
            }
        }
        proof {
            lemma_partial_len(fv, tv, 32);
            if printable(fv) && printable(tv) {
                assert forall|c0: int| #![trigger sim_init(fv, c0)]
                    {
                        let end = sim_apply(sim_init(fv, c0), data@);
                        sim_displays(end, tv) && end.cursor == match spec_partial_cursor(
                            fv,
                            tv,
                        ) {
                            Some(p) => p,
                            None => c0,
                        }
                    } by {
                    lemma_partial_sound(fv, tv, 32, c0);
                    let st = partial_states(fv, tv, 32);
                    if fv.cursor_style != tv.cursor_style {
                        let op = spec_style_op(tv.cursor_style);
                        assert(st.bytes + seq![op] =~= st.bytes.push(op));
                        lemma_sim_apply_push(sim_init(fv, c0), st.bytes, op);
                    }
                    assert(hybrid0(fv, tv, 32) =~= padded(tv.line0));
                    assert(hybrid1(fv, tv, 32) =~= padded(tv.line1));
                }
            }
        }
        (data, cursor_position)
    }
}

/// The longest partial screen update the keypad firmware will process. The
/// device consumes a bounded window of bus time per message; about 46
/// symbols fit, shortened here to leave room for the envelope plus a small
/// margin.
pub const MAX_PARTIAL_UPDATE_SCORE: usize = 40;

/// The trailing cursor seek: when a cursor position is commanded and the
/// strategy left the cursor elsewhere (or nowhere known), seek it.
pub open spec fn spec_cursor_postlude(desired: Option<u8>, cur: Option<int>) -> Seq<u8> {
    match desired {
        None => Seq::empty(),
        Some(off) => match cur {
            None => seq![0x03u8, off],
            Some(p) => if p as u8 != off {
                seq![0x03u8, off]
            } else {
                Seq::empty()
            },
        },
    }
}

/// Whether the optimiser picks the partial encoding for this transition:
/// it must beat the cost of a full rewrite and stay under the firmware's
/// ceiling.
pub open spec fn spec_picks_partial(from: DisplayView, to: DisplayView) -> bool {
    let update_score = spec_update_score(from, to);
    let full_score = 3 + to.line0.len() + to.line1.len();
    update_score < full_score && update_score < MAX_PARTIAL_UPDATE_SCORE as int
}

/// The bytes of a strategic update: the cheaper of the two encodings,
/// followed by the cursor postlude.
pub open spec fn spec_strategic_update(from: DisplayView, to: DisplayView) -> Seq<u8> {
    let body = if spec_picks_partial(from, to) {
        spec_partial_update(from, to)
    } else {
        spec_full_update(to)
    };
    let cur = if spec_picks_partial(from, to) {
        spec_partial_cursor(from, to)
    } else {
        spec_full_cursor(to)
    };
    body + spec_cursor_postlude(to.cursor_position, cur)
}

/// The bytes of a forced full update: used when resynchronising the screen
/// regardless of cost, to rule out any drift between the panel's record and
/// the device's; the cursor postlude still applies.
pub open spec fn spec_forced_update(v: DisplayView) -> Seq<u8> {
    spec_full_update(v) + spec_cursor_postlude(v.cursor_position, spec_full_cursor(v))
}

/// Writing a line's remaining characters one by one, with the cursor on
/// character `j` of line 0, fills cells `j..` of the first line buffer and
/// leaves the cursor past the end of the text.
proof fn lemma_sim_write_line0(s: ScreenSim, line: Seq<u8>, j: int)
    requires
        s.pending_seek == false,
        s.line0.len() == 16,
        0 <= j <= line.len() <= 16,
        s.cursor == j,
        forall|t: int| j <= t < line.len() ==> line[t] >= 0x20,
    ensures
        sim_apply(s, line.skip(j)) == (ScreenSim {
            line0: Seq::new(16, |t: int| if j <= t < line.len() {
                line[t]
            } else {
                s.line0[t]
            }),
            line1: s.line1,
            cursor: line.len() as int,
            style: s.style,
            pending_seek: false,
        }),
    decreases line.len() - j,
{
    if j == line.len() {
        assert(line.skip(j) =~= Seq::<u8>::empty());
        assert(Seq::new(16, |t: int| if j <= t < line.len() {
            line[t]
        } else {
            s.line0[t]
        }) =~= s.line0);
    } else {
        let b = line[j];
        let s2 = sim_step(s, b);
        assert(line.skip(j) =~= seq![b] + line.skip(j + 1));
        lemma_sim_apply_concat(s, seq![b], line.skip(j + 1));
        assert(seq![b].drop_last() =~= Seq::<u8>::empty());
        assert(seq![b].last() == b);
        assert(sim_apply(s, Seq::<u8>::empty()) == s);
        assert(sim_apply(s, seq![b]) == s2);
        lemma_sim_write_line0(s2, line, j + 1);
        assert(Seq::new(16, |t: int| if j + 1 <= t < line.len() {
            line[t]
        } else {
            s2.line0[t]
        }) =~= Seq::new(16, |t: int| if j <= t < line.len() {
            line[t]
        } else {
            s.line0[t]
        }));
    }
}

/// The same for line 1, whose cells sit at addresses `0x40..`.
proof fn lemma_sim_write_line1(s: ScreenSim, line: Seq<u8>, j: int)
    requires
        s.pending_seek == false,
        s.line1.len() == 16,
        0 <= j <= line.len() <= 16,
        s.cursor == 0x40 + j,
        forall|t: int| j <= t < line.len() ==> line[t] >= 0x20,
    ensures
        sim_apply(s, line.skip(j)) == (ScreenSim {
            line0: s.line0,
            line1: Seq::new(16, |t: int| if j <= t < line.len() {
                line[t]
            } else {
                s.line1[t]
            }),
            cursor: 0x40 + line.len() as int,
            style: s.style,
            pending_seek: false,
        }),
    decreases line.len() - j,
{
    if j == line.len() {
        assert(line.skip(j) =~= Seq::<u8>::empty());
        assert(Seq::new(16, |t: int| if j <= t < line.len() {
            line[t]
        } else {
            s.line1[t]
        }) =~= s.line1);
    } else {
        let b = line[j];
        let s2 = sim_step(s, b);
        assert(line.skip(j) =~= seq![b] + line.skip(j + 1));
        lemma_sim_apply_concat(s, seq![b], line.skip(j + 1));
        assert(seq![b].drop_last() =~= Seq::<u8>::empty());
        assert(seq![b].last() == b);
        assert(sim_apply(s, Seq::<u8>::empty()) == s);
        assert(sim_apply(s, seq![b]) == s2);
        lemma_sim_write_line1(s2, line, j + 1);
        assert(Seq::new(16, |t: int| if j + 1 <= t < line.len() {
            line[t]
        } else {
            s2.line1[t]
        }) =~= Seq::new(16, |t: int| if j <= t < line.len() {
            line[t]
        } else {
            s.line1[t]
        }));
    }
}

/// A full update is sound from any device state that is not mid-seek: the
/// display is reset and rewritten, so afterwards the device renders
/// exactly `v`, with the cursor just past the last line written (or at the
/// origin for an empty screen).
proof fn lemma_full_update_sound(v: DisplayView, start: ScreenSim)
    requires
        display_wf(v),
        printable(v),
        start.pending_seek == false,
    ensures
        ({
            let end = sim_apply(start, spec_full_update(v));
            &&& sim_displays(end, v)
            &&& end.cursor == match spec_full_cursor(v) {
                Some(p) => p,
                None => 0int,
            }
        }),
{
    let blank = padded(Seq::empty());
    let base = seq![0x17u8, 0x07u8];
    assert(base =~= Seq::<u8>::empty().push(0x17u8).push(0x07u8));
    lemma_sim_apply_push(start, Seq::<u8>::empty(), 0x17u8);
    lemma_sim_apply_push(start, Seq::<u8>::empty().push(0x17u8), 0x07u8);
    let s1 = sim_apply(start, base);
    assert(s1 == (ScreenSim {
        line0: blank,
        line1: blank,
        cursor: 0,
        style: CursorStyle::Hidden,
        pending_seek: false,
    }));
    // The line characters are printable because the screen's cells are.
    assert forall|t: int| 0 <= t < v.line0.len() implies v.line0[t] >= 0x20 by {
        assert(cell(v, t) == v.line0[t]);
    }
    assert forall|t: int| 0 <= t < v.line1.len() implies v.line1[t] >= 0x20 by {
        assert(cell(v, t + 16) == v.line1[t]);
    }
    let b1 = if v.line0.len() > 0 {
        base + seq![0x01u8] + v.line0
    } else {
        base
    };
    let s2 = sim_apply(start, b1);
    if v.line0.len() > 0 {
        lemma_sim_apply_push(start, base, 0x01u8);
        assert(base + seq![0x01u8] =~= base.push(0x01u8));
        let sa = sim_apply(start, base.push(0x01u8));
        lemma_sim_apply_concat(start, base.push(0x01u8), v.line0);
        assert(v.line0.skip(0) =~= v.line0);
        lemma_sim_write_line0(sa, v.line0, 0);
        assert(b1 =~= base.push(0x01u8) + v.line0);
        assert(s2.line0 =~= padded(v.line0));
    } else {
        assert(s2.line0 =~= padded(v.line0));
    }
    assert(s2.line1 == blank);
    assert(s2.pending_seek == false);
    assert(s2.style == CursorStyle::Hidden);
    let b2 = if v.line1.len() > 0 {
        b1 + seq![0x02u8] + v.line1
    } else {
        b1
    };
    let s3 = sim_apply(start, b2);
    if v.line1.len() > 0 {
        lemma_sim_apply_push(start, b1, 0x02u8);
        assert(b1 + seq![0x02u8] =~= b1.push(0x02u8));
        let sb = sim_apply(start, b1.push(0x02u8));
        lemma_sim_apply_concat(start, b1.push(0x02u8), v.line1);
        assert(v.line1.skip(0) =~= v.line1);
        lemma_sim_write_line1(sb, v.line1, 0);
        assert(b2 =~= b1.push(0x02u8) + v.line1);
        assert(s3.line1 =~= padded(v.line1));
        assert(s3.line0 == s2.line0);
    } else {
        assert(s3.line1 =~= padded(v.line1));
    }
    if v.cursor_style != CursorStyle::Hidden {
        let op = spec_style_op(v.cursor_style);
        assert(spec_full_update(v) =~= b2.push(op));
        lemma_sim_apply_push(start, b2, op);
    } else {
        assert(spec_full_update(v) == b2);
    }
}

/// Appending the cursor postlude only moves the cursor: to the commanded
/// position when there is one, else not at all.
proof fn lemma_postlude_applies(
    start: ScreenSim,
    base: Seq<u8>,
    desired: Option<u8>,
    cur: Option<int>,
)
    requires
        sim_apply(start, base).pending_seek == false,
        cur matches Some(p) ==> 0 <= p < 256 && sim_apply(start, base).cursor == p,
    ensures
        ({
            let prev = sim_apply(start, base);
            let end = sim_apply(start, base + spec_cursor_postlude(desired, cur));
            &&& end.line0 == prev.line0
            &&& end.line1 == prev.line1
            &&& end.style == prev.style
            &&& end.pending_seek == false
            &&& (desired matches Some(off) ==> end.cursor == off)
            &&& (desired is None ==> end == prev)
        }),
{
    let postlude = spec_cursor_postlude(desired, cur);
    if postlude.len() == 0 {
        assert(base + postlude =~= base);
    } else {
        let off = desired.unwrap();
        assert(base + postlude =~= base.push(0x03u8).push(off));
        lemma_sim_apply_push(start, base, 0x03u8);
        lemma_sim_apply_push(start, base.push(0x03u8), off);
    }
}

impl KeypadDisplayState {
    /// Encode the transition from `from` to this screen, choosing between a
    /// partial and a full update by their heuristic costs, and seek the
    /// commanded cursor position afterwards if the strategy did not land
    /// there. When the partial encoding is picked, its body (cursor
    /// postlude aside) never exceeds [`MAX_PARTIAL_UPDATE_SCORE`] bytes.
    /// Whatever is picked, replaying the bytes against a device that
    /// renders `from` — its cursor anywhere — leaves it rendering this
    /// screen, with the cursor at the commanded position if one is set.
    pub fn strategic_update(&self, from: &KeypadDisplayState) -> (r: Vec<u8>)
        requires
            self.wf(),
        ensures
            r@ == spec_strategic_update(from@, self@),
            spec_picks_partial(from@, self@) ==> spec_partial_update(from@, self@).len()
                <= MAX_PARTIAL_UPDATE_SCORE as int,
            printable(from@) && printable(self@) ==> forall|c0: int|
                #![trigger sim_init(from@, c0)]
                {
                    let end = sim_apply(sim_init(from@, c0), r@);
                    &&& sim_displays(end, self@)
                    &&& (self@.cursor_position matches Some(off) ==> end.cursor == off)
                },
    {
        proof {
            lemma_partial_len(from@, self@, 32);
            lemma_partial_inv(from@, self@, 32);
        }
        let update_score = self.update_score(from);
        let full_score = 3 + self.lines[0].len() + self.lines[1].len();
        let (mut update, cursor_position) = if update_score < full_score && update_score
            < MAX_PARTIAL_UPDATE_SCORE {
            self.partial_update(from)
        } else {
            self.full_update()
        };
        let ghost body = update@;
        let ghost cur = opt_as_int(cursor_position);
        let ghost picked_partial = spec_picks_partial(from@, self@);
        append_cursor_postlude(&mut update, self.cursor_position, cursor_position);
        proof {
            assert(update@ =~= spec_strategic_update(from@, self@));
            if printable(from@) && printable(self@) {
                assert forall|c0: int| #![trigger sim_init(from@, c0)]
                    {
                        let end = sim_apply(sim_init(from@, c0), update@);
                        &&& sim_displays(end, self@)
                        &&& (self@.cursor_position matches Some(off) ==> end.cursor == off)
                    } by {
                    let start = sim_init(from@, c0);
                    if !picked_partial {
                        lemma_full_update_sound(self@, start);
                    }
                    // The strategy leaves the device rendering this screen
                    // with the cursor at a known, in-range cell (or where
                    // it started, when nothing was written); the postlude
                    // then seeks the commanded position.
                    let after_body = sim_apply(start, body);
                    match cur {
                        Some(p) => {
                            if picked_partial {
                                // A partial update's cursor rests one past
                                // the cell it last wrote.
                                let j = choose|j: int|
                                    0 <= j < 32 && #[trigger] cell_differs(from@, self@, j) && p
                                        == cell_addr(j) + 1;
                                assert(0 <= p < 256);
                            }
                            assert(0 <= p < 256 && after_body.cursor == p);
                        },
                        None => {},
                    }
                    lemma_postlude_applies(start, body, self@.cursor_position, cur);
                }
            }
        }
        update
    }

    /// Encode a full resynchronising update of this screen, cursor postlude
    /// included, ignoring cost: used when a screen send is forced. Because
    /// the display is reset first, replaying the bytes leaves the device
    /// rendering this screen whatever it held before, with the cursor at
    /// the commanded position if one is set.
    pub fn forced_update(&self) -> (r: Vec<u8>)
        requires
            self.wf(),
        ensures
            r@ == spec_forced_update(self@),
            printable(self@) ==> forall|start: ScreenSim|
                #![trigger sim_apply(start, r@)]
                start.pending_seek == false ==> {
                    let end = sim_apply(start, r@);
                    &&& sim_displays(end, self@)
                    &&& (self@.cursor_position matches Some(off) ==> end.cursor == off)
                },
    {
        let (mut update, cursor_position) = self.full_update();
        let ghost body = update@;
        let ghost cur = opt_as_int(cursor_position);
        append_cursor_postlude(&mut update, self.cursor_position, cursor_position);
        proof {
            assert(update@ =~= spec_forced_update(self@));
            if printable(self@) {
                assert forall|start: ScreenSim| #![trigger sim_apply(start, update@)]
                    start.pending_seek == false implies {
                    let end = sim_apply(start, update@);
                    &&& sim_displays(end, self@)
                    &&& (self@.cursor_position matches Some(off) ==> end.cursor == off)
                } by {
                    lemma_full_update_sound(self@, start);
                    lemma_postlude_applies(start, body, self@.cursor_position, cur);
                }
            }
        }
        update
    }
}

/// Append the cursor postlude for a commanded position.
fn append_cursor_postlude(data: &mut Vec<u8>, desired: Option<u8>, cur: Option<usize>)
    requires
        cur matches Some(p) ==> p <= 0xFF,
    ensures
        final(data)@ == old(data)@ + spec_cursor_postlude(desired, opt_as_int(cur)),
{
    let ghost before = data@;
    if let Some(offset) = desired {
        let need = match cur {
            None => true,
            Some(cur_pos) => cur_pos as u8 != offset,
        };
        if need {
            data.push(ScreenOpCodes::CURSOR_SEEK_BYTE);
            data.push(offset);
        }
    }
    proof {
        assert(data@ =~= before + spec_cursor_postlude(desired, opt_as_int(cur)));
    }
}

/// Emit the bytes that move the cursor to cell `c` at address `offset`.
fn push_seek(data: &mut Vec<u8>, c: usize, offset: usize)
    requires
        c < 32,
        offset == cell_addr(c as int),
    ensures
        final(data)@ == old(data)@ + spec_seek_to(c as int),
{
    let ghost before = data@;
    if c % 16 == 0 {
        if c < 16 {
            data.push(ScreenOpCodes::CURSOR_FIRST_LINE);
        } else {
            data.push(ScreenOpCodes::CURSOR_SECOND_LINE);
        }
    } else {
        data.push(ScreenOpCodes::CURSOR_SEEK_BYTE);
        data.push(offset as u8);
    }
    proof {
        assert(data@ =~= before + spec_seek_to(c as int));
    }
}

} // verus!
