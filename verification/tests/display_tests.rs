use galaxy::display::{CursorStyle, KeypadDisplayState, ScreenOpCodes};

fn screen(lines: [&str; 2], style: CursorStyle, cursor: Option<u8>) -> KeypadDisplayState {
    KeypadDisplayState {
        lines: [lines[0].as_bytes().to_vec(), lines[1].as_bytes().to_vec()],
        cursor_position: cursor,
        cursor_style: style,
    }
}

/// Test screen doing a full update, from a full screen to a very empty screen.
#[test]
fn screen_simulate_full_update() {
    let before = screen(
        ["VERY LONG LINE", "SOME MORE TEXT"],
        CursorStyle::Block,
        Some(0x45),
    );
    let after = screen(["A", ""], CursorStyle::Block, Some(0x45));

    let update = after.strategic_update(&before);

    assert_eq!(update, vec![0x17, 0x07, 0x01, 'A' as u8, 0x06, 0x03, 0x45]);
}

/// Test screen doing a partial update, with very disparate blocks of updated
/// text spread across the screen. The updates are constructed so as to test
/// block fusing (differring characters separated by a single unchanged
/// character), start of line cursor seek optimisation (use the special
/// commands to jump to 0x0 or 0x40 for a 1 byte reduction) and sequential
/// character updates (only seek to start of a block, not charaters within a
/// block as the cursor is advanced automatically).
#[test]
fn screen_simulate_partial_update() {
    let before = screen(
        ["ABCD1234EFGH5678", "0123456789ABCDEF"],
        CursorStyle::Hidden,
        None,
    );
    let after = screen(
        ["ABCCC234EEGH8765", "1023456789ABCDDD"],
        CursorStyle::Hidden,
        None,
    );

    let update = after.strategic_update(&before);
    let expect = vec![
        0x03, 0x03, 0x43, 0x43, 0x03, 0x09, 0x45, 0x03, 0x0C, 0x38, 0x37, 0x36, 0x35, 0x02, 0x31,
        0x30, 0x03, 0x4E, 0x44, 0x44,
    ];

    assert_eq!(
        update, expect,
        "got: {:02X?} expect: {:02X?}",
        update, expect
    );
}

#[test]
fn test_update_score_counts_blocks_and_chars() {
    let before = screen(["AAAA", "BBBB"], CursorStyle::Hidden, None);
    // One changed cell: one block of one character.
    let after = screen(["AABA", "BBBB"], CursorStyle::Hidden, None);
    assert_eq!(after.update_score(&before), 3);
    // Adding a style change costs one more point.
    let styled = screen(["AABA", "BBBB"], CursorStyle::Block, None);
    assert_eq!(styled.update_score(&before), 4);
}

#[test]
fn test_partial_update_single_cell() {
    let before = screen(["AAAA", ""], CursorStyle::Hidden, None);
    let after = screen(["AABA", ""], CursorStyle::Hidden, None);
    let (update, cursor) = after.partial_update(&before);
    // Seek to cell 2, write 'B'.
    assert_eq!(update, vec![0x03, 0x02, 'B' as u8]);
    assert_eq!(cursor, Some(3));
}

#[test]
fn test_partial_update_stays_under_ceiling_when_picked() {
    let before = screen(["ABCD1234EFGH5678", "0123456789ABCDEF"], CursorStyle::Hidden, None);
    let after = screen(["ABCCC234EEGH8765", "1023456789ABCDDD"], CursorStyle::Hidden, None);
    let score = after.update_score(&before);
    let (update, _) = after.partial_update(&before);
    assert!(score < 40);
    assert!(update.len() <= 40);
    assert!(update.len() <= score + 1);
}

#[test]
fn test_full_update_empty_screen() {
    let empty = screen(["", ""], CursorStyle::Hidden, None);
    let (update, cursor) = empty.full_update();
    assert_eq!(update, vec![0x17, 0x07]);
    assert_eq!(cursor, None);
}

#[test]
fn test_strategic_update_appends_cursor_seek() {
    let before = screen(["AAAA", ""], CursorStyle::Hidden, None);
    // A small diff with a commanded cursor position away from where the
    // partial update leaves the cursor.
    let after = screen(["AABA", ""], CursorStyle::Hidden, Some(0x40));
    let update = after.strategic_update(&before);
    assert_eq!(update, vec![0x03, 0x02, 'B' as u8, 0x03, 0x40]);
}

#[test]
fn test_forced_update_is_full_with_postlude() {
    let state = screen(["HI", ""], CursorStyle::Underline, Some(0x00));
    let update = state.forced_update();
    assert_eq!(
        update,
        vec![0x17, 0x07, 0x01, 'H' as u8, 'I' as u8, 0x10, 0x03, 0x00]
    );
}

#[test]
fn test_cursor_style_op_code() {
    assert_eq!(ScreenOpCodes::cursor_style_op_code(CursorStyle::Hidden), 0x07);
    assert_eq!(ScreenOpCodes::cursor_style_op_code(CursorStyle::Block), 0x06);
    assert_eq!(
        ScreenOpCodes::cursor_style_op_code(CursorStyle::Underline),
        0x10
    );
}
