use vstd::prelude::*;

use crate::chars::push_char;
use crate::codes::{decimal_text, hex_byte_text, push_code, push_decimal, Radix};
use crate::palette::Palette;

verus! {

/// The number of entries in the ASCII reference table, codes 0 to 127.
pub const TABLE_LEN: usize = 128;

/// The number of table rows in each of its four columns.
pub const ROWS_PER_COLUMN: usize = 32;

/// One row of the ASCII reference table.
pub struct AsciiEntry {
    pub dec: u8,
    pub hex: String,
    pub label: String,
    pub is_ctrl: bool,
}

/// Control codes: 0 to 31, and 127.
pub open spec fn is_control(d: u8) -> bool {
    d < 32 || d == 127
}

/// The bracketed abbreviation of a control code.
pub open spec fn control_name(d: u8) -> Seq<char> {
    match d {
        0u8 => "[NUL]"@,
        1u8 => "[SOH]"@,
        2u8 => "[STX]"@,
        3u8 => "[ETX]"@,
        4u8 => "[EOT]"@,
        5u8 => "[ENQ]"@,
        6u8 => "[ACK]"@,
        7u8 => "[BEL]"@,
        8u8 => "[BS]"@,
        9u8 => "[HT]"@,
        10u8 => "[LF]"@,
        11u8 => "[VT]"@,
        12u8 => "[FF]"@,
        13u8 => "[CR]"@,
        14u8 => "[SO]"@,
        15u8 => "[SI]"@,
        16u8 => "[DLE]"@,
        17u8 => "[DC1]"@,
        18u8 => "[DC2]"@,
        19u8 => "[DC3]"@,
        20u8 => "[DC4]"@,
        21u8 => "[NAK]"@,
        22u8 => "[SYN]"@,
        23u8 => "[ETB]"@,
        24u8 => "[CAN]"@,
        25u8 => "[EM]"@,
        26u8 => "[SUB]"@,
        27u8 => "[ESC]"@,
        28u8 => "[FS]"@,
        29u8 => "[GS]"@,
        30u8 => "[RS]"@,
        31u8 => "[US]"@,
        _ => "[DEL]"@,
    }
}

/// What the table shows for a code: the character itself, or a bracketed name
/// for space and the control codes.
pub open spec fn entry_label(d: u8) -> Seq<char> {
    if d == 32 {
        "[SPC]"@
    } else if is_control(d) {
        control_name(d)
    } else {
        seq![d as char]
    }
}

/// The entry describes code `d`.
pub open spec fn describes(e: AsciiEntry, d: u8) -> bool {
    &&& e.dec == d
    &&& e.hex@ == hex_byte_text(d)
    &&& e.label@ == entry_label(d)
    &&& e.is_ctrl == is_control(d)
}

fn control_name_str(d: u8) -> (s: &'static str)
    requires
        is_control(d),
    ensures
        s@ == control_name(d),
{
    match d {
        0u8 => "[NUL]",
        1u8 => "[SOH]",
        2u8 => "[STX]",
        3u8 => "[ETX]",
        4u8 => "[EOT]",
        5u8 => "[ENQ]",
        6u8 => "[ACK]",
        7u8 => "[BEL]",
        8u8 => "[BS]",
        9u8 => "[HT]",
        10u8 => "[LF]",
        11u8 => "[VT]",
        12u8 => "[FF]",
        13u8 => "[CR]",
        14u8 => "[SO]",
        15u8 => "[SI]",
        16u8 => "[DLE]",
        17u8 => "[DC1]",
        18u8 => "[DC2]",
        19u8 => "[DC3]",
        20u8 => "[DC4]",
        21u8 => "[NAK]",
        22u8 => "[SYN]",
        23u8 => "[ETB]",
        24u8 => "[CAN]",
        25u8 => "[EM]",
        26u8 => "[SUB]",
        27u8 => "[ESC]",
        28u8 => "[FS]",
        29u8 => "[GS]",
        30u8 => "[RS]",
        31u8 => "[US]",
        _ => "[DEL]",
    }
}

/// The table entry of one code.
pub fn ascii_entry(dec: u8) -> (e: AsciiEntry)
    requires
        dec < 128,
    ensures
        describes(e, dec),
{
    let mut hex = String::new();
    push_code(&mut hex, dec, Radix::Hex);
    let label = if dec == 32 {
        "[SPC]".to_owned()
    } else if dec < 32 || dec == 127 {
        control_name_str(dec).to_owned()
    } else {
        let mut s = String::new();
        push_char(&mut s, dec as char);
        s
    };
    assert(hex@ =~= hex_byte_text(dec));
    AsciiEntry { dec, hex, label, is_ctrl: dec < 32 || dec == 127 }
}

/// The whole reference table, one entry per code from 0 to 127.
pub fn ascii_table() -> (t: Vec<AsciiEntry>)
    ensures
        t@.len() == TABLE_LEN,
        forall|i: int| 0 <= i < TABLE_LEN ==> describes(#[trigger] t@[i], i as u8),
{
    let mut t: Vec<AsciiEntry> = Vec::new();
    let mut d: u8 = 0;
    while d < 128
        invariant
            d <= 128,
            t@.len() == d,
            forall|i: int| 0 <= i < d ==> describes(#[trigger] t@[i], i as u8),
        decreases 128 - d,
    {
        t.push(ascii_entry(d));
        d += 1;
    }
    t
}

/// The colour of a code's character in the table, by kind of character: space
/// and DEL are muted, the other control codes have their own colour.
pub open spec fn char_color(dec: u8, is_ctrl: bool) -> Palette {
    if dec == 32 || dec == 127 {
        Palette::TableSpecial
    } else if is_ctrl {
        Palette::TableControl
    } else if 48 <= dec && dec <= 57 {
        Palette::TableDigit
    } else if 65 <= dec && dec <= 90 {
        Palette::TableUpper
    } else if 97 <= dec && dec <= 122 {
        Palette::TableLower
    } else {
        Palette::TablePunct
    }
}

/// The colour an entry's character is shown in.
pub fn entry_char_color(e: &AsciiEntry) -> (c: Palette)
    ensures
        c == char_color(e.dec, e.is_ctrl),
{
    if e.dec == 32 || e.dec == 127 {
        Palette::TableSpecial
    } else if e.is_ctrl {
        Palette::TableControl
    } else if e.dec >= 48 && e.dec <= 57 {
        Palette::TableDigit
    } else if e.dec >= 65 && e.dec <= 90 {
        Palette::TableUpper
    } else if e.dec >= 97 && e.dec <= 122 {
        Palette::TableLower
    } else {
        Palette::TablePunct
    }
}

/// `n` spaces.
pub open spec fn spaces(n: nat) -> Seq<char> {
    Seq::new(n, |i: int| ' ')
}

/// `s` right-aligned in a field of `width` characters.
pub open spec fn pad_left(s: Seq<char>, width: nat) -> Seq<char> {
    if s.len() < width {
        spaces((width - s.len()) as nat) + s
    } else {
        s
    }
}

/// `s` left-aligned in a field of `width` characters.
pub open spec fn pad_right(s: Seq<char>, width: nat) -> Seq<char> {
    if s.len() < width {
        s + spaces((width - s.len()) as nat)
    } else {
        s
    }
}

fn push_spaces(out: &mut String, n: usize)
    ensures
        final(out)@ == old(out)@ + spaces(n as nat),
{
    let mut i: usize = 0;
    while i < n
        invariant
            i <= n,
            out@ == old(out)@ + spaces(i as nat),
        decreases n - i,
    {
        push_char(out, ' ');
        assert(old(out)@ + spaces((i + 1) as nat) =~= (old(out)@ + spaces(i as nat)).push(' '));
        i += 1;
    }
    assert(out@ =~= old(out)@ + spaces(n as nat));
}

/// One line of a table column, its cells written out and its colours chosen.
pub struct TableRow {
    pub dec_cell: String,
    pub hex_cell: String,
    pub label_cell: String,
    pub code_color: Palette,
    pub label_color: Palette,
    pub italic: bool,
}

/// The row shows code `d`, lying `offset` rows into its column.
pub open spec fn shows(r: TableRow, d: u8, offset: nat) -> bool {
    &&& r.dec_cell@ == seq![' '] + pad_left(decimal_text(d as nat), 3) + seq![' ']
    &&& r.hex_cell@ == seq![' '] + pad_left(hex_byte_text(d), 2) + seq![' ', ' ']
    &&& r.label_cell@ == seq![' '] + pad_right(entry_label(d), 9)
    &&& r.code_color == if offset % 2 == 0 {
        Palette::TextMid
    } else {
        Palette::TextDim
    }
    &&& r.label_color == char_color(d, is_control(d))
    &&& r.italic == is_control(d)
}

fn table_row(d: u8, offset: usize) -> (r: TableRow)
    requires
        d < 128,
    ensures
        shows(r, d, offset as nat),
{
    let e = ascii_entry(d);
    let mut dec_cell = String::new();
    push_char(&mut dec_cell, ' ');
    let digits: usize = if d >= 100 {
        3
    } else if d >= 10 {
        2
    } else {
        1
    };
    proof {
        let n = d as nat;
        if n >= 10 {
            if n / 10 >= 10 {
                assert(decimal_text((n / 10) / 10).len() == 1);
            }
            assert(decimal_text(n / 10).len() == if n >= 100 { 2nat } else { 1nat });
        }
        assert(decimal_text(n).len() == digits);
    }
    push_spaces(&mut dec_cell, 3 - digits);
    push_decimal(&mut dec_cell, d as usize);
    push_char(&mut dec_cell, ' ');
    assert(dec_cell@ =~= seq![' '] + pad_left(decimal_text(d as nat), 3) + seq![' ']);
    let mut hex_cell = String::new();
    push_char(&mut hex_cell, ' ');
    hex_cell.append(e.hex.as_str());
    push_char(&mut hex_cell, ' ');
    push_char(&mut hex_cell, ' ');
    assert(hex_cell@ =~= seq![' '] + pad_left(hex_byte_text(d), 2) + seq![' ', ' ']);
    let mut label_cell = String::new();
    push_char(&mut label_cell, ' ');
    label_cell.append(e.label.as_str());
    let len = label_width(d);
    push_spaces(&mut label_cell, 9 - len);
    assert(label_cell@ =~= seq![' '] + pad_right(entry_label(d), 9));
    let code_color = if offset % 2 == 0 {
        Palette::TextMid
    } else {
        Palette::TextDim
    };
    TableRow {
        dec_cell,
        hex_cell,
        label_cell,
        code_color,
        label_color: entry_char_color(&e),
        italic: e.is_ctrl,
    }
}

fn label_width(d: u8) -> (n: usize)
    requires
        d < 128,
    ensures
        n == entry_label(d).len(),
        n <= 9,
{
    proof {
        reveal_strlit("[SPC]");
        reveal_strlit("[DEL]");
        reveal_strlit("[NUL]");
        reveal_strlit("[SOH]");
        reveal_strlit("[STX]");
        reveal_strlit("[ETX]");
        reveal_strlit("[EOT]");
        reveal_strlit("[ENQ]");
        reveal_strlit("[ACK]");
        reveal_strlit("[BEL]");
        reveal_strlit("[BS]");
        reveal_strlit("[HT]");
        reveal_strlit("[LF]");
        reveal_strlit("[VT]");
        reveal_strlit("[FF]");
        reveal_strlit("[CR]");
        reveal_strlit("[SO]");
        reveal_strlit("[SI]");
        reveal_strlit("[DLE]");
        reveal_strlit("[DC1]");
        reveal_strlit("[DC2]");
        reveal_strlit("[DC3]");
        reveal_strlit("[DC4]");
        reveal_strlit("[NAK]");
        reveal_strlit("[SYN]");
        reveal_strlit("[ETB]");
        reveal_strlit("[CAN]");
        reveal_strlit("[EM]");
        reveal_strlit("[SUB]");
        reveal_strlit("[ESC]");
        reveal_strlit("[FS]");
        reveal_strlit("[GS]");
        reveal_strlit("[RS]");
        reveal_strlit("[US]");
    }
    if d == 32 || d == 127 {
        5
    } else if d < 32 {
        control_name_str(d).unicode_len()
    } else {
        1
    }
}

/// How many rows a column shows: those from `scroll` on, at most `visible`,
/// and none past the end of the table.
pub open spec fn column_len(col: nat, scroll: nat, visible: nat) -> nat {
    let first = col * ROWS_PER_COLUMN + scroll;
    if first >= TABLE_LEN {
        0
    } else if visible < TABLE_LEN - first {
        visible
    } else {
        (TABLE_LEN - first) as nat
    }
}

/// The visible rows of column `col` (codes `32 * col` onwards) when the table
/// is scrolled by `scroll` rows and `visible` rows fit.
pub fn table_column(col: usize, scroll: usize, visible: usize) -> (rows: Vec<TableRow>)
    requires
        col < 4,
        scroll + visible <= usize::MAX,
    ensures
        rows@.len() == column_len(col as nat, scroll as nat, visible as nat),
        forall|k: int|
            0 <= k < rows@.len() ==> shows(
                #[trigger] rows@[k],
                (col * ROWS_PER_COLUMN + scroll + k) as u8,
                (scroll + k) as nat,
            ),
{
    let base = col * ROWS_PER_COLUMN;
    let end = scroll + visible;
    let mut rows: Vec<TableRow> = Vec::new();
    let mut offset = scroll;
    while offset < end && offset < TABLE_LEN - base
        invariant
            base == col * ROWS_PER_COLUMN,
            col < 4,
            end == scroll + visible,
            scroll <= offset <= end,
            base + scroll >= TABLE_LEN ==> offset == scroll,
            rows@.len() == offset - scroll,
            offset - scroll <= column_len(col as nat, scroll as nat, visible as nat),
            forall|k: int|
                0 <= k < rows@.len() ==> shows(
                    #[trigger] rows@[k],
                    (col * ROWS_PER_COLUMN + scroll + k) as u8,
                    (scroll + k) as nat,
                ),
        decreases end - offset,
    {
        let idx = base + offset;
        rows.push(table_row(idx as u8, offset));
        offset += 1;
    }
    rows
}

} // verus!
