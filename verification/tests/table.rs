use asconvert::ascii::{ascii_entry, ascii_table, entry_char_color, table_column};
use asconvert::layout::{centered_popup, scrollbar_content_length, Area};
use asconvert::mode::{Mode, Separator};
use asconvert::palette::Palette;

#[test]
fn table_has_all_codes() {
    let t = ascii_table();
    assert_eq!(t.len(), 128);
    for (i, e) in t.iter().enumerate() {
        assert_eq!(e.dec as usize, i);
        assert_eq!(e.hex, format!("{:02X}", i));
        assert_eq!(e.is_ctrl, i < 32 || i == 127);
    }
    assert_eq!(t[0].label, "[NUL]");
    assert_eq!(t[9].label, "[HT]");
    assert_eq!(t[27].label, "[ESC]");
    assert_eq!(t[31].label, "[US]");
    assert_eq!(t[32].label, "[SPC]");
    assert_eq!(t[65].label, "A");
    assert_eq!(t[92].label, "\\");
    assert_eq!(t[127].label, "[DEL]");
    assert_eq!(t[127].hex, "7F");
}

#[test]
fn entry_colors_by_kind() {
    assert_eq!(entry_char_color(&ascii_entry(0)), Palette::TableControl);
    assert_eq!(entry_char_color(&ascii_entry(127)), Palette::TableSpecial);
    assert_eq!(entry_char_color(&ascii_entry(31)), Palette::TableControl);
    assert_eq!(entry_char_color(&ascii_entry(32)), Palette::TableSpecial);
    assert_eq!(entry_char_color(&ascii_entry(48)), Palette::TableDigit);
    assert_eq!(entry_char_color(&ascii_entry(57)), Palette::TableDigit);
    assert_eq!(entry_char_color(&ascii_entry(65)), Palette::TableUpper);
    assert_eq!(entry_char_color(&ascii_entry(90)), Palette::TableUpper);
    assert_eq!(entry_char_color(&ascii_entry(97)), Palette::TableLower);
    assert_eq!(entry_char_color(&ascii_entry(122)), Palette::TableLower);
    assert_eq!(entry_char_color(&ascii_entry(33)), Palette::TablePunct);
    assert_eq!(entry_char_color(&ascii_entry(126)), Palette::TablePunct);
}

#[test]
fn table_column_cells() {
    let rows = table_column(2, 1, 3);
    assert_eq!(rows.len(), 3);
    assert_eq!(rows[0].dec_cell, format!(" {:>3} ", 65));
    assert_eq!(rows[0].hex_cell, format!(" {:>2}  ", "41"));
    assert_eq!(rows[0].label_cell, format!(" {:<9}", "A"));
    assert_eq!(rows[0].code_color, Palette::TextDim);
    assert_eq!(rows[1].code_color, Palette::TextMid);
    assert_eq!(rows[0].label_color, Palette::TableUpper);
    assert!(!rows[0].italic);
    let rows = table_column(0, 0, 2);
    assert_eq!(rows[0].dec_cell, "   0 ");
    assert_eq!(rows[0].label_cell, format!(" {:<9}", "[NUL]"));
    assert!(rows[0].italic);
}

#[test]
fn table_column_stops_at_table_end() {
    assert_eq!(table_column(3, 30, 10).len(), 2);
    assert_eq!(table_column(3, 32, 10).len(), 0);
    assert_eq!(table_column(0, 0, 100).len(), 100);
    assert_eq!(table_column(0, 0, 200).len(), 128);
    let last = table_column(3, 31, 5);
    assert_eq!(last.len(), 1);
    assert_eq!(last[0].dec_cell, " 127 ");
    assert_eq!(last[0].label_cell, " [DEL]    ");
}

#[test]
fn popups_are_centred() {
    let area = Area { x: 0, y: 0, width: 120, height: 40 };
    assert_eq!(centered_popup(area, 2, 104, 2, 35), Area { x: 8, y: 2, width: 104, height: 35 });
    assert_eq!(centered_popup(area, 4, 54, 2, 24), Area { x: 33, y: 8, width: 54, height: 24 });
    let small = Area { x: 3, y: 1, width: 3, height: 1 };
    assert_eq!(centered_popup(small, 4, 54, 2, 24), Area { x: 4, y: 1, width: 0, height: 0 });
}

#[test]
fn scrollbar_lengths() {
    assert_eq!(scrollbar_content_length(16), 18);
    assert_eq!(scrollbar_content_length(17), 16);
    assert_eq!(scrollbar_content_length(1), 32);
    assert_eq!(scrollbar_content_length(2), 32);
}

#[test]
fn mode_tables() {
    let all = Mode::all();
    for (i, m) in all.iter().enumerate() {
        assert_eq!(m.index(), i);
        assert_eq!(Mode::from_index(i), *m);
    }
    assert_eq!(Mode::from_index(9), Mode::HexToText);
    assert_eq!(Mode::TextToDecimal.label(), "Text  →  Decimal");
    assert_eq!(Mode::HexToText.label(), "Hex  →  Text");
    assert_eq!(Mode::TextToHex.icon(), "◈");
    assert_eq!(Mode::HexToText.input_hint(), "e.g.  48 65 6C  or  48,65,6C");
    assert_eq!(Mode::DecimalToText.accent(), Palette::Mint);
    assert_eq!(Mode::TextToHex.accent().rgb(), (110, 195, 235));
}

#[test]
fn separators() {
    assert_eq!(Separator::Space.char(), " ");
    assert_eq!(Separator::Comma.char(), ",");
    assert_eq!(Separator::Newline.char(), "\n");
    assert_eq!(Separator::Newline.label(), "Newline");
    assert_eq!(Separator::Newline.next(), Separator::Space);
}

#[test]
fn palette_values() {
    assert_eq!(Palette::Background.rgb(), (18, 20, 26));
    assert_eq!(Palette::Coral.rgb(), (235, 130, 120));
    assert_eq!(Palette::TableSpecial.rgb(), (160, 165, 185));
}
