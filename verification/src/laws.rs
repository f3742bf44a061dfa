use vstd::prelude::*;
use vstd::utf8::{encode_utf8, is_ascii_chars, is_ascii_chars_encode_utf8};

use crate::app::{
    conversion, initial_view, is_table_key, through_last_space, trim_end, without_last_word, AppView,
    Flow, Key, KeyInput, TABLE_LAST,
};
use crate::ascii::entry_label;
use crate::chars::is_whitespace;
use crate::codes::{comma_as_space, split_words, words_from};
use crate::codes::{
    codes_to_text, decode_words, latin1, lemma_codes_round_trip, spec_parse_code, text_to_codes,
    Radix,
};
use crate::mode::{Mode, Separator};

verus! {

/// A mode's tab position leads back to the mode, and each position below four
/// to a mode at that position.
pub proof fn law_mode_index_round_trip(m: Mode, i: nat)
    ensures
        Mode::spec_from_index(m.spec_index()) == m,
        i < 4 ==> Mode::spec_from_index(i).spec_index() == i,
{
}

/// Going to the next mode and back, or back and then on, changes nothing; four
/// steps forward come round to the start.
pub proof fn law_mode_cycle(m: Mode)
    ensures
        m.spec_next().spec_prev() == m,
        m.spec_prev().spec_next() == m,
        m.spec_next().spec_next().spec_next().spec_next() == m,
{
}

/// The separators come round after three steps, and the three differ.
pub proof fn law_separator_cycle(s: Separator)
    ensures
        s.spec_next().spec_next().spec_next() == s,
        s.spec_next() != s,
        s.spec_next().spec_next() != s,
{
}

/// Reading back the codes written for any text gives its UTF-8 bytes, each as
/// the character of the same value, whatever the separator.
pub proof fn law_codes_round_trip(text: Seq<char>, sep: Separator, radix: Radix)
    ensures
        codes_to_text(text_to_codes(text, seq![sep.spec_char()], radix), radix) == Ok::<
            Seq<char>,
            Seq<char>,
        >(latin1(encode_utf8(text))),
{
    lemma_codes_round_trip(text, sep.spec_char(), radix);
}

/// For ASCII text, writing codes and reading them back gives the text itself.
pub proof fn law_ascii_round_trip(text: Seq<char>, sep: Separator, radix: Radix)
    requires
        is_ascii_chars(text),
    ensures
        codes_to_text(text_to_codes(text, seq![sep.spec_char()], radix), radix) == Ok::<
            Seq<char>,
            Seq<char>,
        >(text),
{
    lemma_codes_round_trip(text, sep.spec_char(), radix);
    is_ascii_chars_encode_utf8(text);
    assert(latin1(encode_utf8(text)) =~= text);
}

/// What the converter shows in Text → Decimal, typed into Decimal → Text, shows
/// the ASCII text again without error; the same holds for the hex modes.
pub proof fn law_converter_round_trip(text: Seq<char>, sep: Separator, other: Separator)
    requires
        is_ascii_chars(text),
    ensures
        conversion(Mode::DecimalToText, conversion(Mode::TextToDecimal, text, sep).0, other) == (
        text, None::<Seq<char>>),
        conversion(Mode::HexToText, conversion(Mode::TextToHex, text, sep).0, other) == (
        text, None::<Seq<char>>),
{
    if text.len() > 0 {
        law_ascii_round_trip(text, sep, Radix::Decimal);
        law_ascii_round_trip(text, sep, Radix::Hex);
        is_ascii_chars_encode_utf8(text);
        let d = conversion(Mode::TextToDecimal, text, sep).0;
        let h = conversion(Mode::TextToHex, text, sep).0;
        assert(encode_utf8(text).len() > 0);
        crate::codes::lemma_code_text_parses(encode_utf8(text)[0], Radix::Decimal);
        crate::codes::lemma_code_text_parses(encode_utf8(text)[0], Radix::Hex);
        lemma_join_nonempty(encode_utf8(text), seq![sep.spec_char()], Radix::Decimal);
        lemma_join_nonempty(encode_utf8(text), seq![sep.spec_char()], Radix::Hex);
    } else {
        assert(conversion(Mode::TextToDecimal, text, sep).0 =~= Seq::<char>::empty());
        assert(conversion(Mode::TextToHex, text, sep).0 =~= Seq::<char>::empty());
    }
}

proof fn lemma_join_nonempty(bytes: Seq<u8>, sep: Seq<char>, radix: Radix)
    requires
        bytes.len() > 0,
    ensures
        crate::codes::join(crate::codes::byte_codes(bytes, radix), sep).len() > 0,
{
    let parts = crate::codes::byte_codes(bytes, radix);
    crate::codes::lemma_code_text_parses(bytes[0], radix);
    assert(parts[0] == crate::codes::code_text(bytes[0], radix));
}

/// Reading codes fails exactly when some word is no code, and then the error
/// names the first such word.
pub proof fn law_decode_error_is_first_bad_word(words: Seq<Seq<char>>, radix: Radix)
    ensures
        decode_words(words, radix) is Ok <==> forall|i: int|
            0 <= i < words.len() ==> spec_parse_code(#[trigger] words[i], radix) is Some,
        decode_words(words, radix) matches Err(w) ==> exists|i: int|
            0 <= i < words.len() && words[i] == w && spec_parse_code(words[i], radix) is None && (
            forall|j: int| 0 <= j < i ==> spec_parse_code(#[trigger] words[j], radix) is Some),
    decreases words.len(),
{
    if words.len() > 0 {
        let rest = words.drop_first();
        law_decode_error_is_first_bad_word(rest, radix);
        assert forall|i: int| 0 <= i < rest.len() implies rest[i] == words[i + 1] by {}
        if spec_parse_code(words[0], radix) is Some {
            if decode_words(rest, radix) is Ok {
                assert forall|i: int| 0 <= i < words.len() implies spec_parse_code(
                    #[trigger] words[i],
                    radix,
                ) is Some by {
                    if i > 0 {
                        assert(words[i] == rest[i - 1]);
                    }
                }
            } else {
                let w = decode_words(rest, radix)->Err_0;
                let i = choose|i: int|
                    0 <= i < rest.len() && rest[i] == w && spec_parse_code(rest[i], radix) is None
                        && (forall|j: int|
                        0 <= j < i ==> spec_parse_code(#[trigger] rest[j], radix) is Some);
                assert(words[i + 1] == w);
                assert forall|j: int| 0 <= j < i + 1 implies spec_parse_code(
                    #[trigger] words[j],
                    radix,
                ) is Some by {
                    if j > 0 {
                        assert(words[j] == rest[j - 1]);
                    }
                }
                assert(spec_parse_code(words[i + 1], radix) is None);
            }
        }
    }
}

/// A fresh converter's output and error agree with its input.
pub proof fn law_initial_consistent()
    ensures
        initial_view().is_consistent(),
{
}

/// Every key press, and every tick, leaves output and error in agreement with
/// mode, input and separator.
pub proof fn law_steps_keep_consistency(v: AppView, k: KeyInput)
    requires
        v.is_consistent(),
    ensures
        v.key_step(k).0.is_consistent(),
        v.ticked().is_consistent(),
{
}

/// Key presses keep the table's scroll within the table.
pub proof fn law_steps_keep_scroll_in_table(v: AppView, k: KeyInput)
    requires
        v.table_scroll <= TABLE_LAST,
    ensures
        v.key_step(k).0.table_scroll <= TABLE_LAST,
{
}

/// Typing a character and deleting it again restores the state.
pub proof fn law_push_then_pop(v: AppView, c: char)
    requires
        v.is_consistent(),
    ensures
        v.with_input(v.input.push(c)).popped() == v,
{
    assert(v.input.push(c).drop_last() =~= v.input);
    assert(v.with_input(v.input.push(c)).popped() =~= v);
}

/// Going to the next mode and back again restores the state.
pub proof fn law_next_then_prev_mode(v: AppView)
    requires
        v.is_consistent(),
    ensures
        v.with_mode(v.mode.spec_next()).with_mode(v.mode.spec_next().spec_prev()) == v,
{
    assert(v.with_mode(v.mode.spec_next()).with_mode(v.mode.spec_next().spec_prev()) =~= v);
}

/// Three turns of the separator restore the state.
pub proof fn law_separator_three_turns(v: AppView)
    requires
        v.is_consistent(),
    ensures
        ({
            let a = v.with_separator(v.separator.spec_next());
            let b = a.with_separator(a.separator.spec_next());
            b.with_separator(b.separator.spec_next())
        }) == v,
{
    let a = v.with_separator(v.separator.spec_next());
    let b = a.with_separator(a.separator.spec_next());
    assert(b.with_separator(b.separator.spec_next()) =~= v);
}

/// Clearing empties input, output and error and keeps everything else.
pub proof fn law_clear(v: AppView)
    ensures
        v.cleared().input.len() == 0,
        v.cleared().output.len() == 0,
        v.cleared().error is None,
        v.cleared().is_consistent(),
        v.cleared().mode == v.mode && v.cleared().separator == v.separator,
{
}

/// Control-C and Control-Q quit without changing anything; Escape quits only
/// when no popup is open, and otherwise closes the popups (the two popups are
/// never open together, see `law_popups_exclusive`).
pub proof fn law_quit_keys(v: AppView)
    ensures
        v.key_step(KeyInput { key: Key::Char('c'), ctrl: true, alt: false }) == (v, Flow::Quit),
        v.key_step(KeyInput { key: Key::Char('q'), ctrl: true, alt: false }) == (v, Flow::Quit),
        v.key_step(KeyInput { key: Key::Esc, ctrl: false, alt: false }).1 == Flow::Quit <==> !v.show_help
            && !v.show_table,
        !(v.show_help && v.show_table) ==> v.key_step(
            KeyInput { key: Key::Esc, ctrl: false, alt: false },
        ).0.show_help == false,
        v.key_step(KeyInput { key: Key::Esc, ctrl: false, alt: false }).0.show_table == false,
{
    assert(is_table_key(Key::Esc));
}

/// The help and the table are never open together.
pub proof fn law_popups_exclusive(v: AppView, k: KeyInput)
    requires
        !(v.show_help && v.show_table),
    ensures
        !(v.key_step(k).0.show_help && v.key_step(k).0.show_table),
{
}

/// Alt+S, like Control+S, turns the separator to the next one and converts again.
pub proof fn law_separator_keys(v: AppView)
    ensures
        v.key_step(KeyInput { key: Key::Char('s'), ctrl: false, alt: true }) == (v.with_separator(
            v.separator.spec_next(),
        ), Flow::Continue),
        v.key_step(KeyInput { key: Key::Char('s'), ctrl: true, alt: false }) == (v.with_separator(
            v.separator.spec_next(),
        ), Flow::Continue),
{
}

/// In the two text modes the output, read back as codes, gives every UTF-8
/// byte of the input, in order, as the character of that value, and there is
/// no error; this holds for any text, ASCII or not, and for an empty input.
pub proof fn law_text_modes_write_every_byte(v: AppView)
    ensures
        v.mode == Mode::TextToDecimal ==> codes_to_text(v.recalculated().output, Radix::Decimal)
            == Ok::<Seq<char>, Seq<char>>(latin1(encode_utf8(v.input))),
        v.mode == Mode::TextToHex ==> codes_to_text(v.recalculated().output, Radix::Hex) == Ok::<
            Seq<char>,
            Seq<char>,
        >(latin1(encode_utf8(v.input))),
        (v.mode == Mode::TextToDecimal || v.mode == Mode::TextToHex) ==> v.recalculated().error is None,
{
    if v.input.len() == 0 {
        let e = Seq::<char>::empty();
        assert(encode_utf8(v.input) =~= Seq::<u8>::empty());
        assert(latin1(encode_utf8(v.input)) =~= e);
        assert(comma_as_space(e) =~= e);
        assert(split_words(e) =~= Seq::<Seq<char>>::empty());
    } else {
        law_codes_round_trip(v.input, v.separator, Radix::Decimal);
        law_codes_round_trip(v.input, v.separator, Radix::Hex);
    }
}

/// Delete, without modifiers, clears input, output and error whatever was
/// typed, and changes nothing else; so does Control+L.
pub proof fn law_delete_clears(v: AppView)
    ensures
        ({
            let r = v.key_step(KeyInput { key: Key::Delete, ctrl: false, alt: false });
            &&& r.1 == Flow::Continue
            &&& r.0.input.len() == 0 && r.0.output.len() == 0 && r.0.error is None
            &&& r.0.mode == v.mode && r.0.separator == v.separator
            &&& r.0.show_help == v.show_help && r.0.show_table == v.show_table
            &&& r.0.table_scroll == v.table_scroll
        }),
        ({
            let r = v.key_step(KeyInput { key: Key::Char('l'), ctrl: true, alt: false });
            &&& r.1 == Flow::Continue
            &&& r.0.input.len() == 0 && r.0.output.len() == 0 && r.0.error is None
            &&& r.0.mode == v.mode && r.0.separator == v.separator
        }),
{
}

/// F1 turns the help on when it is off and off when it is on, and closes the
/// table; pressing it twice with the table closed restores the help as it was.
/// F2 opens a closed table, closing the help, and closes an open one.
pub proof fn law_f1_toggles_help(v: AppView)
    ensures
        v.key_step(KeyInput { key: Key::F(1), ctrl: false, alt: false }).0.show_help
            == !v.show_help,
        v.key_step(KeyInput { key: Key::F(1), ctrl: false, alt: false }).0.show_table == false,
        v.key_step(KeyInput { key: Key::F(1), ctrl: false, alt: false }).1 == Flow::Continue,
        !v.show_table ==> v.key_step(KeyInput { key: Key::F(1), ctrl: false, alt: false }).0.key_step(
            KeyInput { key: Key::F(1), ctrl: false, alt: false },
        ).0.show_help == v.show_help,
        !v.show_table ==> !v.key_step(KeyInput { key: Key::F(2), ctrl: false, alt: false }).0.show_help,
        v.show_table ==> !v.key_step(KeyInput { key: Key::F(2), ctrl: false, alt: false }).0.show_table,
        !v.show_table ==> v.key_step(KeyInput { key: Key::F(2), ctrl: false, alt: false }).0.show_table,
{
}

/// Each control code is labelled with its standard ASCII abbreviation in
/// brackets, space and DEL with theirs, and every other code with its own
/// character.
pub proof fn law_table_labels(d: u8)
    ensures
        entry_label(0u8) == "[NUL]"@,
        entry_label(1u8) == "[SOH]"@,
        entry_label(2u8) == "[STX]"@,
        entry_label(3u8) == "[ETX]"@,
        entry_label(4u8) == "[EOT]"@,
        entry_label(5u8) == "[ENQ]"@,
        entry_label(6u8) == "[ACK]"@,
        entry_label(7u8) == "[BEL]"@,
        entry_label(8u8) == "[BS]"@,
        entry_label(9u8) == "[HT]"@,
        entry_label(10u8) == "[LF]"@,
        entry_label(11u8) == "[VT]"@,
        entry_label(12u8) == "[FF]"@,
        entry_label(13u8) == "[CR]"@,
        entry_label(14u8) == "[SO]"@,
        entry_label(15u8) == "[SI]"@,
        entry_label(16u8) == "[DLE]"@,
        entry_label(17u8) == "[DC1]"@,
        entry_label(18u8) == "[DC2]"@,
        entry_label(19u8) == "[DC3]"@,
        entry_label(20u8) == "[DC4]"@,
        entry_label(21u8) == "[NAK]"@,
        entry_label(22u8) == "[SYN]"@,
        entry_label(23u8) == "[ETB]"@,
        entry_label(24u8) == "[CAN]"@,
        entry_label(25u8) == "[EM]"@,
        entry_label(26u8) == "[SUB]"@,
        entry_label(27u8) == "[ESC]"@,
        entry_label(28u8) == "[FS]"@,
        entry_label(29u8) == "[GS]"@,
        entry_label(30u8) == "[RS]"@,
        entry_label(31u8) == "[US]"@,
        entry_label(32u8) == "[SPC]"@,
        entry_label(127u8) == "[DEL]"@,
        32 < d < 127 ==> entry_label(d) == seq![d as char],
        entry_label('\n' as u8) == "[LF]"@,
        entry_label('\r' as u8) == "[CR]"@,
        entry_label('\t' as u8) == "[HT]"@,
        entry_label('\0' as u8) == "[NUL]"@,
{
}

/// Dropping white space from the end leaves what came before it.
proof fn lemma_trim_end_drops_white_space(t: Seq<char>, ws: Seq<char>)
    requires
        forall|i: int| 0 <= i < ws.len() ==> is_whitespace(#[trigger] ws[i]),
    ensures
        trim_end(t + ws) == trim_end(t),
    decreases ws.len(),
{
    if ws.len() == 0 {
        assert(t + ws =~= t);
    } else {
        let front = ws.drop_last();
        assert((t + ws).drop_last() =~= t + front);
        assert((t + ws).last() == ws.last());
        assert(is_whitespace(ws[ws.len() - 1]));
        lemma_trim_end_drops_white_space(t, front);
    }
}

/// A word without spaces at the end is cut back to the space before it.
proof fn lemma_through_space_skips_word(q: Seq<char>, w: Seq<char>)
    requires
        forall|i: int| 0 <= i < w.len() ==> #[trigger] w[i] != ' ',
    ensures
        through_last_space(q + w) == through_last_space(q),
    decreases w.len(),
{
    if w.len() == 0 {
        assert(q + w =~= q);
    } else {
        let front = w.drop_last();
        assert((q + w).drop_last() =~= q + front);
        assert((q + w).last() == w[w.len() - 1]);
        lemma_through_space_skips_word(q, front);
    }
}

/// Control+W drops the trailing white space (newlines and tabs too), then the
/// last word, keeping the space before it: for input `p + " " + w + ws`, with
/// `w` a non-empty word and `ws` white space, the input becomes `p + " "`.
/// A text with no space at all is emptied.
pub proof fn law_ctrl_w_deletes_last_word(v: AppView, p: Seq<char>, w: Seq<char>, ws: Seq<char>)
    requires
        w.len() > 0,
        forall|i: int| 0 <= i < w.len() ==> !is_whitespace(#[trigger] w[i]),
        forall|i: int| 0 <= i < ws.len() ==> is_whitespace(#[trigger] ws[i]),
    ensures
        without_last_word(p + seq![' '] + w + ws) == p + seq![' '],
        v.input == p + seq![' '] + w + ws ==> v.key_step(
            KeyInput { key: Key::Char('w'), ctrl: true, alt: false },
        ).0.input == p + seq![' '],
        (forall|i: int| 0 <= i < v.input.len() ==> #[trigger] v.input[i] != ' ') ==> v.key_step(
            KeyInput { key: Key::Char('w'), ctrl: true, alt: false },
        ).0.input.len() == 0,
{
    let q = p + seq![' '];
    let t = q + w;
    lemma_trim_end_drops_white_space(t, ws);
    assert(t.last() == w[w.len() - 1]);
    assert(!is_whitespace(t.last()));
    assert(trim_end(t) == t);
    assert forall|i: int| 0 <= i < w.len() implies #[trigger] w[i] != ' ' by {
        assert(!is_whitespace(w[i]));
    }
    lemma_through_space_skips_word(q, w);
    assert(q.last() == ' ');
    assert(p + seq![' '] + w + ws == t + ws);
    if forall|i: int| 0 <= i < v.input.len() ==> #[trigger] v.input[i] != ' ' {
        lemma_no_space_gives_empty(v.input);
    }
}

/// Cutting back to the last space gives nothing when there is no space.
proof fn lemma_no_space_gives_empty(s: Seq<char>)
    requires
        forall|i: int| 0 <= i < s.len() ==> #[trigger] s[i] != ' ',
    ensures
        without_last_word(s).len() == 0,
{
    lemma_trim_end_subsequence(s);
    let t = trim_end(s);
    assert forall|i: int| 0 <= i < t.len() implies #[trigger] t[i] != ' ' by {
        assert(t[i] == s[i]);
    }
    assert(Seq::<char>::empty() + t =~= t);
    lemma_through_space_skips_word(Seq::<char>::empty(), t);
}

/// Trimming keeps a prefix of the text.
proof fn lemma_trim_end_subsequence(s: Seq<char>)
    ensures
        trim_end(s).len() <= s.len(),
        forall|i: int| 0 <= i < trim_end(s).len() ==> #[trigger] trim_end(s)[i] == s[i],
    decreases s.len(),
{
    if s.len() > 0 && is_whitespace(s.last()) {
        lemma_trim_end_subsequence(s.drop_last());
    }
}

} // verus!
