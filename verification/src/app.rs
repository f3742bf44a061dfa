use vstd::prelude::*;

use crate::chars::{chars_of, is_whitespace, pop_char, push_char, string_of, whitespace};
use crate::codes::{
    codes_to_text, codes_to_text_string, decimal_text, push_decimal, text_to_codes,
    text_to_codes_string, Radix,
};
use crate::layout::{max_scroll, visible_rows};
use crate::mode::{Mode, Separator};
use crate::palette::Palette;

verus! {

/// The last index of the ASCII reference table.
pub const TABLE_LAST: usize = 127;

/// A key as the converter understands it.
#[derive(Clone, Copy, Debug, PartialEq, Eq, Structural)]
pub enum Key {
    Char(char),
    F(u8),
    Esc,
    Tab,
    BackTab,
    Left,
    Right,
    Up,
    Down,
    PageUp,
    PageDown,
    Home,
    End,
    Backspace,
    Delete,
    Enter,
    Other,
}

/// A key press; `ctrl` is set when Control, and no other modifier, was held,
/// and `alt` when Alt, and no other modifier, was held.
#[derive(Clone, Copy, Debug, PartialEq, Eq, Structural)]
pub struct KeyInput {
    pub key: Key,
    pub ctrl: bool,
    pub alt: bool,
}

/// Whether the converter goes on after a key press.
#[derive(Clone, Copy, Debug, PartialEq, Eq, Structural)]
pub enum Flow {
    Continue,
    Quit,
}

/// The converter's state.
pub struct App {
    mode: Mode,
    input: String,
    output: String,
    error: Option<String>,
    show_help: bool,
    show_table: bool,
    table_scroll: u8,
    cursor_visible: bool,
    tick: u64,
    separator: Separator,
}

/// The state of the converter as values.
#[verifier::ext_equal]
pub struct AppView {
    pub mode: Mode,
    pub input: Seq<char>,
    pub output: Seq<char>,
    pub error: Option<Seq<char>>,
    pub show_help: bool,
    pub show_table: bool,
    pub table_scroll: nat,
    pub cursor_visible: bool,
    pub tick: u64,
    pub separator: Separator,
}

/// The state of a fresh converter: text to decimal, nothing typed, codes
/// separated by spaces, no popup open.
pub open spec fn initial_view() -> AppView {
    AppView {
        mode: Mode::TextToDecimal,
        input: seq![],
        output: seq![],
        error: None,
        show_help: false,
        show_table: false,
        table_scroll: 0,
        cursor_visible: true,
        tick: 0,
        separator: Separator::Space,
    }
}

/// The message shown for a word that is no code.
pub open spec fn invalid_code_message(radix: Radix, word: Seq<char>) -> Seq<char> {
    match radix {
        Radix::Decimal => "Invalid decimal: '"@ + word + "'"@,
        Radix::Hex => "Invalid hex: '"@ + word + "'"@,
    }
}

/// Output and error for codes read back as text.
pub open spec fn decoded(input: Seq<char>, radix: Radix) -> (Seq<char>, Option<Seq<char>>) {
    match codes_to_text(input, radix) {
        Ok(t) => (t, None),
        Err(w) => (seq![], Some(invalid_code_message(radix, w))),
    }
}

/// What the converter shows for an input in a mode: the output and the error, if any.
pub open spec fn conversion(mode: Mode, input: Seq<char>, separator: Separator) -> (
    Seq<char>,
    Option<Seq<char>>,
) {
    if input.len() == 0 {
        (seq![], None)
    } else {
        match mode {
            Mode::TextToDecimal => (
                text_to_codes(input, seq![separator.spec_char()], Radix::Decimal),
                None,
            ),
            Mode::TextToHex => (text_to_codes(input, seq![separator.spec_char()], Radix::Hex), None),
            Mode::DecimalToText => decoded(input, Radix::Decimal),
            Mode::HexToText => decoded(input, Radix::Hex),
        }
    }
}

/// The input without its trailing white space.
pub open spec fn trim_end(s: Seq<char>) -> Seq<char>
    decreases s.len(),
{
    if s.len() > 0 && is_whitespace(s.last()) {
        trim_end(s.drop_last())
    } else {
        s
    }
}

/// The text up to and including its last space; empty when there is none.
pub open spec fn through_last_space(s: Seq<char>) -> Seq<char>
    decreases s.len(),
{
    if s.len() == 0 {
        s
    } else if s.last() == ' ' {
        s
    } else {
        through_last_space(s.drop_last())
    }
}

/// The input once its last word is deleted.
pub open spec fn without_last_word(s: Seq<char>) -> Seq<char> {
    through_last_space(trim_end(s))
}

/// Whether a key means something while the reference table is open.
pub open spec fn is_table_key(key: Key) -> bool {
    match key {
        Key::Down | Key::Up | Key::PageDown | Key::PageUp | Key::Home | Key::End | Key::Esc => true,
        Key::Char(c) => c == 'j' || c == 'k',
        Key::F(n) => n == 2,
        _ => false,
    }
}

pub open spec fn scrolled_down(s: nat, n: nat) -> nat {
    if s + n < TABLE_LAST {
        s + n
    } else {
        TABLE_LAST as nat
    }
}

pub open spec fn scrolled_up(s: nat, n: nat) -> nat {
    if s >= n {
        (s - n) as nat
    } else {
        0
    }
}

impl AppView {
    /// The state once output and error are worked out anew from mode, input and separator.
    pub open spec fn recalculated(self) -> AppView {
        let c = conversion(self.mode, self.input, self.separator);
        AppView { output: c.0, error: c.1, ..self }
    }

    /// Output and error agree with mode, input and separator.
    pub open spec fn is_consistent(self) -> bool {
        let c = conversion(self.mode, self.input, self.separator);
        self.output == c.0 && self.error == c.1
    }

    pub open spec fn with_mode(self, m: Mode) -> AppView {
        AppView { mode: m, ..self }.recalculated()
    }

    pub open spec fn with_input(self, s: Seq<char>) -> AppView {
        AppView { input: s, ..self }.recalculated()
    }

    pub open spec fn with_separator(self, sep: Separator) -> AppView {
        AppView { separator: sep, ..self }.recalculated()
    }

    pub open spec fn popped(self) -> AppView {
        if self.input.len() == 0 {
            self.recalculated()
        } else {
            self.with_input(self.input.drop_last())
        }
    }

    pub open spec fn cleared(self) -> AppView {
        AppView { input: seq![], output: seq![], error: None, ..self }
    }

    pub open spec fn with_scroll(self, s: nat) -> AppView {
        AppView { table_scroll: s, ..self }
    }

    /// One key press while the reference table is open.
    pub open spec fn table_step(self, key: Key) -> AppView {
        match key {
            Key::Down => self.with_scroll(scrolled_down(self.table_scroll, 1)),
            Key::Up => self.with_scroll(scrolled_up(self.table_scroll, 1)),
            Key::PageDown => self.with_scroll(scrolled_down(self.table_scroll, 10)),
            Key::PageUp => self.with_scroll(scrolled_up(self.table_scroll, 10)),
            Key::Home => self.with_scroll(0),
            Key::End => self.with_scroll(TABLE_LAST as nat),
            Key::Char(c) => if c == 'j' {
                self.with_scroll(scrolled_down(self.table_scroll, 1))
            } else {
                self.with_scroll(scrolled_up(self.table_scroll, 1))
            },
            _ => AppView { show_table: false, ..self },
        }
    }

    /// What a key press does to the state, and whether the converter goes on.
    pub open spec fn key_step(self, k: KeyInput) -> (AppView, Flow) {
        if k.ctrl {
            match k.key {
                Key::Char(c) => if c == 'c' || c == 'q' {
                    (self, Flow::Quit)
                } else if c == 'l' {
                    (self.cleared(), Flow::Continue)
                } else if c == 's' {
                    (self.with_separator(self.separator.spec_next()), Flow::Continue)
                } else if c == 'w' {
                    (self.with_input(without_last_word(self.input)), Flow::Continue)
                } else {
                    (self, Flow::Continue)
                },
                _ => (self, Flow::Continue),
            }
        } else if k.alt && k.key == Key::Char('s') {
            (self.with_separator(self.separator.spec_next()), Flow::Continue)
        } else if self.show_table && is_table_key(k.key) {
            (self.table_step(k.key), Flow::Continue)
        } else {
            match k.key {
                Key::Esc => if self.show_help || self.show_table {
                    (AppView { show_help: false, show_table: false, ..self }, Flow::Continue)
                } else {
                    (self, Flow::Quit)
                },
                Key::F(n) => if n == 1 {
                    (AppView { show_help: !self.show_help, show_table: false, ..self }, Flow::Continue)
                } else if n == 2 {
                    (AppView { show_table: !self.show_table, show_help: false, ..self }, Flow::Continue)
                } else {
                    (self, Flow::Continue)
                },
                Key::Tab | Key::Right => (self.with_mode(self.mode.spec_next()), Flow::Continue),
                Key::BackTab | Key::Left => (self.with_mode(self.mode.spec_prev()), Flow::Continue),
                Key::Backspace => (self.popped(), Flow::Continue),
                Key::Delete => (self.cleared(), Flow::Continue),
                Key::Enter => (self.with_input(self.input.push('\n')), Flow::Continue),
                Key::Char(c) => (self.with_input(self.input.push(c)), Flow::Continue),
                _ => (self, Flow::Continue),
            }
        }
    }

    /// One tick of the clock: the counter wraps, and every sixth tick the cursor blinks.
    pub open spec fn ticked(self) -> AppView {
        let t: u64 = if self.tick == u64::MAX {
            0
        } else {
            (self.tick + 1) as u64
        };
        AppView {
            tick: t,
            cursor_visible: if t % 6 == 0 {
                !self.cursor_visible
            } else {
                self.cursor_visible
            },
            ..self
        }
    }
}

/// What the output box shows.
#[derive(Clone, Copy, Debug, PartialEq, Eq, Structural)]
pub enum OutputState {
    Error,
    Filled,
    Empty,
}

/// The output box, worked out from the state: colours, title, counter and text.
pub struct OutputPanel {
    pub state: OutputState,
    pub border: Palette,
    pub title_background: Palette,
    pub title: &'static str,
    pub counter: String,
    pub body: String,
}

pub open spec fn output_state_of(v: AppView) -> OutputState {
    if v.error is Some {
        OutputState::Error
    } else if v.output.len() > 0 {
        OutputState::Filled
    } else {
        OutputState::Empty
    }
}

/// `" N chars "`, with the number of characters of `s`.
pub open spec fn char_counter(s: Seq<char>) -> Seq<char> {
    seq![' '] + decimal_text(s.len()) + " chars "@
}

/// The panel describes the output box of `v`.
pub open spec fn panel_of(p: OutputPanel, v: AppView) -> bool {
    let st = output_state_of(v);
    &&& p.state == st
    &&& p.border == match st {
        OutputState::Error => Palette::Coral,
        OutputState::Filled => Palette::Mint,
        OutputState::Empty => Palette::Border,
    }
    &&& p.title_background == match st {
        OutputState::Error => Palette::Coral,
        OutputState::Filled => Palette::Mint,
        OutputState::Empty => Palette::BorderLight,
    }
    &&& p.title@ == match st {
        OutputState::Error => " ERROR "@,
        _ => " OUTPUT "@,
    }
    &&& p.counter@ == match st {
        OutputState::Filled => char_counter(v.output),
        _ => seq![],
    }
    &&& p.body@ == match st {
        OutputState::Error => "✕  "@ + v.error->0,
        OutputState::Filled => v.output,
        OutputState::Empty => "  Output will appear here…"@,
    }
}

/// What the input box shows: the input and the cursor, or the mode's hint.
pub open spec fn input_text_of(v: AppView) -> Seq<char> {
    if v.input.len() > 0 {
        v.input + if v.cursor_visible {
            "▌"@
        } else {
            " "@
        }
    } else {
        "  "@ + v.mode.spec_input_hint()
    }
}

pub open spec fn string_option_view(o: Option<String>) -> Option<Seq<char>> {
    match o {
        Some(s) => Some(s@),
        None => None,
    }
}

impl View for App {
    type V = AppView;

    closed spec fn view(&self) -> AppView {
        AppView {
            mode: self.mode,
            input: self.input@,
            output: self.output@,
            error: string_option_view(self.error),
            show_help: self.show_help,
            show_table: self.show_table,
            table_scroll: self.table_scroll as nat,
            cursor_visible: self.cursor_visible,
            tick: self.tick,
            separator: self.separator,
        }
    }
}

/// The message for a word that is no code.
fn invalid_code_string(radix: Radix, word: &str) -> (m: String)
    ensures
        m@ == invalid_code_message(radix, word@),
{
    let mut m = String::new();
    match radix {
        Radix::Decimal => m.append("Invalid decimal: '"),
        Radix::Hex => m.append("Invalid hex: '"),
    }
    m.append(word);
    m.append("'");
    assert(m@ =~= invalid_code_message(radix, word@));
    m
}

/// The input once its last word is deleted.
fn delete_last_word(input: &str) -> (r: String)
    ensures
        r@ == without_last_word(input@),
{
    let chars = chars_of(input);
    let mut end: usize = chars.len();
    assert(chars@.take(end as int) =~= chars@);
    while end > 0 && whitespace(chars[end - 1])
        invariant
            end <= chars@.len(),
            trim_end(chars@) == trim_end(chars@.take(end as int)),
        decreases end,
    {
        assert(chars@.take(end as int).drop_last() =~= chars@.take(end - 1));
        end -= 1;
    }
    let ghost t = chars@.take(end as int);
    assert(trim_end(chars@) == t);
    let mut k: usize = end;
    assert(t.take(k as int) =~= t);
    while k > 0 && chars[k - 1] != ' '
        invariant
            k <= end <= chars@.len(),
            t == chars@.take(end as int),
            through_last_space(t) == through_last_space(t.take(k as int)),
        decreases k,
    {
        assert(t.take(k as int).drop_last() =~= t.take(k - 1));
        k -= 1;
    }
    assert(chars@.subrange(0, k as int) =~= t.take(k as int));
    string_of(&chars, 0, k)
}

/// `" N chars "` for the number of characters of `s`.
fn char_counter_string(s: &str) -> (r: String)
    ensures
        r@ == char_counter(s@),
{
    let mut r = String::new();
    push_char(&mut r, ' ');
    push_decimal(&mut r, s.unicode_len());
    r.append(" chars ");
    assert(r@ =~= char_counter(s@));
    r
}

impl App {
    /// A fresh converter: text to decimal, empty input, codes separated by spaces.
    pub fn new() -> (app: App)
        ensures
            app@ == initial_view(),
    {
        App {
            mode: Mode::TextToDecimal,
            input: String::new(),
            output: String::new(),
            error: None,
            show_help: false,
            show_table: false,
            table_scroll: 0,
            cursor_visible: true,
            tick: 0,
            separator: Separator::Space,
        }
    }

    /// Works out output and error anew from mode, input and separator.
    pub fn recalculate(&mut self)
        ensures
            final(self)@ == old(self)@.recalculated(),
    {
        self.error = None;
        if self.input.as_str().is_empty() {
            self.output = String::new();
            return;
        }
        match self.mode {
            Mode::TextToDecimal => {
                let sep = self.separator.char();
                self.output = text_to_codes_string(self.input.as_str(), sep, Radix::Decimal);
            },
            Mode::TextToHex => {
                let sep = self.separator.char();
                self.output = text_to_codes_string(self.input.as_str(), sep, Radix::Hex);
            },
            Mode::DecimalToText => self.decode_input(Radix::Decimal),
            Mode::HexToText => self.decode_input(Radix::Hex),
        }
    }

    fn decode_input(&mut self, radix: Radix)
        requires
            old(self).error is None,
        ensures
            final(self)@ == (AppView {
                output: decoded(old(self)@.input, radix).0,
                error: decoded(old(self)@.input, radix).1,
                ..old(self)@
            }),
    {
        match codes_to_text_string(self.input.as_str(), radix) {
            Ok(t) => {
                self.output = t;
            },
            Err(w) => {
                self.error = Some(invalid_code_string(radix, w.as_str()));
                self.output = String::new();
            },
        }
    }

    /// Switches to the next mode and converts again.
    pub fn next_mode(&mut self)
        ensures
            final(self)@ == old(self)@.with_mode(old(self)@.mode.spec_next()),
    {
        self.mode = Mode::from_index((self.mode.index() + 1) % 4);
        self.recalculate();
    }

    /// Switches to the previous mode and converts again.
    pub fn prev_mode(&mut self)
        ensures
            final(self)@ == old(self)@.with_mode(old(self)@.mode.spec_prev()),
    {
        self.mode = Mode::from_index((self.mode.index() + 4 - 1) % 4);
        self.recalculate();
    }

    /// Types one character and converts again.
    pub fn push_char(&mut self, c: char)
        ensures
            final(self)@ == old(self)@.with_input(old(self)@.input.push(c)),
    {
        push_char(&mut self.input, c);
        self.recalculate();
    }

    /// Deletes the last character, if any, and converts again.
    pub fn pop_char(&mut self)
        ensures
            final(self)@ == old(self)@.popped(),
    {
        let _ = pop_char(&mut self.input);
        self.recalculate();
    }

    /// Empties input, output and error.
    pub fn clear_input(&mut self)
        ensures
            final(self)@ == old(self)@.cleared(),
    {
        self.input = String::new();
        self.output = String::new();
        self.error = None;
    }

    /// Moves to the next separator and converts again.
    pub fn cycle_separator(&mut self)
        ensures
            final(self)@ == old(self)@.with_separator(old(self)@.separator.spec_next()),
    {
        self.separator = self.separator.next();
        self.recalculate();
    }

    /// Deletes the last word of the input and converts again.
    pub fn delete_word(&mut self)
        ensures
            final(self)@ == old(self)@.with_input(without_last_word(old(self)@.input)),
    {
        self.input = delete_last_word(self.input.as_str());
        self.recalculate();
    }

    /// Scrolls the reference table `n` rows down, stopping at its last row.
    pub fn table_scroll_down(&mut self, n: usize)
        requires
            old(self)@.table_scroll + n <= usize::MAX,
        ensures
            final(self)@ == old(self)@.with_scroll(scrolled_down(old(self)@.table_scroll, n as nat)),
    {
        let s = self.table_scroll as usize + n;
        self.table_scroll = if s < TABLE_LAST {
            s as u8
        } else {
            TABLE_LAST as u8
        };
    }

    /// Scrolls the reference table `n` rows up, stopping at its first row.
    pub fn table_scroll_up(&mut self, n: usize)
        ensures
            final(self)@ == old(self)@.with_scroll(scrolled_up(old(self)@.table_scroll, n as nat)),
    {
        let s = (self.table_scroll as usize).saturating_sub(n);
        self.table_scroll = s as u8;
    }

    /// Advances the clock by one tick.
    pub fn on_tick(&mut self)
        ensures
            final(self)@ == old(self)@.ticked(),
    {
        self.tick = self.tick.wrapping_add(1);
        if self.tick % 6 == 0 {
            self.cursor_visible = !self.cursor_visible;
        }
    }

    /// Applies one key press; says whether to quit.
    pub fn handle_key(&mut self, k: KeyInput) -> (flow: Flow)
        ensures
            (final(self)@, flow) == old(self)@.key_step(k),
    {
        if k.ctrl {
            match k.key {
                Key::Char(c) => {
                    if c == 'c' || c == 'q' {
                        return Flow::Quit;
                    } else if c == 'l' {
                        self.clear_input();
                    } else if c == 's' {
                        self.cycle_separator();
                    } else if c == 'w' {
                        self.delete_word();
                    }
                },
                _ => {},
            }
            return Flow::Continue;
        }
        if k.alt && k.key == Key::Char('s') {
            self.cycle_separator();
            return Flow::Continue;
        }
        if self.show_table {
            match k.key {
                Key::Down => {
                    self.table_scroll_down(1);
                    return Flow::Continue;
                },
                Key::Char(c) if c == 'j' => {
                    self.table_scroll_down(1);
                    return Flow::Continue;
                },
                Key::Up => {
                    self.table_scroll_up(1);
                    return Flow::Continue;
                },
                Key::Char(c) if c == 'k' => {
                    self.table_scroll_up(1);
                    return Flow::Continue;
                },
                Key::PageDown => {
                    self.table_scroll_down(10);
                    return Flow::Continue;
                },
                Key::PageUp => {
                    self.table_scroll_up(10);
                    return Flow::Continue;
                },
                Key::Home => {
                    self.table_scroll = 0;
                    return Flow::Continue;
                },
                Key::End => {
                    self.table_scroll = TABLE_LAST as u8;
                    return Flow::Continue;
                },
                Key::Esc => {
                    self.show_table = false;
                    return Flow::Continue;
                },
                Key::F(n) if n == 2 => {
                    self.show_table = false;
                    return Flow::Continue;
                },
                _ => {},
            }
        }
        match k.key {
            Key::Esc => {
                if self.show_help || self.show_table {
                    self.show_help = false;
                    self.show_table = false;
                } else {
                    return Flow::Quit;
                }
            },
            Key::F(n) => {
                if n == 1 {
                    self.show_help = !self.show_help;
                    self.show_table = false;
                } else if n == 2 {
                    self.show_table = !self.show_table;
                    self.show_help = false;
                }
            },
            Key::Tab | Key::Right => self.next_mode(),
            Key::BackTab | Key::Left => self.prev_mode(),
            Key::Backspace => self.pop_char(),
            Key::Delete => self.clear_input(),
            Key::Enter => self.push_char('\n'),
            Key::Char(c) => self.push_char(c),
            _ => {},
        }
        Flow::Continue
    }

    /// Fits the table's scroll to the rows that show in a popup whose inside is
    /// `inner_height` rows high; gives the scroll and the number of rows shown.
    pub fn table_window(&mut self, inner_height: u16) -> (r: (usize, usize))
        ensures
            r.1 == visible_rows(inner_height),
            r.0 == (if old(self)@.table_scroll < max_scroll(r.1 as nat) {
                old(self)@.table_scroll
            } else {
                max_scroll(r.1 as nat)
            }),
            final(self)@ == old(self)@.with_scroll(r.0 as nat),
    {
        let visible = (inner_height as usize).saturating_sub(4);
        let limit = crate::ascii::ROWS_PER_COLUMN.saturating_sub(visible);
        let current = self.table_scroll as usize;
        let scroll = if current < limit {
            current
        } else {
            limit
        };
        self.table_scroll = scroll as u8;
        (scroll, visible)
    }

    /// The text of the input box.
    pub fn input_text(&self) -> (r: String)
        ensures
            r@ == input_text_of(self@),
    {
        let mut r = String::new();
        if !self.input.as_str().is_empty() {
            r.append(self.input.as_str());
            if self.cursor_visible {
                r.append("▌");
            } else {
                r.append(" ");
            }
        } else {
            r.append("  ");
            r.append(self.mode.input_hint());
        }
        assert(r@ =~= input_text_of(self@));
        r
    }

    /// `" N chars "` for the number of characters typed.
    pub fn input_counter(&self) -> (r: String)
        ensures
            r@ == char_counter(self@.input),
    {
        char_counter_string(self.input.as_str())
    }

    /// `" sep:NAME "` for the current separator.
    pub fn separator_tag(&self) -> (r: String)
        ensures
            r@ == " sep:"@ + self@.separator.spec_label() + " "@,
    {
        let mut r = String::new();
        r.append(" sep:");
        r.append(self.separator.label());
        r.append(" ");
        assert(r@ =~= " sep:"@ + self@.separator.spec_label() + " "@);
        r
    }

    /// The output box for the current state.
    pub fn output_panel(&self) -> (p: OutputPanel)
        ensures
            panel_of(p, self@),
    {
        match &self.error {
            Some(e) => {
                let mut body = String::new();
                body.append("✕  ");
                body.append(e.as_str());
                assert(body@ =~= "✕  "@ + e@);
                OutputPanel {
                    state: OutputState::Error,
                    border: Palette::Coral,
                    title_background: Palette::Coral,
                    title: " ERROR ",
                    counter: String::new(),
                    body,
                }
            },
            None => {
                if !self.output.as_str().is_empty() {
                    OutputPanel {
                        state: OutputState::Filled,
                        border: Palette::Mint,
                        title_background: Palette::Mint,
                        title: " OUTPUT ",
                        counter: char_counter_string(self.output.as_str()),
                        body: self.output.clone(),
                    }
                } else {
                    OutputPanel {
                        state: OutputState::Empty,
                        border: Palette::Border,
                        title_background: Palette::BorderLight,
                        title: " OUTPUT ",
                        counter: String::new(),
                        body: "  Output will appear here…".to_owned(),
                    }
                }
            },
        }
    }

    pub fn mode(&self) -> (m: Mode)
        ensures
            m == self@.mode,
    {
        self.mode
    }

    pub fn input(&self) -> (s: &str)
        ensures
            s@ == self@.input,
    {
        self.input.as_str()
    }

    pub fn output(&self) -> (s: &str)
        ensures
            s@ == self@.output,
    {
        self.output.as_str()
    }

    pub fn error(&self) -> (e: Option<&str>)
        ensures
            match e {
                Some(s) => self@.error == Some(s@),
                None => self@.error is None,
            },
    {
        match &self.error {
            Some(s) => Some(s.as_str()),
            None => None,
        }
    }

    pub fn show_help(&self) -> (b: bool)
        ensures
            b == self@.show_help,
    {
        self.show_help
    }

    pub fn show_table(&self) -> (b: bool)
        ensures
            b == self@.show_table,
    {
        self.show_table
    }

    pub fn table_scroll(&self) -> (n: usize)
        ensures
            n == self@.table_scroll,
    {
        self.table_scroll as usize
    }

    pub fn cursor_visible(&self) -> (b: bool)
        ensures
            b == self@.cursor_visible,
    {
        self.cursor_visible
    }

    pub fn tick(&self) -> (t: u64)
        ensures
            t == self@.tick,
    {
        self.tick
    }

    pub fn separator(&self) -> (s: Separator)
        ensures
            s == self@.separator,
    {
        self.separator
    }
}

} // verus!
