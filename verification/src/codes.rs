use vstd::prelude::*;
use vstd::utf8::encode_utf8;

use crate::chars::{chars_of, is_whitespace, push_char, string_of, whitespace};

verus! {

/// The two notations in which a byte is written as a code.
#[derive(Clone, Copy, Debug, PartialEq, Eq, Structural)]
pub enum Radix {
    Decimal,
    Hex,
}

impl Radix {
    pub open spec fn base(self) -> nat {
        match self {
            Radix::Decimal => 10,
            Radix::Hex => 16,
        }
    }
}

// ---------------------------------------------------------------------------
// Writing bytes as codes
// ---------------------------------------------------------------------------

/// The ASCII digit for a value below ten.
pub open spec fn digit_char(d: nat) -> char {
    ((d + 48) as u32) as char
}

/// The upper-case hexadecimal digit for a value below sixteen.
pub open spec fn hex_digit_char(d: nat) -> char {
    if d < 10 {
        digit_char(d)
    } else {
        ((d + 55) as u32) as char
    }
}

/// A number in decimal, without leading zeros.
pub open spec fn decimal_text(n: nat) -> Seq<char>
    decreases n,
{
    if n < 10 {
        seq![digit_char(n)]
    } else {
        decimal_text(n / 10).push(digit_char(n % 10))
    }
}

/// A byte as exactly two upper-case hexadecimal digits.
pub open spec fn hex_byte_text(b: u8) -> Seq<char> {
    seq![hex_digit_char((b / 16) as nat), hex_digit_char((b % 16) as nat)]
}

/// The code of one byte in the given notation.
pub open spec fn code_text(b: u8, radix: Radix) -> Seq<char> {
    match radix {
        Radix::Decimal => decimal_text(b as nat),
        Radix::Hex => hex_byte_text(b),
    }
}

/// The parts one after the other, with `sep` between each two neighbours.
pub open spec fn join(parts: Seq<Seq<char>>, sep: Seq<char>) -> Seq<char>
    decreases parts.len(),
{
    if parts.len() == 0 {
        seq![]
    } else if parts.len() == 1 {
        parts[0]
    } else {
        parts[0] + sep + join(parts.drop_first(), sep)
    }
}

/// The code of each byte, in order.
pub open spec fn byte_codes(bytes: Seq<u8>, radix: Radix) -> Seq<Seq<char>> {
    bytes.map_values(|b: u8| code_text(b, radix))
}

/// Text to codes: the UTF-8 bytes of `text`, each written in `radix`, joined by `sep`.
pub open spec fn text_to_codes(text: Seq<char>, sep: Seq<char>, radix: Radix) -> Seq<char> {
    join(byte_codes(encode_utf8(text), radix), sep)
}

/// Appending one more part to a join.
pub proof fn lemma_join_push(parts: Seq<Seq<char>>, x: Seq<char>, sep: Seq<char>)
    ensures
        join(parts.push(x), sep) == if parts.len() == 0 {
            x
        } else {
            join(parts, sep) + sep + x
        },
    decreases parts.len(),
{
    if parts.len() == 0 {
        assert(parts.push(x) =~= seq![x]);
    } else if parts.len() == 1 {
        assert(parts.push(x).drop_first() =~= seq![x]);
        assert(parts.push(x)[0] == parts[0]);
        assert(join(seq![x], sep) == x);
    } else {
        assert(parts.push(x)[0] == parts[0]);
        let rest = parts.drop_first();
        assert(parts.push(x).drop_first() =~= rest.push(x));
        lemma_join_push(rest, x, sep);
        assert(parts[0] + sep + (join(rest, sep) + sep + x) =~= (parts[0] + sep + join(rest, sep))
            + sep + x);
    }
}

/// Appends `n` in decimal to `out`.
pub(crate) fn push_decimal(out: &mut String, n: usize)
    ensures
        final(out)@ == old(out)@ + decimal_text(n as nat),
    decreases n,
{
    if n >= 10 {
        push_decimal(out, n / 10);
    }
    let d: u8 = (n % 10) as u8;
    push_char(out, (d + 48) as char);
    proof {
        if n >= 10 {
            assert(old(out)@ + decimal_text(n as nat) =~= old(out)@ + decimal_text((n / 10) as nat)
                + seq![digit_char((n % 10) as nat)]);
        } else {
            assert(old(out)@ + decimal_text(n as nat) =~= old(out)@.push(digit_char(n as nat)));
        }
    }
}

/// The character of a hexadecimal digit value.
fn hex_digit(d: u8) -> (c: char)
    requires
        d < 16,
    ensures
        c == hex_digit_char(d as nat),
{
    if d < 10 {
        (d + 48) as char
    } else {
        (d + 55) as char
    }
}

/// Appends the code of `b` to `out`.
pub(crate) fn push_code(out: &mut String, b: u8, radix: Radix)
    ensures
        final(out)@ == old(out)@ + code_text(b, radix),
{
    match radix {
        Radix::Decimal => push_decimal(out, b as usize),
        Radix::Hex => {
            push_char(out, hex_digit(b / 16));
            push_char(out, hex_digit(b % 16));
            assert(out@ =~= old(out)@ + hex_byte_text(b));
        },
    }
}

/// Writes each byte as a code in `radix` and joins the codes with `sep`.
pub fn bytes_to_codes(bytes: &[u8], sep: &str, radix: Radix) -> (out: String)
    ensures
        out@ == join(byte_codes(bytes@, radix), sep@),
{
    let mut out = String::new();
    let ghost parts = byte_codes(bytes@, radix);
    let mut i: usize = 0;
    while i < bytes.len()
        invariant
            i <= bytes@.len(),
            parts == byte_codes(bytes@, radix),
            out@ == join(parts.take(i as int), sep@),
        decreases bytes.len() - i,
    {
        proof {
            lemma_join_push(parts.take(i as int), parts[i as int], sep@);
            assert(parts.take(i as int).push(parts[i as int]) =~= parts.take(i + 1));
        }
        let ghost before = out@;
        if i > 0 {
            out.append(sep);
        }
        push_code(&mut out, bytes[i], radix);
        proof {
            if i > 0 {
                assert(out@ =~= before + sep@ + parts[i as int]);
            } else {
                assert(out@ =~= parts[i as int]);
            }
        }
        i += 1;
    }
    proof {
        assert(parts.take(bytes@.len() as int) =~= parts);
    }
    out
}

/// Text to codes: each UTF-8 byte of `text` written in `radix`, the codes joined by `sep`.
pub fn text_to_codes_string(text: &str, sep: &str, radix: Radix) -> (out: String)
    ensures
        out@ == text_to_codes(text@, sep@, radix),
{
    bytes_to_codes(text.as_bytes(), sep, radix)
}

// ---------------------------------------------------------------------------
// Reading codes back
// ---------------------------------------------------------------------------

/// Whether `c` is a digit in `radix` (either case for hexadecimal letters).
pub open spec fn is_digit(c: char, radix: Radix) -> bool {
    ||| '0' <= c && c <= '9'
    ||| radix == Radix::Hex && 'a' <= c && c <= 'f'
    ||| radix == Radix::Hex && 'A' <= c && c <= 'F'
}

/// The value of a digit character.
pub open spec fn digit_value(c: char) -> nat {
    if '0' <= c && c <= '9' {
        (c as nat - 48) as nat
    } else if 'a' <= c && c <= 'f' {
        (c as nat - 87) as nat
    } else {
        (c as nat - 55) as nat
    }
}

pub open spec fn all_digits(s: Seq<char>, radix: Radix) -> bool {
    forall|i: int| 0 <= i < s.len() ==> is_digit(#[trigger] s[i], radix)
}

/// The number that a string of digits denotes, most significant digit first.
pub open spec fn digits_value(s: Seq<char>, radix: Radix) -> nat
    decreases s.len(),
{
    if s.len() == 0 {
        0
    } else {
        digits_value(s.drop_last(), radix) * radix.base() + digit_value(s.last())
    }
}

/// What stays of a code once one leading `+` is dropped.
pub open spec fn unsigned_body(s: Seq<char>) -> Seq<char> {
    if s.len() > 0 && s[0] == '+' {
        s.drop_first()
    } else {
        s
    }
}

/// How an unsigned byte is read from text: an optional `+`, then one or more
/// digits in `radix` whose value is below 256.
pub open spec fn spec_parse_code(s: Seq<char>, radix: Radix) -> Option<u8> {
    let body = unsigned_body(s);
    if body.len() > 0 && all_digits(body, radix) && digits_value(body, radix) < 256 {
        Some(digits_value(body, radix) as u8)
    } else {
        None
    }
}

pub open spec fn saturated(v: nat) -> nat {
    if v < 256 {
        v
    } else {
        256
    }
}

fn digit(c: char, radix: Radix) -> (r: Option<u32>)
    ensures
        r is Some <==> is_digit(c, radix),
        r is Some ==> r->0 == digit_value(c) && r->0 < radix.base(),
{
    if '0' <= c && c <= '9' {
        Some((c as u32) - 48)
    } else if radix == Radix::Hex && 'a' <= c && c <= 'f' {
        Some((c as u32) - 87)
    } else if radix == Radix::Hex && 'A' <= c && c <= 'F' {
        Some((c as u32) - 55)
    } else {
        None
    }
}

/// Reads one code as a byte value, as `u8::from_str_radix` does.
pub fn parse_code(word: &Vec<char>, radix: Radix) -> (r: Option<u8>)
    ensures
        r == spec_parse_code(word@, radix),
{
    let start: usize = if word.len() > 0 && word[0] == '+' {
        1
    } else {
        0
    };
    let ghost body = unsigned_body(word@);
    assert(body =~= word@.skip(start as int));
    if start >= word.len() {
        return None;
    }
    let base: u32 = match radix {
        Radix::Decimal => 10,
        Radix::Hex => 16,
    };
    let mut acc: u32 = 0;
    let mut k: usize = start;
    while k < word.len()
        invariant
            start <= k <= word@.len(),
            body == word@.skip(start as int),
            body == unsigned_body(word@),
            base == radix.base(),
            all_digits(body.take(k - start), radix),
            acc == saturated(digits_value(body.take(k - start), radix)),
        decreases word.len() - k,
    {
        let c = word[k];
        let ghost j: int = k - start;
        assert(body[j] == c);
        let d = match digit(c, radix) {
            Some(d) => d,
            None => {
                assert(!all_digits(body, radix));
                return None;
            },
        };
        let ghost prev = digits_value(body.take(j), radix);
        assert(body.take(j + 1).drop_last() =~= body.take(j));
        assert(digits_value(body.take(j + 1), radix) == prev * radix.base() + d);
        if acc >= 256 {
            assert(prev >= 256);
            assert(prev * radix.base() + d >= 256) by (nonlinear_arith)
                requires
                    prev >= 256,
                    radix.base() >= 10,
            ;
            acc = 256;
        } else {
            assert(acc == prev);
            let v = acc * base + d;
            acc = if v > 256 {
                256
            } else {
                v
            };
        }
        assert(all_digits(body.take(j + 1), radix));
        k += 1;
    }
    assert(body.take(body.len() as int) =~= body);
    if acc < 256 {
        Some(acc as u8)
    } else {
        None
    }
}

/// Commas count as spaces between codes.
pub open spec fn comma_as_space(s: Seq<char>) -> Seq<char> {
    s.map_values(|c: char|
        if c == ',' {
            ' '
        } else {
            c
        })
}

/// A word in progress as a list of zero or one words.
pub open spec fn flush(cur: Seq<char>) -> Seq<Seq<char>> {
    if cur.len() == 0 {
        seq![]
    } else {
        seq![cur]
    }
}

/// The words of `s` when `cur` is the word read so far.
pub open spec fn words_from(s: Seq<char>, cur: Seq<char>) -> Seq<Seq<char>>
    decreases s.len(),
{
    if s.len() == 0 {
        flush(cur)
    } else if is_whitespace(s[0]) {
        flush(cur) + words_from(s.drop_first(), seq![])
    } else {
        words_from(s.drop_first(), cur.push(s[0]))
    }
}

/// The maximal runs of non-white-space characters, as `str::split_whitespace` yields them.
pub open spec fn split_words(s: Seq<char>) -> Seq<Seq<char>> {
    words_from(s, seq![])
}

/// Reads each word as a byte code; the first word that is no code is the error.
pub open spec fn decode_words(words: Seq<Seq<char>>, radix: Radix) -> Result<Seq<char>, Seq<char>>
    decreases words.len(),
{
    if words.len() == 0 {
        Ok(seq![])
    } else {
        match spec_parse_code(words[0], radix) {
            None => Err(words[0]),
            Some(b) => match decode_words(words.drop_first(), radix) {
                Ok(t) => Ok(seq![b as char] + t),
                Err(w) => Err(w),
            },
        }
    }
}

/// Codes to text: commas become spaces, the text splits at white space, and
/// each word is read as one byte, which becomes the character of that value.
pub open spec fn codes_to_text(text: Seq<char>, radix: Radix) -> Result<Seq<char>, Seq<char>> {
    decode_words(split_words(comma_as_space(text)), radix)
}

/// Decoding words that follow words already decoded.
pub proof fn lemma_decode_append(a: Seq<Seq<char>>, b: Seq<Seq<char>>, radix: Radix, t: Seq<char>)
    requires
        decode_words(a, radix) == Ok::<Seq<char>, Seq<char>>(t),
    ensures
        decode_words(a + b, radix) == match decode_words(b, radix) {
            Ok(u) => Ok(t + u),
            Err(w) => Err(w),
        },
    decreases a.len(),
{
    if a.len() == 0 {
        assert(a + b =~= b);
        assert(t =~= seq![]);
        match decode_words(b, radix) {
            Ok(u) => assert(t + u =~= u),
            Err(w) => {},
        }
    } else {
        let b0 = spec_parse_code(a[0], radix)->0;
        let t_rest = decode_words(a.drop_first(), radix)->Ok_0;
        assert((a + b).drop_first() =~= a.drop_first() + b);
        assert((a + b)[0] == a[0]);
        lemma_decode_append(a.drop_first(), b, radix, t_rest);
        match decode_words(b, radix) {
            Ok(u) => assert(seq![b0 as char] + (t_rest + u) =~= (seq![b0 as char] + t_rest) + u),
            Err(w) => {},
        }
    }
}

/// Unfolding the word reader by one character.
proof fn lemma_words_step(s: Seq<char>, i: int, cur: Seq<char>)
    requires
        0 <= i < s.len(),
    ensures
        words_from(s.skip(i), cur) == if is_whitespace(s[i]) {
            flush(cur) + words_from(s.skip(i + 1), seq![])
        } else {
            words_from(s.skip(i + 1), cur.push(s[i]))
        },
{
    assert(s.skip(i).drop_first() =~= s.skip(i + 1));
    assert(s.skip(i)[0] == s[i]);
}

/// Reads the codes in `text` back as characters; the error is the first word
/// that is not a code.
pub fn codes_to_text_string(text: &str, radix: Radix) -> (r: Result<String, String>)
    ensures
        match r {
            Ok(t) => codes_to_text(text@, radix) == Ok::<Seq<char>, Seq<char>>(t@),
            Err(w) => codes_to_text(text@, radix) == Err::<Seq<char>, Seq<char>>(w@),
        },
{
    let chars = chars_of(text);
    let ghost cleaned = comma_as_space(chars@);
    let mut out = String::new();
    let mut word: Vec<char> = Vec::new();
    let ghost mut done: Seq<Seq<char>> = seq![];
    assert(cleaned.skip(0) =~= cleaned);
    let mut i: usize = 0;
    while i < chars.len()
        invariant
            i <= chars@.len(),
            chars@ == text@,
            cleaned == comma_as_space(chars@),
            split_words(cleaned) == done + words_from(cleaned.skip(i as int), word@),
            decode_words(done, radix) == Ok::<Seq<char>, Seq<char>>(out@),
        decreases chars.len() - i,
    {
        let c = chars[i];
        proof {
            lemma_words_step(cleaned, i as int, word@);
        }
        if c == ',' || whitespace(c) {
            assert(is_whitespace(cleaned[i as int]));
            let ghost rest = words_from(cleaned.skip(i + 1), seq![]);
            if word.len() > 0 {
                assert(done + (seq![word@] + rest) =~= done.push(word@) + rest);
                assert(seq![word@].drop_first() =~= Seq::<Seq<char>>::empty());
                match parse_code(&word, radix) {
                    None => {
                        proof {
                            assert((seq![word@] + rest)[0] == word@);
                            lemma_decode_append(done, seq![word@] + rest, radix, out@);
                        }
                        let len = word.len();
                        assert(word@.subrange(0, len as int) =~= word@);
                        return Err(string_of(&word, 0, len));
                    },
                    Some(b) => {
                        proof {
                            assert(decode_words(seq![word@].drop_first(), radix) == Ok::<
                                Seq<char>,
                                Seq<char>,
                            >(seq![]));
                            assert(decode_words(seq![word@], radix) == Ok::<Seq<char>, Seq<char>>(
                                seq![b as char] + Seq::<char>::empty(),
                            ));
                            lemma_decode_append(done, seq![word@], radix, out@);
                            assert(done + seq![word@] =~= done.push(word@));
                            assert(seq![b as char] + Seq::<char>::empty() =~= seq![b as char]);
                            assert(out@ + seq![b as char] =~= out@.push(b as char));
                        }
                        push_char(&mut out, b as char);
                        proof {
                            done = done.push(word@);
                        }
                    },
                }
                word = Vec::new();
            } else {
                assert(done + (flush(word@) + rest) =~= done + rest);
                word = Vec::new();
            }
            assert(word@ =~= Seq::<char>::empty());
        } else {
            assert(cleaned[i as int] == c);
            word.push(c);
        }
        i += 1;
    }
    assert(cleaned.skip(chars@.len() as int) =~= Seq::<char>::empty());
    if word.len() > 0 {
        match parse_code(&word, radix) {
            None => {
                proof {
                    lemma_decode_append(done, seq![word@], radix, out@);
                }
                let len = word.len();
                assert(word@.subrange(0, len as int) =~= word@);
                Err(string_of(&word, 0, len))
            },
            Some(b) => {
                proof {
                    assert(seq![word@].drop_first() =~= Seq::<Seq<char>>::empty());
                    assert(decode_words(seq![word@].drop_first(), radix) == Ok::<
                        Seq<char>,
                        Seq<char>,
                    >(seq![]));
                    assert(decode_words(seq![word@], radix) == Ok::<Seq<char>, Seq<char>>(
                        seq![b as char] + Seq::<char>::empty(),
                    ));
                    lemma_decode_append(done, seq![word@], radix, out@);
                    assert(seq![b as char] + Seq::<char>::empty() =~= seq![b as char]);
                    assert(out@ + seq![b as char] =~= out@.push(b as char));
                }
                push_char(&mut out, b as char);
                Ok(out)
            },
        }
    } else {
        assert(done + flush(word@) =~= done);
        Ok(out)
    }
}

} // verus!

verus! {

// ---------------------------------------------------------------------------
// Facts about codes, used by the round-trip laws
// ---------------------------------------------------------------------------

/// Each byte read as the character of the same value (Latin-1).
pub open spec fn latin1(bytes: Seq<u8>) -> Seq<char> {
    bytes.map_values(|b: u8| b as char)
}

/// A code is a non-empty string of digits.
pub open spec fn is_code_word(w: Seq<char>, radix: Radix) -> bool {
    w.len() > 0 && all_digits(w, radix)
}

pub proof fn lemma_decimal_text_digits(n: nat)
    ensures
        is_code_word(decimal_text(n), Radix::Decimal),
        is_code_word(decimal_text(n), Radix::Hex),
        digits_value(decimal_text(n), Radix::Decimal) == n,
    decreases n,
{
    if n >= 10 {
        lemma_decimal_text_digits(n / 10);
        let s = decimal_text(n);
        assert(s.drop_last() =~= decimal_text(n / 10));
        assert(s.last() == digit_char(n % 10));
        assert(digit_value(digit_char(n % 10)) == n % 10);
        assert(digits_value(s, Radix::Decimal) == (n / 10) * 10 + n % 10);
        assert forall|i: int| 0 <= i < s.len() implies is_digit(#[trigger] s[i], Radix::Decimal) by {
            if i < s.len() - 1 {
                assert(s[i] == decimal_text(n / 10)[i]);
            }
        }
        assert forall|i: int| 0 <= i < s.len() implies is_digit(#[trigger] s[i], Radix::Hex) by {
            if i < s.len() - 1 {
                assert(s[i] == decimal_text(n / 10)[i]);
            }
        }
    } else {
        let s = decimal_text(n);
        assert(s.drop_last() =~= Seq::<char>::empty());
        assert(digits_value(Seq::<char>::empty(), Radix::Decimal) == 0);
        assert(digit_value(digit_char(n)) == n);
    }
}

pub proof fn lemma_code_text_parses(b: u8, radix: Radix)
    ensures
        is_code_word(code_text(b, radix), radix),
        spec_parse_code(code_text(b, radix), radix) == Some(b),
{
    let w = code_text(b, radix);
    match radix {
        Radix::Decimal => {
            lemma_decimal_text_digits(b as nat);
        },
        Radix::Hex => {
            lemma_decimal_text_digits(0);
            let hi = (b / 16) as nat;
            let lo = (b % 16) as nat;
            assert(w.drop_last() =~= seq![hex_digit_char(hi)]);
            assert(seq![hex_digit_char(hi)].drop_last() =~= Seq::<char>::empty());
            assert(digits_value(Seq::<char>::empty(), radix) == 0);
            assert(digit_value(hex_digit_char(hi)) == hi);
            assert(digit_value(hex_digit_char(lo)) == lo);
            assert(seq![hex_digit_char(hi)].last() == hex_digit_char(hi));
            assert(w.last() == hex_digit_char(lo));
            let one = seq![hex_digit_char(hi)];
            assert(radix.base() == 16);
            assert(digits_value(one, radix) == digits_value(one.drop_last(), radix) * 16
                + digit_value(one.last()));
            assert(digits_value(one, radix) == hi);
            assert(digits_value(w, radix) == hi * 16 + lo);
            assert((b / 16) * 16 + b % 16 == b) by (bit_vector);
            assert(hi * 16 + lo == b);
            assert(is_digit(w[0], radix) && is_digit(w[1], radix));
            assert(all_digits(w, radix));
        },
    }
    assert(w.len() > 0 && is_digit(w[0], radix));
    assert(w[0] != '+');
    assert(unsigned_body(w) == w);
    assert(all_digits(w, radix));
    assert(digits_value(w, radix) == b as nat);
    assert(spec_parse_code(w, radix) == Some((b as nat) as u8));
}

/// Commas turn into spaces, and a code holds none.
proof fn lemma_comma_join(parts: Seq<Seq<char>>, sep: Seq<char>, radix: Radix)
    requires
        forall|i: int| 0 <= i < parts.len() ==> is_code_word(#[trigger] parts[i], radix),
    ensures
        comma_as_space(join(parts, sep)) == join(parts, comma_as_space(sep)),
    decreases parts.len(),
{
    if parts.len() == 0 {
        assert(comma_as_space(seq![]) =~= Seq::<char>::empty());
    } else {
        let p0 = parts[0];
        assert(is_code_word(p0, radix));
        assert(comma_as_space(p0) =~= p0) by {
            assert forall|i: int| 0 <= i < p0.len() implies comma_as_space(p0)[i] == p0[i] by {
                assert(is_digit(p0[i], radix));
            }
        }
        if parts.len() > 1 {
            let rest = parts.drop_first();
            assert forall|i: int| 0 <= i < rest.len() implies is_code_word(#[trigger] rest[i], radix) by {
                assert(rest[i] == parts[i + 1]);
            }
            lemma_comma_join(rest, sep, radix);
            let j = join(rest, sep);
            assert(comma_as_space(p0 + sep + j) =~= comma_as_space(p0) + comma_as_space(sep)
                + comma_as_space(j));
        }
    }
}

/// A word with no white space in it is read into the word in progress.
proof fn lemma_words_of_word(p: Seq<char>, rest: Seq<char>, cur: Seq<char>)
    requires
        forall|i: int| 0 <= i < p.len() ==> !is_whitespace(#[trigger] p[i]),
    ensures
        words_from(p + rest, cur) == words_from(rest, cur + p),
    decreases p.len(),
{
    if p.len() == 0 {
        assert(p + rest =~= rest);
        assert(cur + p =~= cur);
    } else {
        assert((p + rest)[0] == p[0]);
        assert((p + rest).drop_first() =~= p.drop_first() + rest);
        let p1 = p.drop_first();
        assert forall|i: int| 0 <= i < p1.len() implies !is_whitespace(#[trigger] p1[i]) by {
            assert(p1[i] == p[i + 1]);
        }
        lemma_words_of_word(p1, rest, cur.push(p[0]));
        assert(cur.push(p[0]) + p1 =~= cur + p);
    }
}

/// Joining codes with one white-space character and splitting at white space
/// gives the codes back.
proof fn lemma_split_join(parts: Seq<Seq<char>>, ws: char, radix: Radix)
    requires
        is_whitespace(ws),
        forall|i: int| 0 <= i < parts.len() ==> is_code_word(#[trigger] parts[i], radix),
    ensures
        split_words(join(parts, seq![ws])) == parts,
    decreases parts.len(),
{
    let e = Seq::<char>::empty();
    if parts.len() == 0 {
        assert(words_from(e, e) =~= Seq::<Seq<char>>::empty());
    } else {
        let p0 = parts[0];
        assert(is_code_word(p0, radix));
        assert forall|i: int| 0 <= i < p0.len() implies !is_whitespace(#[trigger] p0[i]) by {
            assert(is_digit(p0[i], radix));
        }
        assert(e + p0 =~= p0);
        if parts.len() == 1 {
            assert(p0 + e =~= p0);
            lemma_words_of_word(p0, e, e);
            assert(words_from(e, p0) == seq![p0]);
            assert(parts =~= seq![p0]);
        } else {
            let rest = parts.drop_first();
            assert forall|i: int| 0 <= i < rest.len() implies is_code_word(#[trigger] rest[i], radix) by {
                assert(rest[i] == parts[i + 1]);
            }
            lemma_split_join(rest, ws, radix);
            let j = join(rest, seq![ws]);
            assert(p0 + seq![ws] + j =~= p0 + (seq![ws] + j));
            lemma_words_of_word(p0, seq![ws] + j, e);
            assert((seq![ws] + j)[0] == ws);
            assert((seq![ws] + j).drop_first() =~= j);
            assert(seq![p0] + rest =~= parts);
        }
    }
}

/// Decoding the codes of some bytes gives those bytes as characters.
proof fn lemma_decode_codes(bytes: Seq<u8>, radix: Radix)
    ensures
        decode_words(byte_codes(bytes, radix), radix) == Ok::<Seq<char>, Seq<char>>(latin1(bytes)),
    decreases bytes.len(),
{
    let words = byte_codes(bytes, radix);
    if bytes.len() == 0 {
        assert(latin1(bytes) =~= Seq::<char>::empty());
    } else {
        lemma_code_text_parses(bytes[0], radix);
        assert(words.drop_first() =~= byte_codes(bytes.drop_first(), radix));
        lemma_decode_codes(bytes.drop_first(), radix);
        assert(seq![bytes[0] as char] + latin1(bytes.drop_first()) =~= latin1(bytes));
    }
}

/// Reading back the codes written for a text, whatever white space or comma
/// separates them, gives the text's UTF-8 bytes as characters.
pub proof fn lemma_codes_round_trip(text: Seq<char>, sep: char, radix: Radix)
    requires
        sep == ',' || is_whitespace(sep),
    ensures
        codes_to_text(text_to_codes(text, seq![sep], radix), radix) == Ok::<Seq<char>, Seq<char>>(
            latin1(encode_utf8(text)),
        ),
{
    let bytes = encode_utf8(text);
    let parts = byte_codes(bytes, radix);
    assert forall|i: int| 0 <= i < parts.len() implies is_code_word(#[trigger] parts[i], radix) by {
        lemma_code_text_parses(bytes[i], radix);
    }
    lemma_comma_join(parts, seq![sep], radix);
    let ws = if sep == ',' {
        ' '
    } else {
        sep
    };
    assert(comma_as_space(seq![sep]) =~= seq![ws]);
    lemma_split_join(parts, ws, radix);
    lemma_decode_codes(bytes, radix);
}

} // verus!
