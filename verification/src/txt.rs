//! Encoder from a decoded palette to the Paint.NET TXT text format.
//!
//! The output is line-oriented ASCII text: one producer comment line, then
//! (only when the palette carries a trailing ACT record) two `; ACT ...`
//! comment lines in fixed order — declared count first, transparent index
//! second — then one line of exactly 6 uppercase hexadecimal digits per
//! color, two digits per channel in red-green-blue order, each line
//! `\n`-terminated.

use vstd::prelude::*;
use vstd::string::StringExecFns;

use crate::act::{Color, ExtraData, Palette};

verus! {

/// Why an encode failed. The encoder itself builds text in memory and never
/// fails; `IoError` is reserved for a failing byte sink at the boundary.
#[derive(Clone, Copy, Debug, PartialEq, Eq, Structural)]
pub enum WriteError {
    IoError,
}

/// The character for digit value `d` (0 to 15): decimal digits, then
/// uppercase letters.
pub open spec fn digit_char(d: nat) -> char {
    if d == 0 {
        '0'
    } else if d == 1 {
        '1'
    } else if d == 2 {
        '2'
    } else if d == 3 {
        '3'
    } else if d == 4 {
        '4'
    } else if d == 5 {
        '5'
    } else if d == 6 {
        '6'
    } else if d == 7 {
        '7'
    } else if d == 8 {
        '8'
    } else if d == 9 {
        '9'
    } else if d == 10 {
        'A'
    } else if d == 11 {
        'B'
    } else if d == 12 {
        'C'
    } else if d == 13 {
        'D'
    } else if d == 14 {
        'E'
    } else {
        'F'
    }
}

/// The two uppercase hexadecimal digits of a byte, zero-padded.
pub open spec fn hex_pair(b: u8) -> Seq<char> {
    seq![digit_char(b as nat / 16), digit_char(b as nat % 16)]
}

/// The line a color is written as: six hexadecimal digits and a newline.
pub open spec fn color_line(c: Color) -> Seq<char> {
    hex_pair(c.red) + hex_pair(c.green) + hex_pair(c.blue) + seq!['\n']
}

/// One line per color, in palette order.
pub open spec fn color_lines(cs: Seq<Color>) -> Seq<char>
    decreases cs.len(),
{
    if cs.len() == 0 {
        Seq::empty()
    } else {
        color_line(cs[0]) + color_lines(cs.drop_first())
    }
}

/// The decimal digits of `n`, most significant first, no leading zeros
/// (a single `0` for zero).
pub open spec fn dec_chars(n: nat) -> Seq<char>
    decreases n,
{
    if n < 10 {
        seq![digit_char(n)]
    } else {
        dec_chars(n / 10) + seq![digit_char(n % 10)]
    }
}

/// The comment line identifying the producer.
pub open spec fn producer_line() -> Seq<char> {
    "; Created by act2txt v0.1.0 - https://github.com/ssg/act2txt-rs\n"@
}

/// The comment line carrying the declared color count.
pub open spec fn act_count_line(count: u16) -> Seq<char> {
    "; ACT number of colors = "@ + dec_chars(count as nat) + seq!['\n']
}

/// The comment line carrying the transparent color index.
pub open spec fn act_index_line(index: u16) -> Seq<char> {
    "; ACT transparent color index = "@ + dec_chars(index as nat) + seq!['\n']
}

/// The two ACT comment lines when a trailing record is present, nothing
/// otherwise.
pub open spec fn extra_lines(extra: Option<ExtraData>) -> Seq<char> {
    match extra {
        Some(e) => act_count_line(e.declared_count) + act_index_line(e.transparent_index),
        None => Seq::empty(),
    }
}

/// The whole text a palette encodes to.
pub open spec fn palette_text(colors: Seq<Color>, extra: Option<ExtraData>) -> Seq<char> {
    producer_line() + extra_lines(extra) + color_lines(colors)
}

/// The one-character string for digit value `d` (0 to 15).
fn digit_str(d: u8) -> (s: &'static str)
    requires
        d < 16,
    ensures
        s@.len() == 1,
        s@[0] == digit_char(d as nat),
{
    proof {
        reveal_strlit("0");
        reveal_strlit("1");
        reveal_strlit("2");
        reveal_strlit("3");
        reveal_strlit("4");
        reveal_strlit("5");
        reveal_strlit("6");
        reveal_strlit("7");
        reveal_strlit("8");
        reveal_strlit("9");
        reveal_strlit("A");
        reveal_strlit("B");
        reveal_strlit("C");
        reveal_strlit("D");
        reveal_strlit("E");
        reveal_strlit("F");
    }
    match d {
        0 => "0",
        1 => "1",
        2 => "2",
        3 => "3",
        4 => "4",
        5 => "5",
        6 => "6",
        7 => "7",
        8 => "8",
        9 => "9",
        10 => "A",
        11 => "B",
        12 => "C",
        13 => "D",
        14 => "E",
        _ => "F",
    }
}

/// Append the two hexadecimal digits of `b` to `out`.
fn push_hex_byte(out: &mut String, b: u8)
    ensures
        final(out)@ == old(out)@ + hex_pair(b),
{
    let hs = digit_str(b / 16);
    out.append(hs);
    let ls = digit_str(b % 16);
    out.append(ls);
    proof {
        assert(out@ =~= old(out)@ + hex_pair(b));
    }
}

/// Append a newline to `out`.
fn push_newline(out: &mut String)
    ensures
        final(out)@ == old(out)@ + seq!['\n'],
{
    out.append("\n");
    proof {
        reveal_strlit("\n");
        assert(out@ =~= old(out)@ + seq!['\n']);
    }
}

/// The decimal rendering of `n`, matching `dec_chars`.
fn dec_str(n: u16) -> (s: String)
    ensures
        s@ == dec_chars(n as nat),
    decreases n,
{
    if n < 10 {
        let s = String::from_str(digit_str(n as u8));
        proof {
            assert(s@ =~= dec_chars(n as nat));
        }
        s
    } else {
        let mut s = dec_str(n / 10);
        s.append(digit_str((n % 10) as u8));
        proof {
            assert(s@ =~= dec_chars(n as nat));
        }
        s
    }
}

proof fn lemma_color_lines_push(cs: Seq<Color>, c: Color)
    ensures
        color_lines(cs.push(c)) == color_lines(cs) + color_line(c),
    decreases cs.len(),
{
    if cs.len() == 0 {
        assert(cs.push(c)[0] == c);
        assert(cs.push(c).drop_first() =~= Seq::<Color>::empty());
        assert(color_lines(cs.push(c)) == color_line(c) + color_lines(Seq::<Color>::empty()));
        assert(color_lines(Seq::<Color>::empty()) == Seq::<char>::empty());
        assert(color_lines(cs) == Seq::<char>::empty());
        assert(color_lines(cs.push(c)) =~= color_lines(cs) + color_line(c));
    } else {
        lemma_color_lines_push(cs.drop_first(), c);
        assert(cs.push(c)[0] == cs[0]);
        assert(cs.push(c).drop_first() =~= cs.drop_first().push(c));
        assert(color_lines(cs.push(c)) == color_line(cs[0]) + color_lines(
            cs.drop_first().push(c),
        ));
        assert(color_lines(cs.push(c)) == color_line(cs[0]) + (color_lines(cs.drop_first())
            + color_line(c)));
        assert(color_lines(cs) == color_line(cs[0]) + color_lines(cs.drop_first()));
        assert(color_lines(cs.push(c)) =~= color_lines(cs) + color_line(c));
    }
}

/// The numeric value of an uppercase hexadecimal digit; 16 for any other
/// character.
pub open spec fn hex_val(c: char) -> nat {
    if c == '0' {
        0
    } else if c == '1' {
        1
    } else if c == '2' {
        2
    } else if c == '3' {
        3
    } else if c == '4' {
        4
    } else if c == '5' {
        5
    } else if c == '6' {
        6
    } else if c == '7' {
        7
    } else if c == '8' {
        8
    } else if c == '9' {
        9
    } else if c == 'A' {
        10
    } else if c == 'B' {
        11
    } else if c == 'C' {
        12
    } else if c == 'D' {
        13
    } else if c == 'E' {
        14
    } else if c == 'F' {
        15
    } else {
        16
    }
}

/// Whether `c` is one of the sixteen digits the encoder emits.
pub open spec fn is_hex_digit(c: char) -> bool {
    hex_val(c) < 16
}

/// The byte two hexadecimal digits stand for, high digit first.
pub open spec fn parsed_byte(hi: char, lo: char) -> u8 {
    (16 * hex_val(hi) + hex_val(lo)) as u8
}

/// Parse a sequence of `\n`-terminated 6-digit hexadecimal color lines back
/// into colors; `None` when the text is not of that shape.
pub open spec fn parse_color_lines(s: Seq<char>) -> Option<Seq<Color>>
    decreases s.len(),
{
    if s.len() == 0 {
        Some(Seq::empty())
    } else if s.len() >= 7 && is_hex_digit(s[0]) && is_hex_digit(s[1]) && is_hex_digit(s[2])
        && is_hex_digit(s[3]) && is_hex_digit(s[4]) && is_hex_digit(s[5]) && s[6] == '\n' {
        match parse_color_lines(s.skip(7)) {
            Some(rest) => Some(
                seq![
                    Color {
                        red: parsed_byte(s[0], s[1]),
                        green: parsed_byte(s[2], s[3]),
                        blue: parsed_byte(s[4], s[5]),
                    }
                ] + rest,
            ),
            None => None,
        }
    } else {
        None
    }
}

proof fn lemma_digit_char_val(d: nat)
    requires
        d < 16,
    ensures
        hex_val(digit_char(d)) == d,
{
}

proof fn lemma_parsed_hex_pair(b: u8)
    ensures
        is_hex_digit(hex_pair(b)[0]),
        is_hex_digit(hex_pair(b)[1]),
        parsed_byte(hex_pair(b)[0], hex_pair(b)[1]) == b,
{
    lemma_digit_char_val(b as nat / 16);
    lemma_digit_char_val(b as nat % 16);
    assert(16 * (b as nat / 16) + b as nat % 16 == b as nat) by {
        vstd::arithmetic::div_mod::lemma_fundamental_div_mod(b as int, 16);
    }
}

/// Law: hexadecimal formatting round-trips. Re-parsing the color lines of
/// an encoded palette recovers the original colors — and so, after a
/// decode, the original color-block bytes — exactly.
pub proof fn lemma_color_lines_round_trip(cs: Seq<Color>)
    ensures
        parse_color_lines(color_lines(cs)) == Some(cs),
    decreases cs.len(),
{
    if cs.len() == 0 {
    } else {
        let line = color_line(cs[0]);
        let rest = color_lines(cs.drop_first());
        let s = color_lines(cs);
        assert(s == line + rest);
        lemma_parsed_hex_pair(cs[0].red);
        lemma_parsed_hex_pair(cs[0].green);
        lemma_parsed_hex_pair(cs[0].blue);
        assert(line.len() == 7);
        assert(s[0] == line[0] && s[1] == line[1] && s[2] == line[2] && s[3] == line[3] && s[4]
            == line[4] && s[5] == line[5] && s[6] == line[6]);
        assert(line[0] == hex_pair(cs[0].red)[0] && line[1] == hex_pair(cs[0].red)[1]);
        assert(line[2] == hex_pair(cs[0].green)[0] && line[3] == hex_pair(cs[0].green)[1]);
        assert(line[4] == hex_pair(cs[0].blue)[0] && line[5] == hex_pair(cs[0].blue)[1]);
        assert(line[6] == '\n');
        assert(s.skip(7) =~= rest);
        lemma_color_lines_round_trip(cs.drop_first());
        assert(parse_color_lines(s.skip(7)) == Some(cs.drop_first()));
        assert(Color {
            red: parsed_byte(s[0], s[1]),
            green: parsed_byte(s[2], s[3]),
            blue: parsed_byte(s[4], s[5]),
        } == cs[0]);
        assert(seq![cs[0]] + cs.drop_first() =~= cs);
        assert(parse_color_lines(color_lines(cs)) == Some(cs));
    }
}

/// Law: a palette with no colors and no trailing record encodes to the
/// producer comment line alone — no ACT comment lines and no color lines.
pub proof fn lemma_empty_palette_text()
    ensures
        palette_text(Seq::<Color>::empty(), None::<ExtraData>) == producer_line(),
{
    assert(palette_text(Seq::<Color>::empty(), None::<ExtraData>) =~= producer_line());
}

/// Law: whenever the trailing record is present, the encoding is the
/// producer line followed by exactly two `; ACT ...` comment lines — the
/// declared count first, the transparent index second — and only then the
/// color lines.
pub proof fn lemma_act_comment_lines(colors: Seq<Color>, e: ExtraData)
    ensures
        palette_text(colors, Some(e)) == producer_line() + act_count_line(e.declared_count)
            + act_index_line(e.transparent_index) + color_lines(colors),
{
    assert(palette_text(colors, Some(e)) =~= producer_line() + act_count_line(e.declared_count)
        + act_index_line(e.transparent_index) + color_lines(colors));
}

impl Palette {
    /// Serialize the palette to the Paint.NET TXT format, appending to
    /// `output`: the producer comment line, the two ACT comment lines when
    /// the trailing record is present, then one hexadecimal line per color.
    /// Building text in memory cannot fail, so the result is always `Ok`.
    pub fn write_pdn_txt(&self, output: &mut String) -> (r: Result<(), WriteError>)
        ensures
            r is Ok,
            final(output)@ == old(output)@ + palette_text(self.colors@, self.extra),
    {
        output.append("; Created by act2txt v0.1.0 - https://github.com/ssg/act2txt-rs\n");
        match self.extra {
            Some(e) => {
                output.append("; ACT number of colors = ");
                let count = dec_str(e.declared_count);
                output.append(count.as_str());
                push_newline(output);
                output.append("; ACT transparent color index = ");
                let index = dec_str(e.transparent_index);
                output.append(index.as_str());
                push_newline(output);
            },
            None => {},
        }
        proof {
            assert(output@ =~= old(output)@ + producer_line() + extra_lines(self.extra));
        }

        let n = self.colors.len();
        for i in 0..n
            invariant
                n == self.colors@.len(),
                output@ == old(output)@ + producer_line() + extra_lines(self.extra) + color_lines(
                    self.colors@.take(i as int),
                ),
        {
            let c = self.colors[i];
            push_hex_byte(output, c.red);
            push_hex_byte(output, c.green);
            push_hex_byte(output, c.blue);
            push_newline(output);
            proof {
                lemma_color_lines_push(self.colors@.take(i as int), self.colors@[i as int]);
                assert(self.colors@.take(i + 1) =~= self.colors@.take(i as int).push(
                    self.colors@[i as int],
                ));
                assert(output@ =~= old(output)@ + producer_line() + extra_lines(self.extra)
                    + color_lines(self.colors@.take(i + 1)));
            }
        }
        proof {
            assert(self.colors@.take(n as int) =~= self.colors@);
            assert(output@ =~= old(output)@ + palette_text(self.colors@, self.extra));
        }
        Ok(())
    }
}

} // verus!
