//! The fixed symbol alphabet and the glyph type: one terminal cell's
//! character and color, with its fade and render behavior.

use crate::color::faded_rgb;
use crate::color::Rgb;
use crate::instruction::Instruction;
use crate::rng::random_below;
use rand_xoshiro::Xoshiro256PlusPlus;
use vstd::prelude::*;

verus! {

/// The fixed alphabet a spawned glyph's character is drawn from: halfwidth
/// katakana and a few punctuation marks.
pub open spec fn symbols() -> Seq<char> {
    seq![
        '\u{FF8A}',
        '\u{FF90}',
        '\u{FF8B}',
        '\u{FF70}',
        '\u{FF73}',
        '\u{FF7C}',
        '\u{FF85}',
        '\u{FF93}',
        '\u{FF86}',
        '\u{FF7B}',
        '\u{FF9C}',
        '\u{FF82}',
        '\u{FF75}',
        '\u{FF98}',
        '\u{FF71}',
        '\u{FF8E}',
        '\u{FF83}',
        '\u{FF8F}',
        '\u{FF79}',
        '\u{FF92}',
        '\u{FF74}',
        '\u{FF76}',
        '\u{FF77}',
        '\u{FF91}',
        '\u{FF95}',
        '\u{FF97}',
        '\u{FF7E}',
        '\u{FF88}',
        '\u{FF7D}',
        '\u{FF80}',
        '\u{FF87}',
        '\u{FF8D}',
        '\u{FF66}',
        '\u{FF72}',
        '\u{FF78}',
        '\u{FF7A}',
        '\u{FF7F}',
        '\u{FF81}',
        '\u{FF84}',
        '\u{FF89}',
        '\u{FF8C}',
        '\u{FF94}',
        '\u{FF96}',
        '\u{FF99}',
        '\u{FF9A}',
        '\u{FF9B}',
        '\u{FF9D}',
        '\u{00A6}',
        '*',
        '+',
        '-',
        ',',
        '.',
        ';'
    ]
}

/// Whether ch belongs to the spawn alphabet.
pub open spec fn is_symbol(ch: char) -> bool {
    symbols().contains(ch)
}

/// The size of the spawn alphabet.
pub fn symbol_count() -> (n: usize)
    ensures
        n == symbols().len(),
{
    54
}

/// The symbol at a given position in the alphabet.
pub fn symbol_char(i: usize) -> (c: char)
    requires
        i < symbols().len(),
    ensures
        c == symbols()[i as int],
{
    match i {
        0 => '\u{FF8A}',
        1 => '\u{FF90}',
        2 => '\u{FF8B}',
        3 => '\u{FF70}',
        4 => '\u{FF73}',
        5 => '\u{FF7C}',
        6 => '\u{FF85}',
        7 => '\u{FF93}',
        8 => '\u{FF86}',
        9 => '\u{FF7B}',
        10 => '\u{FF9C}',
        11 => '\u{FF82}',
        12 => '\u{FF75}',
        13 => '\u{FF98}',
        14 => '\u{FF71}',
        15 => '\u{FF8E}',
        16 => '\u{FF83}',
        17 => '\u{FF8F}',
        18 => '\u{FF79}',
        19 => '\u{FF92}',
        20 => '\u{FF74}',
        21 => '\u{FF76}',
        22 => '\u{FF77}',
        23 => '\u{FF91}',
        24 => '\u{FF95}',
        25 => '\u{FF97}',
        26 => '\u{FF7E}',
        27 => '\u{FF88}',
        28 => '\u{FF7D}',
        29 => '\u{FF80}',
        30 => '\u{FF87}',
        31 => '\u{FF8D}',
        32 => '\u{FF66}',
        33 => '\u{FF72}',
        34 => '\u{FF78}',
        35 => '\u{FF7A}',
        36 => '\u{FF7F}',
        37 => '\u{FF81}',
        38 => '\u{FF84}',
        39 => '\u{FF89}',
        40 => '\u{FF8C}',
        41 => '\u{FF94}',
        42 => '\u{FF96}',
        43 => '\u{FF99}',
        44 => '\u{FF9A}',
        45 => '\u{FF9B}',
        46 => '\u{FF9D}',
        47 => '\u{00A6}',
        48 => '*',
        49 => '+',
        50 => '-',
        51 => ',',
        52 => '.',
        _ => ';',
    }
}

/// The glyph shown when a cell has not spawned yet: a blank on black.
pub open spec fn empty_glyph() -> Glyph {
    Glyph { character: ' ', color: Rgb::black() }
}

/// The glyph a fade step turns g into: same character, faded color.
pub open spec fn faded_glyph(g: Glyph) -> Glyph {
    Glyph { character: g.character, color: faded_rgb(g.color) }
}

/// The instructions that paint one glyph: its character in its color on a
/// black background.
pub open spec fn glyph_instructions(g: Glyph) -> Seq<Instruction> {
    seq![
        Instruction::SetBackground(Rgb::black()),
        Instruction::SetForeground(g.color),
        Instruction::Print(g.character),
    ]
}

/// One screen cell's visible content: a character and its color.
#[derive(Clone, Copy, Debug, PartialEq, Eq, Structural)]
pub struct Glyph {
    pub character: char,
    pub color: Rgb,
}

impl Glyph {
    pub fn new(character: char, color: Rgb) -> (g: Glyph)
        ensures
            g == (Glyph { character, color }),
    {
        Glyph { character, color }
    }

    /// The initial fill value of a column: blank character, black color.
    pub fn empty() -> (g: Glyph)
        ensures
            g == empty_glyph(),
    {
        Glyph { character: ' ', color: Rgb { r: 0, g: 0, b: 0 } }
    }

    /// A glyph whose character is drawn uniformly from the spawn alphabet,
    /// in the given color.
    pub fn new_random(rand: &mut Xoshiro256PlusPlus, color: Rgb) -> (g: Glyph)
        ensures
            g.color == color,
            is_symbol(g.character),
    {
        let n = symbol_count();
        let i = random_below(rand, n);
        let character = symbol_char(i);
        Glyph { character, color }
    }

    /// One fade step: the character stays, the color desaturates and darkens.
    pub fn fade_color(&mut self)
        ensures
            *final(self) == faded_glyph(*old(self)),
    {
        self.color = self.color.fade();
    }

    /// Append the instructions that paint this glyph to the frame under
    /// construction.
    pub fn render(&self, out: &mut Vec<Instruction>)
        ensures
            final(out)@ == old(out)@ + glyph_instructions(*self),
    {
        out.push(Instruction::SetBackground(Rgb { r: 0, g: 0, b: 0 }));
        out.push(Instruction::SetForeground(self.color));
        out.push(Instruction::Print(self.character));
    }
}

} // verus!

