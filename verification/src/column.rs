//! One vertical strip of the terminal: `height` glyphs and a spawn cursor.
//!
//! Each tick a column either idles (only possible while its cursor rests at
//! the top row, and then nine times out of ten) or performs a full
//! fade-and-spawn: every glyph fades one step, the cursor's row is overwritten
//! with a fresh random glyph in one of two fixed reference colors, and the
//! cursor advances one row, wrapping to the top at the bottom. The head
//! overwrite happens after the uniform fade, so a freshly spawned row is
//! never faded in the tick that spawned it.

use crate::color::Rgb;
use crate::glyph::empty_glyph;
use crate::glyph::faded_glyph;
use crate::glyph::glyph_instructions;
use crate::glyph::symbols;
use crate::glyph::Glyph;
use crate::instruction::Instruction;
use crate::rng::choose_random;
use crate::rng::random_ratio;
use rand_xoshiro::Xoshiro256PlusPlus;
use vstd::prelude::*;

verus! {

/// The two fixed reference colors a spawned head is drawn in: an even random
/// pick between them is made on every spawn, independent of the column's
/// base color.
pub open spec fn spawn_color(first: bool) -> Rgb {
    if first {
        Rgb { r: 0, g: 150, b: 255 }
    } else {
        Rgb { r: 0, g: 255, b: 43 }
    }
}

/// The freshly generated head glyph of a spawn: the symbol at position ci of
/// the alphabet, in the chosen reference color.
pub open spec fn spawn_glyph(first: bool, ci: int) -> Glyph {
    Glyph { character: symbols()[ci], color: spawn_color(first) }
}

/// Where the spawn cursor stands after a spawn at row i: one row further,
/// wrapped to the top past the last row.
pub open spec fn next_index(i: int, height: int) -> int {
    if i + 1 >= height {
        0
    } else {
        i + 1
    }
}

/// One vertical strip of the terminal, exactly `height` cells tall.
#[derive(Clone, Debug, PartialEq, Eq)]
pub struct Column {
    pub height: u16,
    pub base_color: Rgb,
    pub glyphs: Vec<Glyph>,
    pub active_index: usize,
}

/// What one non-gated tick does to a column: every glyph fades one step,
/// then the cursor's row is overwritten with the fresh head glyph, and the
/// cursor advances with wraparound. Nothing else changes — a step is never
/// partial.
pub open spec fn is_spawn_step(pre: Column, post: Column, first: bool, ci: int) -> bool {
    &&& 0 <= ci < symbols().len()
    &&& post.height == pre.height
    &&& post.base_color == pre.base_color
    &&& post.glyphs@ == pre.glyphs@.map(|j: int, g: Glyph| faded_glyph(g)).update(
        pre.active_index as int,
        spawn_glyph(first, ci),
    )
    &&& post.active_index as int == next_index(pre.active_index as int, pre.height as int)
}

/// What one tick may do to a column: leave it fully untouched (only possible
/// while the cursor rests at the top row) or perform a full spawn-step.
pub open spec fn column_stepped(pre: Column, post: Column) -> bool {
    ||| (pre.active_index == 0 && post == pre)
    ||| exists|first: bool, ci: int| is_spawn_step(pre, post, first, ci)
}

impl Column {
    /// The column's structural invariant: one glyph per row, the cursor on a
    /// valid row.
    pub open spec fn wf(self) -> bool {
        &&& 1 <= self.height
        &&& self.glyphs@.len() == self.height as int
        &&& (self.active_index as int) < self.height as int
    }

    /// A freshly created column: every row empty, the cursor at the top.
    pub open spec fn is_fresh(self, height: u16, base_color: Rgb) -> bool {
        &&& self.height == height
        &&& self.base_color == base_color
        &&& self.active_index == 0
        &&& self.glyphs@ == Seq::new(height as nat, |i: int| empty_glyph())
    }

    pub fn new(height: u16, base_color: Rgb) -> (c: Column)
        requires
            1 <= height,
        ensures
            c.wf(),
            c.is_fresh(height, base_color),
    {
        let mut glyphs: Vec<Glyph> = Vec::new();
        let mut i: usize = 0;
        while i < height as usize
            invariant
                i <= height as usize,
                glyphs@.len() == i as int,
                forall|j: int| 0 <= j < i as int ==> glyphs@[j] == empty_glyph(),
            decreases height as usize - i,
        {
            glyphs.push(Glyph::empty());
            i += 1;
        }
        proof {
            assert(glyphs@ =~= Seq::new(height as nat, |i: int| empty_glyph()));
        }
        Column { height, base_color, glyphs, active_index: 0 }
    }

    /// Append the instructions that paint row y of this column to the frame
    /// under construction.
    pub fn render(&self, out: &mut Vec<Instruction>, y: u16)
        requires
            self.wf(),
            (y as int) < self.height as int,
        ensures
            final(out)@ == old(out)@ + glyph_instructions(self.glyphs@[y as int]),
    {
        let g = self.glyphs[y as usize];
        g.render(out);
    }

    /// One tick. While the cursor rests at the top row, a gating draw lets
    /// the step do nothing nine times out of ten, throttling how often the
    /// column restarts a drop; otherwise the step fades every glyph, spawns
    /// a fresh head at the cursor's row and advances the cursor.
    pub fn step(&mut self, rand: &mut Xoshiro256PlusPlus)
        requires
            old(self).wf(),
        ensures
            final(self).wf(),
            column_stepped(*old(self), *final(self)),
            old(self).active_index != 0 ==> exists|first: bool, ci: int|
                is_spawn_step(*old(self), *final(self), first, ci),
    {
        if self.active_index == 0 {
            if !random_ratio(rand, 1, 10) {
                return ;
            }
        }
        let len = self.glyphs.len();
        let mut i: usize = 0;
        while i < len
            invariant
                i <= len,
                len == self.glyphs@.len(),
                self.height == old(self).height,
                self.base_color == old(self).base_color,
                self.active_index == old(self).active_index,
                self.glyphs@.len() == old(self).glyphs@.len(),
                forall|j: int|
                    0 <= j < i as int ==> self.glyphs@[j] == faded_glyph(old(self).glyphs@[j]),
                forall|j: int| i as int <= j < len as int ==> self.glyphs@[j] == old(
                    self,
                ).glyphs@[j],
            decreases len - i,
        {
            let mut g = self.glyphs[i];
            g.fade_color();
            self.glyphs[i] = g;
            i += 1;
        }
        let chosen = choose_random(rand, Rgb::new(0, 150, 255), Rgb::new(0, 255, 43));
        let head = Glyph::new_random(rand, chosen);
        let at = self.active_index;
        self.glyphs[at] = head;
        self.active_index = at + 1;
        if self.active_index >= self.height as usize {
            self.active_index = 0;
        }
        proof {
            let first = (chosen == spawn_color(true));
            assert(symbols().contains(head.character));
            let ci = choose|ci: int| 0 <= ci < symbols().len() && symbols()[ci] == head.character;
            assert(head == spawn_glyph(first, ci));
            assert(self.glyphs@ =~= old(self).glyphs@.map(|j: int, g: Glyph| faded_glyph(g)).update(
                old(self).active_index as int,
                spawn_glyph(first, ci),
            ));
            assert(is_spawn_step(*old(self), *self, first, ci));
        }
    }
}

/// A spawn-step on a well-formed column keeps it well formed, keeps its
/// height, and advances the cursor by exactly one row with wraparound.
pub proof fn lemma_spawn_step_preserves(pre: Column, post: Column, first: bool, ci: int)
    requires
        pre.wf(),
        is_spawn_step(pre, post, first, ci),
    ensures
        post.wf(),
        post.height == pre.height,
        post.active_index as int == next_index(pre.active_index as int, pre.height as int),
{
    assert(post.glyphs@.len() == pre.glyphs@.len());
}

/// The row written by a spawn-step holds exactly the freshly generated head
/// glyph: its color is the chosen reference color, not a faded version of
/// the row's prior occupant.
pub proof fn lemma_spawned_row_fresh(pre: Column, post: Column, first: bool, ci: int)
    requires
        pre.wf(),
        is_spawn_step(pre, post, first, ci),
    ensures
        post.glyphs@[pre.active_index as int] == spawn_glyph(first, ci),
        post.glyphs@[pre.active_index as int].color == spawn_color(first),
{
}

/// A spawn-step on a freshly created column writes only the top row: row 0
/// becomes the fresh head glyph and every other row keeps the empty glyph,
/// since the empty glyph's black color fades to itself.
pub proof fn lemma_fresh_column_first_step(pre: Column, post: Column, first: bool, ci: int)
    requires
        pre.wf(),
        pre.is_fresh(pre.height, pre.base_color),
        is_spawn_step(pre, post, first, ci),
    ensures
        post.glyphs@.len() == pre.glyphs@.len(),
        post.glyphs@[0] == spawn_glyph(first, ci),
        forall|r: int| 1 <= r < post.glyphs@.len() ==> post.glyphs@[r] == empty_glyph(),
        post.active_index as int == next_index(0, pre.height as int),
{
    crate::color::lemma_fade_achromatic(crate::color::Rgb::black());
    assert(faded_glyph(empty_glyph()) == empty_glyph());
    assert forall|r: int| 1 <= r < post.glyphs@.len() implies post.glyphs@[r] == empty_glyph() by {
        assert(pre.glyphs@[r] == empty_glyph());
    }
}

/// The cursor position after n further spawn-steps from row i.
pub open spec fn advanced_index(i: int, height: int, n: nat) -> int
    decreases n,
{
    if n == 0 {
        i
    } else {
        advanced_index(next_index(i, height), height, (n - 1) as nat)
    }
}

proof fn lemma_advance_split(i: int, height: int, m: nat, n: nat)
    ensures
        advanced_index(i, height, m + n) == advanced_index(
            advanced_index(i, height, m),
            height,
            n,
        ),
    decreases m,
{
    if m > 0 {
        lemma_advance_split(next_index(i, height), height, (m - 1) as nat, n);
    }
}

proof fn lemma_advance_climb(i: int, height: int, n: nat)
    requires
        0 <= i,
        i + n < height,
    ensures
        advanced_index(i, height, n) == i + n,
    decreases n,
{
    if n > 0 {
        lemma_advance_climb(i + 1, height, (n - 1) as nat);
    }
}

/// Wraparound correctness of the spawn cursor: from any valid row, exactly
/// `height` consecutive spawn-steps bring the cursor back to where it began.
pub proof fn lemma_cursor_wraps(i: int, height: int)
    requires
        0 <= i < height,
    ensures
        advanced_index(i, height, height as nat) == i,
{
    lemma_advance_climb(i, height, (height - 1 - i) as nat);
    lemma_advance_split(i, height, (height - 1 - i) as nat, 1);
    assert(advanced_index(height - 1, height, 1) == advanced_index(next_index(height - 1, height), height, 0));
    assert(advanced_index(i, height, (height - i) as nat) == 0);
    lemma_advance_split(i, height, (height - i) as nat, i as nat);
    lemma_advance_climb(0, height, i as nat);
}

/// Wraparound correctness of a whole column: along any chain of `height`
/// consecutive spawn-steps (states[k] to states[k + 1] a spawn-step with the
/// spawn choices firsts[k] and cis[k]), the cursor returns to its starting
/// row.
pub proof fn lemma_active_index_wraps(states: Seq<Column>, firsts: Seq<bool>, cis: Seq<int>)
    requires
        states.len() >= 1,
        states[0].wf(),
        states.len() == states[0].height as int + 1,
        firsts.len() == states.len() - 1,
        cis.len() == states.len() - 1,
        forall|k: int|
            0 <= k < states.len() - 1 ==> is_spawn_step(
                #[trigger] states[k],
                states[k + 1],
                firsts[k],
                cis[k],
            ),
    ensures
        states[states.len() - 1].active_index == states[0].active_index,
{
    lemma_chain_advances(states, firsts, cis, states[0].height as int);
    lemma_cursor_wraps(states[0].active_index as int, states[0].height as int);
}

proof fn lemma_chain_advances(states: Seq<Column>, firsts: Seq<bool>, cis: Seq<int>, k: int)
    requires
        states.len() >= 1,
        states[0].wf(),
        0 <= k < states.len(),
        firsts.len() == states.len() - 1,
        cis.len() == states.len() - 1,
        forall|j: int|
            0 <= j < states.len() - 1 ==> is_spawn_step(
                #[trigger] states[j],
                states[j + 1],
                firsts[j],
                cis[j],
            ),
    ensures
        states[k].wf(),
        states[k].height == states[0].height,
        states[k].active_index as int == advanced_index(
            states[0].active_index as int,
            states[0].height as int,
            k as nat,
        ),
    decreases k,
{
    if k > 0 {
        lemma_chain_advances(states, firsts, cis, k - 1);
        assert(is_spawn_step(states[k - 1], states[k], firsts[k - 1], cis[k - 1]));
        lemma_spawn_step_preserves(states[k - 1], states[k], firsts[k - 1], cis[k - 1]);
        lemma_advance_split(
            states[0].active_index as int,
            states[0].height as int,
            (k - 1) as nat,
            1,
        );
        let h = states[0].height as int;
        let prev = states[k - 1].active_index as int;
        assert(advanced_index(prev, h, 1) == advanced_index(next_index(prev, h), h, 0));
        assert((k - 1) as nat + 1 == k as nat);
    }
}

} // verus!
