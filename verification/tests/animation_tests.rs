use matrix_rain::choose_random;
use matrix_rain::symbol_char;
use matrix_rain::symbol_count;
use matrix_rain::Column;
use matrix_rain::Glyph;
use matrix_rain::MatrixWaterFall;
use matrix_rain::Rgb;
use rand_xoshiro::rand_core::SeedableRng;
use rand_xoshiro::Xoshiro256PlusPlus;

fn spawn_a() -> Rgb {
    Rgb::new(0, 150, 255)
}

fn spawn_b() -> Rgb {
    Rgb::new(0, 255, 43)
}

fn alphabet() -> Vec<char> {
    let mut syms = Vec::new();
    let mut i = 0;
    while i < symbol_count() {
        syms.push(symbol_char(i));
        i += 1;
    }
    syms
}

fn empty() -> Glyph {
    Glyph::new(' ', Rgb::new(0, 0, 0))
}

fn is_head(g: &Glyph) -> bool {
    alphabet().contains(&g.character) && (g.color == spawn_a() || g.color == spawn_b())
}

#[test]
fn alphabet_has_54_distinct_symbols() {
    let syms = alphabet();
    assert_eq!(syms.len(), 54);
    for (i, a) in syms.iter().enumerate() {
        for b in syms.iter().skip(i + 1) {
            assert_ne!(a, b);
        }
    }
}

#[test]
fn new_column_is_empty_with_cursor_at_top() {
    let col = Column::new(4, Rgb::new(0, 150, 255));
    assert_eq!(col.height, 4);
    assert_eq!(col.active_index, 0);
    assert_eq!(col.glyphs.len(), 4);
    for g in &col.glyphs {
        assert_eq!(*g, empty());
    }
}

#[test]
fn new_random_glyph_draws_from_alphabet() {
    let mut rng = Xoshiro256PlusPlus::seed_from_u64(7);
    let syms = alphabet();
    for _ in 0..50 {
        let g = Glyph::new_random(&mut rng, Rgb::new(1, 2, 3));
        assert!(syms.contains(&g.character));
        assert_eq!(g.color, Rgb::new(1, 2, 3));
    }
}

#[test]
fn choose_random_returns_one_of_its_arguments() {
    let mut rng = Xoshiro256PlusPlus::seed_from_u64(11);
    let mut saw_a = false;
    let mut saw_b = false;
    for _ in 0..200 {
        let r = choose_random(&mut rng, 1u32, 2u32);
        assert!(r == 1 || r == 2);
        if r == 1 {
            saw_a = true;
        } else {
            saw_b = true;
        }
    }
    assert!(saw_a && saw_b);
}

#[test]
fn step_is_all_or_nothing_at_the_top_row() {
    // With the cursor at the top row a step either changes nothing at all or
    // performs the full fade-and-spawn; over many seeds both happen.
    let mut noop = 0u32;
    let mut spawned = 0u32;
    for seed in 0..300u64 {
        let mut rng = Xoshiro256PlusPlus::seed_from_u64(seed);
        let mut col = Column::new(3, spawn_a());
        let before = col.clone();
        col.step(&mut rng);
        if col == before {
            noop += 1;
        } else {
            spawned += 1;
            assert!(is_head(&col.glyphs[0]));
            assert_eq!(col.glyphs[1], empty());
            assert_eq!(col.glyphs[2], empty());
            assert_eq!(col.active_index, 1);
            assert_eq!(col.height, before.height);
            assert_eq!(col.base_color, before.base_color);
        }
    }
    assert!(noop > 0 && spawned > 0);
}

#[test]
fn steps_below_the_top_row_always_spawn_and_fade() {
    let mut rng = Xoshiro256PlusPlus::seed_from_u64(42);
    let mut col = Column::new(4, spawn_a());
    while col.active_index == 0 {
        col.step(&mut rng);
    }
    // The cursor is now at row 1; a step from here is never gated.
    let before = col.clone();
    col.step(&mut rng);
    assert_eq!(col.active_index, 2);
    assert!(is_head(&col.glyphs[1]));
    for row in [0usize, 2, 3] {
        assert_eq!(col.glyphs[row].character, before.glyphs[row].character);
        assert_eq!(col.glyphs[row].color, before.glyphs[row].color.fade());
    }
}

#[test]
fn spawned_row_is_not_faded_in_its_own_step() {
    // The freshly written head keeps the full reference color; it is not the
    // fade of that color, which differs from it.
    let mut rng = Xoshiro256PlusPlus::seed_from_u64(42);
    let mut col = Column::new(4, spawn_a());
    while col.active_index == 0 {
        col.step(&mut rng);
    }
    let head = col.glyphs[0];
    assert!(head.color == spawn_a() || head.color == spawn_b());
    assert_ne!(head.color, spawn_a().fade());
    assert_ne!(head.color, spawn_b().fade());
}

#[test]
fn active_index_wraps_after_height_spawn_steps() {
    let mut rng = Xoshiro256PlusPlus::seed_from_u64(5);
    let mut col = Column::new(5, spawn_b());
    // Step until the first spawn happens: the cursor leaves row 0.
    while col.active_index == 0 {
        col.step(&mut rng);
    }
    assert_eq!(col.active_index, 1);
    // The next four steps are never gated, completing five consecutive
    // spawn-steps in all: the cursor is back at its starting row.
    for _ in 0..4 {
        col.step(&mut rng);
    }
    assert_eq!(col.active_index, 0);
}

#[test]
fn new_waterfall_has_fresh_columns() {
    let w = MatrixWaterFall::new(3, 2, spawn_b());
    assert_eq!(w.width, 3);
    assert_eq!(w.height, 2);
    assert_eq!(w.base_color, spawn_b());
    assert_eq!(w.columns.len(), 3);
    for col in &w.columns {
        assert_eq!(col.height, 2);
        assert_eq!(col.base_color, spawn_b());
        assert_eq!(col.active_index, 0);
        assert_eq!(col.glyphs.len(), 2);
        assert_eq!(col.glyphs[0], empty());
        assert_eq!(col.glyphs[1], empty());
    }
}

#[test]
fn one_waterfall_step_touches_only_the_top_row() {
    // On a fresh 3x2 grid each column, after one step, either still shows the
    // empty glyph at row 0 (gated) or a fresh head in one of the two
    // reference spawn colors; row 1 stays empty either way.
    for seed in 0..50u64 {
        let mut rng = Xoshiro256PlusPlus::seed_from_u64(seed);
        let mut w = MatrixWaterFall::new(3, 2, Rgb::new(123, 45, 67));
        w.step(&mut rng);
        for col in &w.columns {
            let top = col.glyphs[0];
            assert!(top == empty() || is_head(&top));
            assert_eq!(col.glyphs[1], empty());
        }
    }
}
