use matrix_rain::Column;
use matrix_rain::Glyph;
use matrix_rain::Instruction;
use matrix_rain::MatrixWaterFall;
use matrix_rain::Rgb;

fn black() -> Rgb {
    Rgb::new(0, 0, 0)
}

fn cell(g: &Glyph) -> Vec<Instruction> {
    vec![
        Instruction::SetBackground(black()),
        Instruction::SetForeground(g.color),
        Instruction::Print(g.character),
    ]
}

#[test]
fn glyph_render_emits_background_foreground_print() {
    let g = Glyph::new('x', Rgb::new(9, 8, 7));
    let mut out = Vec::new();
    g.render(&mut out);
    assert_eq!(out, cell(&g));
}

#[test]
fn one_by_one_frame_is_the_exact_instruction_sequence() {
    let glyph = Glyph::new('A', Rgb::new(10, 20, 30));
    let column = Column { height: 1, base_color: black(), glyphs: vec![glyph], active_index: 0 };
    let grid = MatrixWaterFall { width: 1, height: 1, base_color: black(), columns: vec![column] };
    let frame = grid.render();
    assert_eq!(
        frame,
        vec![
            Instruction::HideCursor,
            Instruction::MoveTo(0, 0),
            Instruction::SetBackground(black()),
            Instruction::SetForeground(Rgb::new(10, 20, 30)),
            Instruction::Print('A'),
            Instruction::ResetColors,
            Instruction::Flush,
        ]
    );
}

#[test]
fn frames_paint_rows_outer_columns_inner() {
    // A 2x2 grid with four distinct glyphs: the frame visits row 0 of both
    // columns left to right, then row 1, as the terminal paints.
    let g00 = Glyph::new('a', Rgb::new(1, 0, 0));
    let g01 = Glyph::new('b', Rgb::new(2, 0, 0));
    let g10 = Glyph::new('c', Rgb::new(3, 0, 0));
    let g11 = Glyph::new('d', Rgb::new(4, 0, 0));
    let left = Column { height: 2, base_color: black(), glyphs: vec![g00, g01], active_index: 0 };
    let right = Column { height: 2, base_color: black(), glyphs: vec![g10, g11], active_index: 0 };
    let grid = MatrixWaterFall {
        width: 2,
        height: 2,
        base_color: black(),
        columns: vec![left, right],
    };
    let mut expected = vec![Instruction::HideCursor, Instruction::MoveTo(0, 0)];
    expected.extend(cell(&g00));
    expected.extend(cell(&g10));
    expected.extend(cell(&g01));
    expected.extend(cell(&g11));
    expected.push(Instruction::ResetColors);
    expected.push(Instruction::Flush);
    assert_eq!(grid.render(), expected);
}

#[test]
fn column_render_appends_one_cell() {
    let g0 = Glyph::new('p', Rgb::new(5, 6, 7));
    let g1 = Glyph::new('q', Rgb::new(8, 9, 10));
    let column = Column { height: 2, base_color: black(), glyphs: vec![g0, g1], active_index: 1 };
    let mut out = vec![Instruction::Flush];
    column.render(&mut out, 1);
    let mut expected = vec![Instruction::Flush];
    expected.extend(cell(&g1));
    assert_eq!(out, expected);
}
