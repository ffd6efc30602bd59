use conway::conway_core::ConwayMatrix;
use conway::render::{tint_of, Palette, Tint};

fn numbered_palette() -> Palette {
    Palette::new(
        String::from("1 "),
        String::from("2 "),
        String::from("3 "),
        String::from("4 "),
        String::from("5 "),
        String::from("# "),
    )
}

#[test]
fn tint_follows_the_neighbor_count() {
    assert_eq!(tint_of(0), Tint::White);
    assert_eq!(tint_of(1), Tint::Purple);
    assert_eq!(tint_of(2), Tint::Magenta);
    assert_eq!(tint_of(3), Tint::Green);
    assert_eq!(tint_of(4), Tint::Yellow);
    assert_eq!(tint_of(5), Tint::Red);
    assert_eq!(tint_of(6), Tint::White);
    assert_eq!(tint_of(7), Tint::White);
    assert_eq!(tint_of(8), Tint::White);
    assert_eq!(tint_of(u64::MAX), Tint::White);
}

#[test]
fn palette_hands_out_the_text_of_each_tint() {
    let palette = numbered_palette();
    assert_eq!(palette.glyph(Tint::Purple), "1 ");
    assert_eq!(palette.glyph(Tint::Magenta), "2 ");
    assert_eq!(palette.glyph(Tint::Green), "3 ");
    assert_eq!(palette.glyph(Tint::Yellow), "4 ");
    assert_eq!(palette.glyph(Tint::Red), "5 ");
    assert_eq!(palette.glyph(Tint::White), "# ");
}

#[test]
fn dead_grid_renders_as_rows_of_dead_glyphs() {
    let grid = ConwayMatrix::new(3);
    assert_eq!(grid.render(&numbered_palette()), "O O O \nO O O \nO O O \n");
}

#[test]
fn fresh_live_cells_render_in_the_catch_all_tint() {
    let mut grid = ConwayMatrix::new(2);
    grid.toggle_cell(1, 0);
    grid.toggle_cell(0, 1);
    assert_eq!(grid.render(&numbered_palette()), "O # \n# O \n");
}

#[test]
fn live_cells_render_by_their_cached_count() {
    // All nine cells alive: after one tick the corners live on, decided by a
    // count of three.
    let mut grid = ConwayMatrix::new(3);
    for y in 0..3 {
        for x in 0..3 {
            grid.toggle_cell(x, y);
        }
    }
    grid.tick();
    assert_eq!(grid.render(&numbered_palette()), "3 O 3 \nO O O \n3 O 3 \n");
}

#[test]
fn render_shows_each_count_in_its_tint() {
    // A plus sign: the centre lives on nothing but is shown by the count it
    // was decided with once the grid has advanced.
    let mut grid = ConwayMatrix::new(5);
    for (x, y) in [(1, 2), (2, 2), (3, 2)] {
        grid.toggle_cell(x, y);
    }
    grid.tick();
    // column of three: ends came alive on three, the middle stayed on two
    assert_eq!(
        grid.render(&numbered_palette()),
        "O O O O O \nO O 3 O O \nO O 2 O O \nO O 3 O O \nO O O O O \n"
    );
    // counts are not refreshed by an edit: the new cells show the count that
    // was cached for them while they were dead
    grid.toggle_cell(1, 1);
    grid.toggle_cell(1, 2);
    grid.toggle_cell(0, 0);
    assert_eq!(
        grid.render(&numbered_palette()),
        "# O O O O \nO 2 3 O O \nO 1 2 O O \nO O 3 O O \nO O O O O \n"
    );
}

#[test]
fn render_does_not_change_the_grid() {
    let mut grid = ConwayMatrix::new(4);
    grid.place_glider(0, 0);
    grid.tick();
    let first = grid.render(&numbered_palette());
    let second = grid.render(&numbered_palette());
    assert_eq!(first, second);
    assert_eq!(first.lines().count(), 4);
}
