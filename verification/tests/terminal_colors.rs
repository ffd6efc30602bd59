use conway::conway_core::ConwayMatrix;
use conway::render::{Palette, Tint};

#[test]
fn terminal_palette_wraps_the_glyph_in_escape_sequences() {
    colored::control::set_override(true);
    let palette = Palette::terminal();
    assert_eq!(palette.glyph(Tint::Purple), "\x1b[1;95m\u{25a0} \x1b[0m");
    assert_eq!(palette.glyph(Tint::Magenta), "\x1b[1;35m\u{25a0} \x1b[0m");
    assert_eq!(palette.glyph(Tint::Green), "\x1b[1;32m\u{25a0} \x1b[0m");
    assert_eq!(palette.glyph(Tint::Yellow), "\x1b[1;33m\u{25a0} \x1b[0m");
    assert_eq!(palette.glyph(Tint::Red), "\x1b[1;31m\u{25a0} \x1b[0m");
    assert_eq!(palette.glyph(Tint::White), "\x1b[1;37m\u{25a0} \x1b[0m");
}

#[test]
fn to_string_colors_live_cells_by_count() {
    colored::control::set_override(true);
    let mut grid = ConwayMatrix::new(3);
    for (x, y) in [(0, 1), (1, 1), (2, 1)] {
        grid.toggle_cell(x, y);
    }
    assert_eq!(
        grid.to_string(),
        "O O O \n\x1b[1;37m\u{25a0} \x1b[0m\x1b[1;37m\u{25a0} \x1b[0m\x1b[1;37m\u{25a0} \x1b[0m\nO O O \n"
    );
    grid.tick();
    assert_eq!(
        grid.to_string(),
        "O \x1b[1;32m\u{25a0} \x1b[0mO \nO \x1b[1;35m\u{25a0} \x1b[0mO \nO \x1b[1;32m\u{25a0} \x1b[0mO \n"
    );
}

#[test]
fn to_string_is_render_with_the_terminal_palette() {
    colored::control::set_override(true);
    let mut grid = ConwayMatrix::new(6);
    grid.place_glider(1, 1);
    grid.tick();
    grid.tick();
    assert_eq!(grid.to_string(), grid.render(&Palette::terminal()));
}

#[test]
fn counts_one_to_five_and_the_rest_each_have_their_own_color() {
    colored::control::set_override(true);
    let palette = Palette::terminal();
    let tints = [Tint::Purple, Tint::Magenta, Tint::Green, Tint::Yellow, Tint::Red, Tint::White];
    for (i, a) in tints.iter().enumerate() {
        for (j, b) in tints.iter().enumerate() {
            if i != j {
                assert_ne!(palette.glyph(*a), palette.glyph(*b));
            }
        }
    }
}

#[test]
fn to_string_tells_one_neighbor_from_two() {
    colored::control::set_override(true);
    // Two cells with a gap die at once; the counts they leave behind show when
    // an edit brings cells to life: two between them, one beside them.
    let mut grid = ConwayMatrix::new(4);
    grid.toggle_cell(0, 0);
    grid.toggle_cell(2, 0);
    grid.tick();
    assert_eq!(grid.cell_at_index(1, 1).neighbors(), 2);
    assert_eq!(grid.cell_at_index(3, 1).neighbors(), 1);
    grid.toggle_cell(1, 1);
    grid.toggle_cell(3, 1);
    assert_eq!(
        grid.to_string(),
        "O O O O \nO \x1b[1;35m\u{25a0} \x1b[0mO \x1b[1;95m\u{25a0} \x1b[0m\nO O O O \nO O O O \n"
    );
}
