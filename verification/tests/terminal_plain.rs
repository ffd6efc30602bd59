use conway::conway_core::ConwayMatrix;
use conway::render::{Palette, Tint};

#[test]
fn terminal_palette_is_plain_without_colors() {
    colored::control::set_override(false);
    let palette = Palette::terminal();
    for tint in [Tint::Purple, Tint::Magenta, Tint::Green, Tint::Yellow, Tint::Red, Tint::White] {
        assert_eq!(palette.glyph(tint), "\u{25a0} ");
    }
}

#[test]
fn to_string_without_colors_is_two_characters_per_cell() {
    colored::control::set_override(false);
    let mut grid = ConwayMatrix::new(3);
    for (x, y) in [(0, 1), (1, 1), (2, 1)] {
        grid.toggle_cell(x, y);
    }
    grid.tick();
    assert_eq!(grid.to_string(), "O \u{25a0} O \nO \u{25a0} O \nO \u{25a0} O \n");
    assert_eq!(ConwayMatrix::new(2).to_string(), "O O \nO O \n");
}
