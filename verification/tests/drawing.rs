use randomart::action::{Action, Jump};
use randomart::canvas::{Canvas, FlatGrid, Grid};
use randomart::picture::alphabet;

fn canvas(rows: usize, cols: usize) -> Canvas<FlatGrid> {
    match Canvas::new(FlatGrid::new(rows, cols)) {
        Ok(canvas) => canvas,
        Err(e) => panic!("a {}x{} canvas was refused: {:?}", rows, cols, e),
    }
}

#[test]
fn landmarks_of_the_palette() {
    assert_eq!(alphabet(0), ' ');
    assert_eq!(alphabet(-10), ']');
    assert_eq!(alphabet(10), '\\');
    assert_eq!(alphabet(1), '.');
    assert_eq!(alphabet(-1), '[');
    assert_eq!(alphabet(-2), '&');
}

#[test]
fn the_whole_palette() {
    let palette = "]`~%$^/#&[ .o+=*BOX@\\";
    assert_eq!(palette.chars().count(), 21);
    for (index, glyph) in palette.chars().enumerate() {
        assert_eq!(alphabet(index as i8 - 10), glyph);
    }
}

#[test]
fn values_off_the_palette_show_as_sentinels() {
    assert_eq!(alphabet(-11), 'U');
    assert_eq!(alphabet(11), 'H');
    assert_eq!(alphabet(i8::MIN), 'U');
    assert_eq!(alphabet(i8::MAX), 'H');
    assert_eq!(alphabet(117), 'H');
    assert_eq!(alphabet(118), 'H');
    for v in i8::MIN..-10 {
        assert_eq!(alphabet(v), 'U');
    }
    for v in 11..=i8::MAX {
        assert_eq!(alphabet(v), 'H');
    }
}

#[test]
fn larger_counters_never_show_further_down_the_scale() {
    let scale = "U]`~%$^/#&[ .o+=*BOX@\\H";
    let rank = |v: i8| scale.chars().position(|g| g == alphabet(v)).unwrap();
    for v in i8::MIN..i8::MAX {
        assert!(rank(v) <= rank(v + 1));
    }
    assert_eq!(rank(i8::MIN), 0);
    assert_eq!(rank(i8::MAX), 22);
}

#[test]
fn a_blank_canvas_is_drawn_as_spaces() {
    assert_eq!(canvas(2, 3).render(), "Grid:\n+---+\n|   |\n|   |\n+---+\n");
    assert_eq!(canvas(1, 1).render(), "Grid:\n+-+\n| |\n+-+\n");
    assert_eq!(canvas(3, 1).render(), "Grid:\n+-+\n| |\n| |\n| |\n+-+\n");
}

#[test]
fn a_picture_has_a_line_for_each_row_between_two_borders() {
    let text = canvas(9, 17).render();
    let lines: Vec<&str> = text.split('\n').collect();
    assert_eq!(lines.len(), 13);
    assert_eq!(lines[0], "Grid:");
    assert_eq!(lines[1], "+-----------------+");
    for row in 0..9 {
        assert_eq!(lines[2 + row], "|                 |");
    }
    assert_eq!(lines[11], "+-----------------+");
    assert_eq!(lines[12], "");
}

#[test]
fn glyphs_stand_where_their_cells_are() {
    let mut canvas = canvas(3, 4);
    // (1,2) -> (2,0) -> (0,1) -> (1,3)
    canvas.simulate(&Action::Increment(Jump::S1W2), false);
    canvas.simulate(&Action::Decrement(Jump::N2E1), false);
    canvas.simulate(&Action::Increment(Jump::S1E2), false);
    canvas.simulate(&Action::Increment(Jump::Still), false);
    assert_eq!(canvas.position(), (1, 3));
    assert_eq!(canvas.render(), "Grid:\n+----+\n| [  |\n|   o|\n|.   |\n+----+\n");
}

#[test]
fn hot_cells_show_as_sentinels() {
    let mut up = canvas(1, 2);
    for _ in 0..10 {
        up.simulate(&Action::Increment(Jump::Still), false);
    }
    assert_eq!(up.render(), "Grid:\n+--+\n| \\|\n+--+\n");
    up.simulate(&Action::Increment(Jump::Still), false);
    assert_eq!(up.render(), "Grid:\n+--+\n| H|\n+--+\n");
    let mut down = canvas(1, 2);
    for _ in 0..10 {
        down.simulate(&Action::Decrement(Jump::Still), false);
    }
    assert_eq!(down.render(), "Grid:\n+--+\n| ]|\n+--+\n");
    down.simulate(&Action::Decrement(Jump::Still), false);
    assert_eq!(down.render(), "Grid:\n+--+\n| U|\n+--+\n");
}

#[test]
fn drawing_changes_nothing() {
    let mut canvas = canvas(3, 3);
    canvas.simulate(&Action::Increment(Jump::N2E1), true);
    let first = canvas.render();
    let second = canvas.render();
    assert_eq!(first, second);
    assert_eq!(canvas.position(), (2, 2));
    assert_eq!(canvas.grid().get(2, 2), Some(1));
}
