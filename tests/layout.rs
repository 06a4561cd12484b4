use cubetools::rendering::{
    big_square_size, canvas_size, render_big_square, render_square, row_or_col_start,
};
use cubetools::svg::{Path, Tag};
use cubetools::text::{int_to_text, nat_to_text, trim_text};
use cubetools::{RenderOpts, Specs};

#[test]
fn sizes_from_cubie_size() {
    let s = Specs::with_cubie_size(25);
    assert_eq!(s.cubie_size, 25);
    assert_eq!(s.gutter_size, 2);
    assert_eq!(s.sticker_width, 5);
    assert_eq!(s.border_width, 2);
    assert_eq!(big_square_size(&s), 87);
    assert_eq!(canvas_size(&s), big_square_size(&s) + s.gutter_size * 2 + s.sticker_width * 2);
    assert_eq!(canvas_size(&s), 101);
}

#[test]
fn small_cubie_sizes() {
    let s: RenderOpts = Specs::with_cubie_size(4);
    assert_eq!((s.gutter_size, s.sticker_width), (0, 0));
    assert_eq!(big_square_size(&s), 16);
    let z = Specs::with_cubie_size(0);
    assert_eq!(canvas_size(&z), 4);
}

#[test]
fn row_and_column_starts() {
    let s = Specs::with_cubie_size(50);
    assert_eq!(row_or_col_start(0, &s), 10 + 10 + 2);
    assert_eq!(row_or_col_start(1, &s), 10 + 15 + 2 + 50);
    assert_eq!(row_or_col_start(2, &s), 10 + 20 + 2 + 100);
}

#[test]
fn square_markup() {
    assert_eq!(
        render_square(1, 2, 3, "red"),
        "<path\n   fill=\"red\"\n   border-width=\"0\"\n   d=\"M 1 2 h 3 v 3 h -3 v -3\">\n</path>\n"
    );
    let s = Specs::with_cubie_size(50);
    assert_eq!(
        render_big_square(&s),
        "<path\n   fill=\"black\"\n   border-width=\"0\"\n   d=\"M 15 15 h 174 v 174 h -174 v -174\">\n</path>\n"
    );
}

#[test]
fn path_commands() {
    let p = Path::new().M(10, 10).h(20).v(20).h(-20).v(-20);
    assert_eq!(p.output(), "M 10 10 h 20 v 20 h -20 v -20");
    let q = Path::new().M(0, 0).L(10, 5).L(0, 10).z();
    assert_eq!(q.output(), "M 0 0 L 10 5 L 0 10 z");
    assert_eq!(Path::new().output(), "");
}

#[test]
fn tag_markup() {
    let t = Tag::new("line").attr("x1", "3").attr("stroke", "red");
    assert_eq!(t.open(), "<line\n   x1=\"3\"\n   stroke=\"red\">\n");
    assert_eq!(t.close(), "</line>\n");
    assert_eq!(Tag::new("g").open(), "<g\n>\n");
}

#[test]
fn numbers_as_text() {
    assert_eq!(nat_to_text(0), "0");
    assert_eq!(nat_to_text(1234567890123), "1234567890123");
    assert_eq!(int_to_text(-120), "-120");
    assert_eq!(int_to_text(i32::MIN), "-2147483648");
    assert_eq!(int_to_text(i32::MAX), "2147483647");
}

#[test]
fn trims_whitespace() {
    assert_eq!(trim_text("  a b \n"), "a b");
    assert_eq!(trim_text(" \t "), "");
    assert_eq!(trim_text("\u{3000}x\u{a0}"), "x");
}
