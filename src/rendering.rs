//! Layout of the 3x3 grid and the squares it is drawn with.
use crate::path::{command1, command2, Path};
use crate::tags::{close_text, open_text, Tag};
use crate::text::{int_text, lemma_int_text_ends_in_digit, lemma_trim_one_space, trim};
use crate::Specs;
use vstd::prelude::*;

verus! {

/// The largest value of an `i32`: every coordinate of a diagram must fit in one.
pub const MAX_COORD: u32 = 0x7fff_ffff;

/// Edge of the black square behind the grid: two borders, four gutters, three cubies.
pub open spec fn big_square(s: Specs) -> int {
    s.border_width * 2 + s.gutter_size * 4 + s.cubie_size * 3
}

/// Edge of the whole diagram: the big square with a gutter and a sticker band on each side.
pub open spec fn canvas(s: Specs) -> int {
    big_square(s) + s.gutter_size * 2 + s.sticker_width * 2
}

/// Offset of row or column `idx` of the grid.
pub open spec fn row_start(idx: int, s: Specs) -> int {
    s.sticker_width + s.gutter_size * (2 + idx) + s.border_width + s.cubie_size * idx
}

/// The diagram fits in the coordinates that a path can hold.
pub open spec fn fits(s: Specs) -> bool {
    canvas(s) <= MAX_COORD
}

/// Path data of the rectangle with corner (x, y), width `w` and height `h`.
pub open spec fn rect_data(x: int, y: int, w: int, h: int) -> Seq<char> {
    command2('M', x, y) + command1('h', w) + command1('v', h) + command1('h', -w) + seq!['v', ' ']
        + int_text(-h)
}

/// An element with its opening and closing tags.
pub open spec fn element_text(name: Seq<char>, attrs: Seq<(Seq<char>, Seq<char>)>) -> Seq<
    char,
> {
    open_text(name, attrs) + close_text(name)
}

/// A borderless square filled with `fill`.
pub open spec fn square_text(x: int, y: int, w: int, fill: Seq<char>) -> Seq<char> {
    element_text(
        "path"@,
        seq![("fill"@, fill), ("border-width"@, "0"@), ("d"@, rect_data(x, y, w, w))],
    )
}

/// Path data for a rectangle drawn clockwise from (x, y).
pub fn rect_path(x: u32, y: u32, w: u32, h: u32) -> (r: Path)
    requires
        x <= MAX_COORD,
        y <= MAX_COORD,
        w <= MAX_COORD,
        h <= MAX_COORD,
    ensures
        r@ == rect_data(x as int, y as int, w as int, h as int).push(' '),
        trim(r@) == rect_data(x as int, y as int, w as int, h as int),
{
    let p = Path::new().M(x as i32, y as i32).h(w as i32).v(h as i32).h(-(w as i32)).v(
        -(h as i32),
    );
    proof {
        let t = rect_data(x as int, y as int, w as int, h as int);
        assert(p@ =~= t.push(' '));
        lemma_int_text_ends_in_digit(-h);
        assert(t.last() == int_text(-h).last());
        assert(t[0] == 'M');
        lemma_trim_one_space(t);
    }
    p
}

/// A square of edge `width` at (x, y), filled with `fill`.
pub fn render_square(x: u32, y: u32, width: u32, fill: &str) -> (r: String)
    requires
        x <= MAX_COORD,
        y <= MAX_COORD,
        width <= MAX_COORD,
    ensures
        r@ == square_text(x as int, y as int, width as int, fill@),
{
    let path = rect_path(x, y, width, width);
    let tag = Tag::new("path").attr("fill", fill).attr("border-width", "0").attr(
        "d",
        path.output(),
    );
    let mut s = tag.open();
    s.append(tag.close().as_str());
    proof {
        assert(tag@.1 =~= seq![
            ("fill"@, fill@),
            ("border-width"@, "0"@),
            ("d"@, rect_data(x as int, y as int, width as int, width as int)),
        ]);
    }
    s
}

/// Whether a diagram drawn with these sizes fits in the coordinates of a path.
pub fn fits_in_coords(specs: &Specs) -> (r: bool)
    ensures
        r == fits(*specs),
{
    let size: u64 = specs.border_width as u64 * 2 + specs.gutter_size as u64 * 6
        + specs.cubie_size as u64 * 3 + specs.sticker_width as u64 * 2;
    size <= MAX_COORD as u64
}

/// Edge of the black square behind the grid.
pub fn big_square_size(specs: &Specs) -> (r: u32)
    requires
        fits(*specs),
    ensures
        r == big_square(*specs),
{
    specs.border_width * 2 + specs.gutter_size * 4 + specs.cubie_size * 3
}

/// Edge of the whole diagram.
pub fn canvas_size(specs: &Specs) -> (r: u32)
    requires
        fits(*specs),
    ensures
        r == canvas(*specs),
{
    big_square_size(specs) + specs.gutter_size * 2 + specs.sticker_width * 2
}

/// Offset of row or column `idx` of the grid.
pub fn row_or_col_start(idx: u32, specs: &Specs) -> (r: u32)
    requires
        idx < 3,
        fits(*specs),
    ensures
        r == row_start(idx as int, *specs),
        r + specs.cubie_size <= canvas(*specs),
{
    proof {
        let g = specs.gutter_size as int;
        let c = specs.cubie_size as int;
        let i = idx as int;
        assert(g * (2 + i) <= g * 4) by (nonlinear_arith)
            requires
                0 <= g,
                0 <= i < 3,
        ;
        assert(c * i <= c * 2) by (nonlinear_arith)
            requires
                0 <= c,
                0 <= i < 3,
        ;
    }
    specs.sticker_width + specs.gutter_size * (2 + idx) + specs.border_width + specs.cubie_size
        * idx
}

/// The black square behind the grid, inside the sticker band and a gutter.
pub fn render_big_square(specs: &Specs) -> (r: String)
    requires
        fits(*specs),
    ensures
        r@ == square_text(
            specs.sticker_width + specs.gutter_size,
            specs.sticker_width + specs.gutter_size,
            big_square(*specs),
            "black"@,
        ),
{
    let big_square_size = big_square_size(specs);
    render_square(
        specs.sticker_width + specs.gutter_size,
        specs.sticker_width + specs.gutter_size,
        big_square_size,
        "black",
    )
}

} // verus!
