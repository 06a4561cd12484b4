//! OLL diagrams: the grid with each cell colored by its orientation, and edge stickers.
use crate::ollspec::{
    desc_text, is_edge, legal, lemma_desc_text_round_trip, parse_desc_spec, valid_desc, Direction,
};
use crate::error::ParseError;
use crate::rendering::{
    big_square, big_square_size, canvas, canvas_size, element_text, fits, rect_data, rect_path,
    render_big_square, render_square, row_or_col_start, row_start, square_text, MAX_COORD,
};
use crate::tags::{close_text, open_text, Tag};
use crate::text::{nat_text, nat_to_text};
use crate::Specs;
use vstd::prelude::*;

verus! {

/// A rectangle: corner x, corner y, width, height.
pub type Rect = (int, int, int, int);

/// The attributes of the root element of a diagram of edge `size`.
pub open spec fn svg_attrs(size: nat) -> Seq<(Seq<char>, Seq<char>)> {
    seq![
        ("xmlns"@, "http://www.w3.org/2000/svg"@),
        ("height"@, nat_text(size)),
        ("width"@, nat_text(size)),
    ]
}

/// A rectangle filled with `fill` and stroked black.
pub open spec fn rect_text(r: Rect, fill: Seq<char>) -> Seq<char> {
    element_text(
        "path"@,
        seq![
            ("fill"@, fill),
            ("stroke"@, "black"@),
            ("stroke-width"@, "2"@),
            ("d"@, rect_data(r.0, r.1, r.2, r.3)),
        ],
    )
}

/// The fill of a cell: yellow for `Face`, gray for `Empty`, white for an edge sticker.
pub open spec fn cell_color(d: Direction) -> Seq<char> {
    match d {
        Direction::Face => "yellow"@,
        Direction::Empty => "gray"@,
        _ => "white"@,
    }
}

/// The squares of the first `n` cells, row by row.
pub open spec fn cells_text(d: Seq<Direction>, s: Specs, n: int) -> Seq<char>
    decreases n,
{
    if n <= 0 {
        Seq::empty()
    } else {
        let i = n - 1;
        cells_text(d, s, i) + square_text(
            row_start(i % 3, s),
            row_start(i / 3, s),
            s.cubie_size as int,
            cell_color(d[i]),
        )
    }
}

/// The sticker of an edge orientation at position `i`, in the band outside that edge.
pub open spec fn sticker_rect(i: int, d: Direction, s: Specs) -> Rect {
    let far = big_square(s) + s.sticker_width + s.gutter_size * 2;
    let c = s.cubie_size as int;
    let w = s.sticker_width as int;
    match d {
        Direction::Up => (row_start(i % 3, s), 0, c, w),
        Direction::Left => (0, row_start(i / 3, s), w, c),
        Direction::Right => (far, row_start(i / 3, s), w, c),
        _ => (row_start(i % 3, s), far, c, w),
    }
}

/// The stickers of the first `n` positions, in order of position.
pub open spec fn sticker_rects(d: Seq<Direction>, s: Specs, n: int) -> Seq<Rect>
    decreases n,
{
    if n <= 0 {
        Seq::empty()
    } else if is_edge(d[n - 1]) {
        sticker_rects(d, s, n - 1).push(sticker_rect(n - 1, d[n - 1], s))
    } else {
        sticker_rects(d, s, n - 1)
    }
}

/// Yellow rectangles, one after another.
pub open spec fn rects_text(rs: Seq<Rect>) -> Seq<char>
    decreases rs.len(),
{
    if rs.len() == 0 {
        Seq::empty()
    } else {
        rects_text(rs.drop_last()) + rect_text(rs.last(), "yellow"@)
    }
}

/// The OLL diagram of a face.
pub open spec fn oll_svg(d: Seq<Direction>, s: Specs) -> Seq<char> {
    let svg_attrs = svg_attrs(canvas(s) as nat);
    open_text("svg"@, svg_attrs) + square_text(
        s.sticker_width + s.gutter_size,
        s.sticker_width + s.gutter_size,
        big_square(s),
        "black"@,
    ) + cells_text(d, s, 9) + rects_text(sticker_rects(d, s, 9)) + close_text("svg"@)
}

/// Draws an OLL face: the background square, the nine cells and the edge stickers.
pub fn render(desc: &[Direction], specs: &Specs) -> (r: String)
    requires
        desc@.len() == 9,
        fits(*specs),
    ensures
        r@ == oll_svg(desc@, *specs),
{
    let mut svg = String::new();
    let size = canvas_size(specs);
    let size_text = nat_to_text(size as u64);
    let tag = Tag::new("svg").attr("xmlns", "http://www.w3.org/2000/svg").attr(
        "height",
        size_text.as_str(),
    ).attr("width", size_text.as_str());
    assert(tag@.1 =~= svg_attrs(canvas(*specs) as nat));
    svg.append(tag.open().as_str());
    svg.append(render_big_square(specs).as_str());
    svg.append(render_small_squares(desc, specs).as_str());
    svg.append(render_stickers(desc, specs).as_str());
    svg.append(tag.close().as_str());
    assert(svg@ =~= oll_svg(desc@, *specs));
    svg
}

fn render_small_squares(desc: &[Direction], specs: &Specs) -> (r: String)
    requires
        desc@.len() == 9,
        fits(*specs),
    ensures
        r@ == cells_text(desc@, *specs, 9),
{
    let mut result = String::new();
    let mut idx: u32 = 0;
    while idx < 9
        invariant
            idx <= 9,
            desc@.len() == 9,
            fits(*specs),
            result@ == cells_text(desc@, *specs, idx as int),
        decreases 9 - idx,
    {
        let row = idx / 3;
        let col = idx % 3;
        let x = row_or_col_start(col, specs);
        let y = row_or_col_start(row, specs);
        let color = color_for_direction(desc[idx as usize]);
        result.append(render_square(x, y, specs.cubie_size, color).as_str());
        idx = idx + 1;
    }
    result
}

fn render_stickers(desc: &[Direction], specs: &Specs) -> (r: String)
    requires
        desc@.len() == 9,
        fits(*specs),
    ensures
        r@ == rects_text(sticker_rects(desc@, *specs, 9)),
{
    let mut result = String::new();
    let mut idx: usize = 0;
    while idx < 9
        invariant
            idx <= 9,
            desc@.len() == 9,
            fits(*specs),
            result@ == rects_text(sticker_rects(desc@, *specs, idx as int)),
        decreases 9 - idx,
    {
        let d = desc[idx];
        let ghost before = sticker_rects(desc@, *specs, idx as int);
        let ghost rect = sticker_rect(idx as int, d, *specs);
        let far = big_square_size(specs) + specs.sticker_width + specs.gutter_size * 2;
        match d {
            Direction::Up => {
                let x = row_or_col_start(idx as u32 % 3, specs);
                result.append(
                    render_rect(x, 0, specs.cubie_size, specs.sticker_width, "yellow").as_str(),
                );
            },
            Direction::Left => {
                let y = row_or_col_start(idx as u32 / 3, specs);
                result.append(
                    render_rect(0, y, specs.sticker_width, specs.cubie_size, "yellow").as_str(),
                );
            },
            Direction::Right => {
                let y = row_or_col_start(idx as u32 / 3, specs);
                result.append(
                    render_rect(far, y, specs.sticker_width, specs.cubie_size, "yellow").as_str(),
                );
            },
            Direction::Down => {
                let x = row_or_col_start(idx as u32 % 3, specs);
                result.append(
                    render_rect(x, far, specs.cubie_size, specs.sticker_width, "yellow").as_str(),
                );
            },
            _ => {},
        }
        proof {
            if is_edge(d) {
                assert(sticker_rects(desc@, *specs, idx + 1) == before.push(rect));
                assert(before.push(rect).drop_last() =~= before);
            }
        }
        idx = idx + 1;
    }
    result
}

/// A rectangle at (x, y) of the given size, filled with `fill` and stroked black.
fn render_rect(x: u32, y: u32, width: u32, height: u32, fill: &str) -> (r: String)
    requires
        x <= MAX_COORD,
        y <= MAX_COORD,
        width <= MAX_COORD,
        height <= MAX_COORD,
    ensures
        r@ == rect_text((x as int, y as int, width as int, height as int), fill@),
{
    let path = rect_path(x, y, width, height);
    let stroke_width = nat_to_text(2);
    proof {
        reveal_strlit("2");
        assert(stroke_width@ =~= "2"@);
    }
    let tag = Tag::new("path").attr("fill", fill).attr("stroke", "black").attr(
        "stroke-width",
        stroke_width.as_str(),
    ).attr("d", path.output());
    let mut s = tag.open();
    s.append(tag.close().as_str());
    assert(tag@.1 =~= seq![
        ("fill"@, fill@),
        ("stroke"@, "black"@),
        ("stroke-width"@, "2"@),
        ("d"@, rect_data(x as int, y as int, width as int, height as int)),
    ]);
    s
}

/// The fill of a cell for its orientation.
fn color_for_direction(dir: Direction) -> (r: &'static str)
    ensures
        r@ == cell_color(dir),
{
    match dir {
        Direction::Face => "yellow",
        Direction::Empty => "gray",
        _ => "white",
    }
}

proof fn lemma_one_edge_rects(d: Seq<Direction>, i: int, s: Specs, n: int)
    requires
        d.len() == 9,
        0 <= i < 9,
        0 <= n <= 9,
        is_edge(d[i]),
        forall|j: int| 0 <= j < 9 && j != i ==> !is_edge(#[trigger] d[j]),
    ensures
        n <= i ==> sticker_rects(d, s, n) == Seq::<Rect>::empty(),
        n > i ==> sticker_rects(d, s, n) == seq![sticker_rect(i, d[i], s)],
    decreases n,
{
    if n > 0 {
        lemma_one_edge_rects(d, i, s, n - 1);
        if n - 1 == i {
            assert(Seq::<Rect>::empty().push(sticker_rect(i, d[i], s)) =~= seq![
                sticker_rect(i, d[i], s),
            ]);
        }
    }
}

/// A face whose one edge sticker stands at position `i`, legal there, renders with exactly
/// one sticker: beside that cell, in the band outside the edge that the sticker names, and
/// the face reads back from its canonical text.
pub proof fn single_sticker_in_band(d: Seq<Direction>, i: int, s: Specs)
    requires
        valid_desc(d),
        0 <= i < 9,
        is_edge(d[i]),
        forall|j: int| 0 <= j < 9 && j != i ==> !is_edge(#[trigger] d[j]),
    ensures
        parse_desc_spec(desc_text(d)) == Ok::<Seq<Direction>, ParseError>(d),
        sticker_rects(d, s, 9) == seq![sticker_rect(i, d[i], s)],
        ({
            let r = sticker_rect(i, d[i], s);
            let grid_start = s.sticker_width + s.gutter_size;
            let grid_end = grid_start + big_square(s);
            let c = s.cubie_size as int;
            let w = s.sticker_width as int;
            match d[i] {
                Direction::Up => i / 3 == 0 && r == (row_start(i % 3, s), 0int, c, w) && r.1 + r.3
                    <= grid_start,
                Direction::Down => i / 3 == 2 && r.0 == row_start(i % 3, s) && r.2 == c && r.3
                    == w && grid_end <= r.1 && r.1 + r.3 == canvas(s),
                Direction::Left => i % 3 == 0 && r == (0int, row_start(i / 3, s), w, c) && r.0 + r.2
                    <= grid_start,
                _ => i % 3 == 2 && r.1 == row_start(i / 3, s) && r.2 == w && r.3 == c && grid_end
                    <= r.0 && r.0 + r.2 == canvas(s),
            }
        }),
{
    lemma_desc_text_round_trip(d);
    lemma_one_edge_rects(d, i, s, 9);
    assert(legal(i, d[i]));
}

/// Two renders of the same face with the same sizes give the same text.
pub proof fn oll_render_deterministic(
    face: Seq<Direction>,
    same_face: Seq<Direction>,
    sizes: Specs,
    same_sizes: Specs,
)
    requires
        face == same_face,
        sizes == same_sizes,
    ensures
        oll_svg(face, sizes) == oll_svg(same_face, same_sizes),
{
}

} // verus!
