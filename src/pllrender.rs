//! PLL diagrams: the yellow grid with a red arrow for each statement.
use crate::ollrender::svg_attrs;
use crate::path::Path;
use crate::pllspec::{
    parse_program_spec, valid_cubie, valid_program, Operator, Program, Statement,
};
use crate::rendering::{
    big_square, canvas, canvas_size, element_text, fits, render_big_square, render_square,
    row_or_col_start, row_start, square_text,
};
use crate::tags::{close_text, open_text, Tag};
use crate::text::{lemma_trim_one_space, nat_text, nat_to_text};
use crate::Specs;
use vstd::prelude::*;

verus! {

/// The attributes of the arrowhead marker.
pub open spec fn marker_attrs() -> Seq<(Seq<char>, Seq<char>)> {
    seq![
        ("id"@, "arrow"@),
        ("viewBox"@, "0 0 10 10"@),
        ("refX"@, "5"@),
        ("refY"@, "5"@),
        ("markerWidth"@, "3"@),
        ("markerHeight"@, "3"@),
        ("orient"@, "auto-start-reverse"@),
    ]
}

/// The definitions block: one red triangular arrowhead with the id `arrow`.
pub open spec fn defs_text() -> Seq<char> {
    open_text("defs"@, Seq::empty()) + open_text("marker"@, marker_attrs()) + open_text(
        "path"@,
        seq![("d"@, "M 0 0 L 10 5 L 0 10 z"@), ("fill"@, "red"@)],
    ) + close_text("path"@) + close_text("marker"@) + close_text("defs"@)
}

/// The yellow squares of the first `n` cells, row by row.
pub open spec fn grid_text(s: Specs, n: int) -> Seq<char>
    decreases n,
{
    if n <= 0 {
        Seq::empty()
    } else {
        let i = n - 1;
        grid_text(s, i) + square_text(
            row_start(i % 3, s),
            row_start(i / 3, s),
            s.cubie_size as int,
            "yellow"@,
        )
    }
}

/// The center of row or column `i` of the grid.
pub open spec fn center(i: int, s: Specs) -> int {
    row_start(i, s) + s.cubie_size / 2
}

/// The markers of an arrow: at its start, at its end, or both.
pub open spec fn marker_refs(op: Operator) -> Seq<(Seq<char>, Seq<char>)> {
    match op {
        Operator::StartHead => seq![("marker-start"@, "url(#arrow)"@)],
        Operator::EndHead => seq![("marker-end"@, "url(#arrow)"@)],
        Operator::BothHead => seq![("marker-start"@, "url(#arrow)"@), ("marker-end"@, "url(#arrow)"@)],
    }
}

/// The red line of a statement, from the center of its start cell to that of its end cell.
pub open spec fn line_text(st: Statement, s: Specs) -> Seq<char> {
    let a = st.start.idx as int;
    let b = st.end.idx as int;
    element_text(
        "line"@,
        seq![
            ("x1"@, nat_text(center(a % 3, s) as nat)),
            ("y1"@, nat_text(center(a / 3, s) as nat)),
            ("x2"@, nat_text(center(b % 3, s) as nat)),
            ("y2"@, nat_text(center(b / 3, s) as nat)),
            ("stroke-width"@, "4"@),
            ("stroke"@, "red"@),
        ] + marker_refs(st.op),
    )
}

/// The lines of the first `n` statements, in order.
pub open spec fn lines_text(p: Seq<Statement>, s: Specs, n: int) -> Seq<char>
    decreases n,
{
    if n <= 0 {
        Seq::empty()
    } else {
        lines_text(p, s, n - 1) + line_text(p[n - 1], s)
    }
}

/// The PLL diagram of a program.
pub open spec fn pll_svg(p: Seq<Statement>, s: Specs) -> Seq<char> {
    open_text("svg"@, svg_attrs(canvas(s) as nat)) + defs_text() + square_text(
        s.sticker_width + s.gutter_size,
        s.sticker_width + s.gutter_size,
        big_square(s),
        "black"@,
    ) + grid_text(s, 9) + lines_text(p, s, p.len() as int) + close_text("svg"@)
}

/// Draws a PLL face: the arrowhead definition, the background square, the nine yellow
/// cells and one arrow for each statement, in order.
pub fn render(program: &Program, specs: &Specs) -> (r: String)
    requires
        fits(*specs),
        valid_program(program@),
    ensures
        r@ == pll_svg(program@, *specs),
{
    let mut svg = String::new();
    let size = canvas_size(specs);
    let size_text = nat_to_text(size as u64);
    let tag = Tag::new("svg").attr("xmlns", "http://www.w3.org/2000/svg").attr(
        "height",
        size_text.as_str(),
    ).attr("width", size_text.as_str());
    assert(tag@.1 =~= svg_attrs(canvas(*specs) as nat));
    svg.append(tag.open().as_str());
    svg.append(render_defs().as_str());
    svg.append(render_big_square(specs).as_str());
    svg.append(render_small_squares(specs).as_str());
    let ghost head = svg@;
    let stmts = &program.statements.statements;
    let mut k: usize = 0;
    while k < stmts.len()
        invariant
            k <= stmts@.len(),
            stmts@ == program@,
            fits(*specs),
            valid_program(program@),
            svg@ == head + lines_text(program@, *specs, k as int),
        decreases stmts@.len() - k,
    {
        assert(valid_cubie(program@[k as int].start) && valid_cubie(program@[k as int].end));
        svg.append(render_stmt(&stmts[k], specs).as_str());
        assert(svg@ =~= head + lines_text(program@, *specs, k + 1));
        k = k + 1;
    }
    svg.append(tag.close().as_str());
    assert(svg@ =~= pll_svg(program@, *specs));
    svg
}

fn render_defs() -> (r: String)
    ensures
        r@ == defs_text(),
{
    let mut output = String::new();
    let defs = Tag::new("defs");
    let marker = Tag::new("marker").attr("id", "arrow").attr("viewBox", "0 0 10 10").attr(
        "refX",
        "5",
    ).attr("refY", "5").attr("markerWidth", "3").attr("markerHeight", "3").attr(
        "orient",
        "auto-start-reverse",
    );
    let path = Path::new().M(0, 0).L(10, 5).L(0, 10).z();
    proof {
        reveal_strlit("M 0 0 L 10 5 L 0 10 z");
        let t = "M 0 0 L 10 5 L 0 10 z"@;
        assert(nat_text(10) == nat_text(1).push('0'));
        assert(path@ =~= t.push(' '));
        lemma_trim_one_space(t);
    }
    let path_tag = Tag::new("path").attr("d", path.output()).attr("fill", "red");
    output.append(defs.open().as_str());
    output.append(marker.open().as_str());
    output.append(path_tag.open().as_str());
    output.append(path_tag.close().as_str());
    output.append(marker.close().as_str());
    output.append(defs.close().as_str());
    proof {
        assert(defs@.1 =~= Seq::<(Seq<char>, Seq<char>)>::empty());
        assert(marker@.1 =~= marker_attrs());
        assert(path_tag@.1 =~= seq![("d"@, "M 0 0 L 10 5 L 0 10 z"@), ("fill"@, "red"@)]);
        assert(output@ =~= defs_text());
    }
    output
}

fn render_stmt(stmt: &Statement, specs: &Specs) -> (r: String)
    requires
        fits(*specs),
        valid_cubie(stmt.start),
        valid_cubie(stmt.end),
    ensures
        r@ == line_text(*stmt, *specs),
{
    let start_row = stmt.start.idx / 3;
    let start_col = stmt.start.idx % 3;
    let end_row = stmt.end.idx / 3;
    let end_col = stmt.end.idx % 3;
    let start_x = row_or_col_start(start_col as u32, specs) + specs.cubie_size / 2;
    let start_y = row_or_col_start(start_row as u32, specs) + specs.cubie_size / 2;
    let end_x = row_or_col_start(end_col as u32, specs) + specs.cubie_size / 2;
    let end_y = row_or_col_start(end_row as u32, specs) + specs.cubie_size / 2;
    let tag = Tag::new("line").attr("x1", nat_to_text(start_x as u64).as_str()).attr(
        "y1",
        nat_to_text(start_y as u64).as_str(),
    ).attr("x2", nat_to_text(end_x as u64).as_str()).attr(
        "y2",
        nat_to_text(end_y as u64).as_str(),
    ).attr("stroke-width", "4").attr("stroke", "red");
    let ghost base = tag@.1;
    let tag = match stmt.op {
        Operator::StartHead => tag.attr("marker-start", "url(#arrow)"),
        Operator::EndHead => tag.attr("marker-end", "url(#arrow)"),
        Operator::BothHead => tag.attr("marker-start", "url(#arrow)").attr(
            "marker-end",
            "url(#arrow)",
        ),
    };
    let mut output = tag.open();
    output.append(tag.close().as_str());
    proof {
        let a = stmt.start.idx as int;
        let b = stmt.end.idx as int;
        assert(base =~= seq![
            ("x1"@, nat_text(center(a % 3, *specs) as nat)),
            ("y1"@, nat_text(center(a / 3, *specs) as nat)),
            ("x2"@, nat_text(center(b % 3, *specs) as nat)),
            ("y2"@, nat_text(center(b / 3, *specs) as nat)),
            ("stroke-width"@, "4"@),
            ("stroke"@, "red"@),
        ]);
        assert(tag@.1 =~= base + marker_refs(stmt.op));
    }
    output
}

fn render_small_squares(specs: &Specs) -> (r: String)
    requires
        fits(*specs),
    ensures
        r@ == grid_text(*specs, 9),
{
    let mut result = String::new();
    let mut idx: u32 = 0;
    while idx < 9
        invariant
            idx <= 9,
            fits(*specs),
            result@ == grid_text(*specs, idx as int),
        decreases 9 - idx,
    {
        let row = idx / 3;
        let col = idx % 3;
        let x = row_or_col_start(col, specs);
        let y = row_or_col_start(row, specs);
        result.append(render_square(x, y, specs.cubie_size, "yellow").as_str());
        idx = idx + 1;
    }
    result
}

/// Two renders of the same program with the same sizes give the same text.
pub proof fn pll_render_deterministic(
    prog: Seq<Statement>,
    same_prog: Seq<Statement>,
    sizes: Specs,
    same_sizes: Specs,
)
    requires
        prog == same_prog,
        sizes == same_sizes,
    ensures
        pll_svg(prog, sizes) == pll_svg(same_prog, same_sizes),
{
}

/// The empty text reads as the program without statements, which is drawn with the
/// arrowhead definition, the background square and the grid, and no line.
pub proof fn empty_program_draws_no_lines(s: Specs)
    ensures
        parse_program_spec(Seq::empty()) == Ok::<Seq<Statement>, crate::error::ParseError>(
            Seq::empty(),
        ),
        pll_svg(Seq::empty(), s) == open_text("svg"@, svg_attrs(canvas(s) as nat)) + defs_text()
            + square_text(
            s.sticker_width + s.gutter_size,
            s.sticker_width + s.gutter_size,
            big_square(s),
            "black"@,
        ) + grid_text(s, 9) + close_text("svg"@),
{
    let e = Seq::<Statement>::empty();
    assert(lines_text(e, s, 0) == Seq::<char>::empty());
    assert(pll_svg(e, s) =~= open_text("svg"@, svg_attrs(canvas(s) as nat)) + defs_text()
        + square_text(
        s.sticker_width + s.gutter_size,
        s.sticker_width + s.gutter_size,
        big_square(s),
        "black"@,
    ) + grid_text(s, 9) + close_text("svg"@));
}

} // verus!
