use cubetools::error::ParseError;
use cubetools::pllrender::render;
use cubetools::pllspec::{parse_program, program_to_text, Cubie, Operator, Program, Statement};
use cubetools::Specs;

fn stmt(start: u8, op: Operator, end: u8) -> Statement {
    Statement { start: Cubie { idx: start }, end: Cubie { idx: end }, op }
}

#[test]
fn empty_program_has_no_lines() {
    let p = parse_program("").unwrap();
    assert!(p.statements.statements.is_empty());
    assert_eq!(p, Program::default());
    let svg = render(&p, &Specs::with_cubie_size(25));
    assert_eq!(svg.matches("<line").count(), 0);
    assert!(svg.contains("<defs\n>\n<marker\n"));
    assert_eq!(svg.matches("fill=\"yellow\"").count(), 9);
    assert_eq!(svg.matches("fill=\"black\"").count(), 1);
}

#[test]
fn blank_program_is_empty() {
    assert!(parse_program("  \n ").unwrap().statements.statements.is_empty());
}

#[test]
fn parses_three_statements() {
    let p = parse_program("1<2 3>4 5<>6").unwrap();
    assert_eq!(
        p.statements.statements,
        vec![
            stmt(0, Operator::StartHead, 1),
            stmt(2, Operator::EndHead, 3),
            stmt(4, Operator::BothHead, 5),
        ]
    );
}

#[test]
fn whitespace_between_tokens() {
    let p = parse_program(" 1 <> 9\n7\t< 3 ").unwrap();
    assert_eq!(
        p.statements.statements,
        vec![stmt(0, Operator::BothHead, 8), stmt(6, Operator::StartHead, 2)]
    );
    let q = parse_program("1<23>4").unwrap();
    assert_eq!(q.statements.statements.len(), 2);
}

#[test]
fn cubie_errors() {
    assert_eq!(parse_program("0<1").unwrap_err(), ParseError::OutOfRangeCubie(0));
    assert_eq!(parse_program("1<0").unwrap_err(), ParseError::OutOfRangeCubie(0));
    assert_eq!(parse_program("a<1").unwrap_err(), ParseError::ExpectedDigit);
    assert_eq!(parse_program("1<").unwrap_err(), ParseError::ExpectedDigit);
    assert_eq!(parse_program("1< ").unwrap_err(), ParseError::ExpectedDigit);
}

#[test]
fn operator_errors() {
    assert_eq!(
        parse_program("1=2").unwrap_err(),
        ParseError::UnexpectedOperatorToken('=')
    );
    assert_eq!(parse_program("1<2 3").unwrap_err(), ParseError::ExpectedOperator);
    assert_eq!(
        parse_program("1<2 3 x").unwrap_err(),
        ParseError::UnexpectedOperatorToken('x')
    );
}

#[test]
fn program_text_round_trip() {
    for s in ["1<2 3>4 5<>6", " 9 > 1 ", "", "1<>1 2<2"] {
        let p = parse_program(s).unwrap();
        let t = program_to_text(&p);
        assert_eq!(parse_program(&t).unwrap(), p);
    }
    let p = parse_program(" 1 <2\n3> 4 5 <> 6").unwrap();
    assert_eq!(program_to_text(&p), "1<2 3>4 5<>6");
}

#[test]
fn renders_arrow_between_centers() {
    let specs = Specs::with_cubie_size(25);
    let p = parse_program("1>9").unwrap();
    let svg = render(&p, &specs);
    let line = "<line\n   x1=\"23\"\n   y1=\"23\"\n   x2=\"77\"\n   y2=\"77\"\n   stroke-width=\"4\"\n   stroke=\"red\"\n   marker-end=\"url(#arrow)\">\n</line>\n";
    assert!(svg.contains(line), "{}", svg);
    assert!(svg.ends_with("</line>\n</svg>\n"));
}

#[test]
fn renders_markers_for_each_operator() {
    let specs = Specs::with_cubie_size(25);
    let svg = render(&parse_program("1<2 3>4 5<>6").unwrap(), &specs);
    assert_eq!(svg.matches("<line").count(), 3);
    assert_eq!(svg.matches("marker-start=\"url(#arrow)\"").count(), 2);
    assert_eq!(svg.matches("marker-end=\"url(#arrow)\"").count(), 2);
}

#[test]
fn renders_arrowhead_definition() {
    let svg = render(&Program::default(), &Specs::with_cubie_size(25));
    let defs = "<defs\n>\n<marker\n   id=\"arrow\"\n   viewBox=\"0 0 10 10\"\n   refX=\"5\"\n   refY=\"5\"\n   markerWidth=\"3\"\n   markerHeight=\"3\"\n   orient=\"auto-start-reverse\">\n<path\n   d=\"M 0 0 L 10 5 L 0 10 z\"\n   fill=\"red\">\n</path>\n</marker>\n</defs>\n";
    assert!(svg.contains(defs), "{}", svg);
    assert!(svg.starts_with(
        "<svg\n   xmlns=\"http://www.w3.org/2000/svg\"\n   height=\"101\"\n   width=\"101\">\n<defs"
    ));
}

#[test]
fn renders_program_deterministically() {
    let specs = Specs::with_cubie_size(30);
    let p = parse_program("1<>3 7>9").unwrap();
    assert_eq!(render(&p, &specs), render(&p, &specs));
}
