use cubetools::error::ParseError;
use cubetools::ollrender::render;
use cubetools::ollspec::{desc_to_text, parse_desc, Direction};
use cubetools::Specs;
use Direction::{Down, Empty, Face, Left, Right, Up};

fn legal_edges(pos: usize) -> Vec<Direction> {
    match pos {
        0 => vec![Direction::Left, Direction::Up],
        1 => vec![Direction::Up],
        2 => vec![Direction::Right, Direction::Up],
        3 => vec![Direction::Left],
        5 => vec![Direction::Right],
        6 => vec![Direction::Left, Direction::Down],
        7 => vec![Direction::Down],
        8 => vec![Direction::Right, Direction::Down],
        _ => vec![],
    }
}

fn letter(d: Direction) -> char {
    match d {
        Direction::Up => 'U',
        Direction::Down => 'D',
        Direction::Left => 'L',
        Direction::Right => 'R',
        Direction::Face => '=',
        Direction::Empty => '.',
    }
}

fn with_one(pos: usize, d: Direction) -> String {
    (0..9).map(|i| if i == pos { letter(d) } else { '.' }).collect()
}

#[test]
fn parses_descriptor_with_whitespace() {
    let d = parse_desc(" xUx\n===\txDx ").unwrap();
    assert_eq!(d, vec![Empty, Up, Empty, Face, Face, Face, Empty, Down, Empty]);
}

#[test]
fn accepts_every_letter() {
    assert_eq!(
        parse_desc("LUREFX=xD").unwrap(),
        vec![Left, Up, Right, Empty, Face, Empty, Face, Empty, Down]
    );
}

#[test]
fn rejects_unknown_letter() {
    assert_eq!(
        parse_desc("....Q....").unwrap_err(),
        ParseError::UnknownOrientationChar('Q')
    );
    assert_eq!(
        parse_desc("....u....").unwrap_err(),
        ParseError::UnknownOrientationChar('u')
    );
}

#[test]
fn rejects_short_and_long_descriptors() {
    assert_eq!(parse_desc("").unwrap_err(), ParseError::MalformedDescriptor);
    assert_eq!(parse_desc("........").unwrap_err(), ParseError::MalformedDescriptor);
    assert_eq!(parse_desc(".........=").unwrap_err(), ParseError::MalformedDescriptor);
    assert_eq!(
        parse_desc(".........?").unwrap_err(),
        ParseError::UnknownOrientationChar('?')
    );
}

#[test]
fn center_takes_no_edge_sticker() {
    for d in [Direction::Up, Direction::Down, Direction::Left, Direction::Right] {
        assert_eq!(
            parse_desc(&with_one(4, d)).unwrap_err(),
            ParseError::IllegalOrientationForPosition(4, d)
        );
    }
    assert!(parse_desc("....=....").is_ok());
    assert!(parse_desc("....x....").is_ok());
}

#[test]
fn rejects_every_illegal_edge() {
    for pos in 0..9 {
        for d in [Direction::Up, Direction::Down, Direction::Left, Direction::Right] {
            let r = parse_desc(&with_one(pos, d));
            if legal_edges(pos).contains(&d) {
                let v = r.unwrap();
                assert_eq!(v[pos], d);
            } else {
                assert_eq!(r.unwrap_err(), ParseError::IllegalOrientationForPosition(pos, d));
            }
        }
    }
}

#[test]
fn first_error_wins() {
    assert_eq!(
        parse_desc("D..Q.....").unwrap_err(),
        ParseError::IllegalOrientationForPosition(0, Direction::Down)
    );
}

#[test]
fn direction_from_str() {
    assert_eq!("Up".parse::<Direction>().unwrap(), Direction::Up);
    assert_eq!("x".parse::<Direction>().unwrap(), Direction::Empty);
    assert_eq!("".parse::<Direction>().unwrap_err(), ParseError::MalformedDescriptor);
    assert_eq!(
        "q".parse::<Direction>().unwrap_err(),
        ParseError::UnknownOrientationChar('q')
    );
}

#[test]
fn descriptor_text_round_trip() {
    for s in ["xUx===xDx", "LUR.=.LDR", "U.RE=XLxD", " . . . \n = = = \n . . . "] {
        let d = parse_desc(s).unwrap();
        let t = desc_to_text(&d);
        assert_eq!(t.chars().count(), 9);
        assert_eq!(parse_desc(&t).unwrap(), d);
    }
    assert_eq!(desc_to_text(&parse_desc("xUx FFF xDx").unwrap()), ".U.===.D.");
}

#[test]
fn every_legal_sticker_renders_once_in_its_band() {
    let specs = Specs::with_cubie_size(25);
    // Row and column starts are 11, 38 and 65; the far bands start at 96.
    let starts = [11, 38, 65];
    for pos in 0..9 {
        for d in legal_edges(pos) {
            let desc = parse_desc(&with_one(pos, d)).unwrap();
            let svg = render(&desc, &specs);
            assert_eq!(svg.matches("stroke=\"black\"").count(), 1);
            let (row, col) = (pos / 3, pos % 3);
            let path = match d {
                Direction::Up => format!("M {} 0 h 25 v 5 h -25 v -5", starts[col]),
                Direction::Down => format!("M {} 96 h 25 v 5 h -25 v -5", starts[col]),
                Direction::Left => format!("M 0 {} h 5 v 25 h -5 v -25", starts[row]),
                _ => format!("M 96 {} h 5 v 25 h -5 v -25", starts[row]),
            };
            let sticker = format!(
                "<path\n   fill=\"yellow\"\n   stroke=\"black\"\n   stroke-width=\"2\"\n   d=\"{}\">\n</path>\n",
                path
            );
            assert!(svg.contains(&sticker), "{}", svg);
        }
    }
}

#[test]
fn face_and_empty_draw_no_sticker() {
    let specs = Specs::with_cubie_size(25);
    let svg = render(&parse_desc("=.=.=.=.=").unwrap(), &specs);
    assert_eq!(svg.matches("stroke=").count(), 0);
    assert_eq!(svg.matches("fill=\"yellow\"").count(), 5);
    assert_eq!(svg.matches("fill=\"gray\"").count(), 4);
}

#[test]
fn renders_whole_diagram() {
    let specs = Specs::with_cubie_size(25);
    let desc = parse_desc("xUx===xDx").unwrap();
    let svg = render(&desc, &specs);
    assert!(svg.starts_with(
        "<svg\n   xmlns=\"http://www.w3.org/2000/svg\"\n   height=\"101\"\n   width=\"101\">\n"
    ));
    assert!(svg.ends_with("</svg>\n"));
    let big = "<path\n   fill=\"black\"\n   border-width=\"0\"\n   d=\"M 7 7 h 87 v 87 h -87 v -87\">\n</path>\n";
    assert!(svg.contains(big));
    let cell = "<path\n   fill=\"white\"\n   border-width=\"0\"\n   d=\"M 38 11 h 25 v 25 h -25 v -25\">\n</path>\n";
    assert!(svg.contains(cell));
    assert_eq!(svg.matches("fill=\"white\"").count(), 2);
    assert_eq!(svg.matches("fill=\"gray\"").count(), 4);
    assert_eq!(svg.matches("fill=\"yellow\"").count(), 3 + 2);
    assert_eq!(svg.matches("<path").count(), 1 + 9 + 2);
}

#[test]
fn renders_deterministically() {
    let specs = Specs::with_cubie_size(40);
    let desc = parse_desc("LUR.=.LDR").unwrap();
    assert_eq!(render(&desc, &specs), render(&desc, &specs));
}
