//! The OLL notation: one character for each of the nine positions of a face.
//!
//! The face is numbered row by row:
//!
//! ```text
//!    0 1 2
//!    3 4 5
//!    6 7 8
//! ```
use crate::error::{prepend, ParseError};
use crate::text::{is_ws, is_whitespace};
use vstd::prelude::*;

verus! {

/// Where a cell's yellow facelet is: on one of its edges, on the face itself, or nowhere.
#[derive(Clone, Copy, Debug, PartialEq, Eq, Structural)]
pub enum Direction {
    Up,
    Down,
    Left,
    Right,
    Face,
    Empty,
}

/// An edge sticker rather than a whole cell or none.
pub open spec fn is_edge(d: Direction) -> bool {
    d is Up || d is Down || d is Left || d is Right
}

/// The edges of position `pos` that lie on the outer edge of the face.
pub open spec fn legal_edges(pos: int) -> Set<Direction> {
    if pos == 0 {
        set![Direction::Left, Direction::Up]
    } else if pos == 1 {
        set![Direction::Up]
    } else if pos == 2 {
        set![Direction::Right, Direction::Up]
    } else if pos == 3 {
        set![Direction::Left]
    } else if pos == 5 {
        set![Direction::Right]
    } else if pos == 6 {
        set![Direction::Left, Direction::Down]
    } else if pos == 7 {
        set![Direction::Down]
    } else if pos == 8 {
        set![Direction::Right, Direction::Down]
    } else {
        Set::empty()
    }
}

/// `Face` and `Empty` go anywhere; an edge sticker only on an outer edge.
pub open spec fn legal(pos: int, d: Direction) -> bool {
    !is_edge(d) || legal_edges(pos).contains(d)
}

/// A face: nine orientations, each legal at its position.
pub open spec fn valid_desc(d: Seq<Direction>) -> bool {
    d.len() == 9 && forall|i: int| 0 <= i < 9 ==> legal(i, #[trigger] d[i])
}

/// The orientation that a descriptor character stands for.
pub open spec fn dir_of_char(c: char) -> Option<Direction> {
    if c == 'U' {
        Some(Direction::Up)
    } else if c == 'D' {
        Some(Direction::Down)
    } else if c == 'L' {
        Some(Direction::Left)
    } else if c == 'R' {
        Some(Direction::Right)
    } else if c == '=' || c == 'F' {
        Some(Direction::Face)
    } else if c == '.' || c == 'E' || c == 'X' || c == 'x' {
        Some(Direction::Empty)
    } else {
        None
    }
}

/// The descriptor read from index `i` of `s` on, `pos` positions having been filled.
pub open spec fn desc_from(s: Seq<char>, i: int, pos: int) -> Result<Seq<Direction>, ParseError>
    decreases s.len() - i,
{
    if 0 <= i < s.len() {
        let c = s[i];
        if is_ws(c) {
            desc_from(s, i + 1, pos)
        } else {
            match dir_of_char(c) {
                None => Err(ParseError::UnknownOrientationChar(c)),
                Some(d) => {
                    if pos >= 9 {
                        Err(ParseError::MalformedDescriptor)
                    } else if !legal(pos, d) {
                        Err(ParseError::IllegalOrientationForPosition(pos as usize, d))
                    } else {
                        prepend(seq![d], desc_from(s, i + 1, pos + 1))
                    }
                }
            }
        }
    } else if pos == 9 {
        Ok(Seq::empty())
    } else {
        Err(ParseError::MalformedDescriptor)
    }
}

/// The descriptor that `s` spells, whitespace aside, or why it spells none.
pub open spec fn parse_desc_spec(s: Seq<char>) -> Result<Seq<Direction>, ParseError> {
    desc_from(s, 0, 0)
}

/// Tests `legal(pos, d)`.
pub fn is_legal(pos: usize, d: Direction) -> (r: bool)
    ensures
        r == legal(pos as int, d),
{
    match d {
        Direction::Face | Direction::Empty => true,
        Direction::Up => pos <= 2,
        Direction::Down => 6 <= pos && pos <= 8,
        Direction::Left => pos == 0 || pos == 3 || pos == 6,
        Direction::Right => pos == 2 || pos == 5 || pos == 8,
    }
}

impl std::str::FromStr for Direction {
    type Err = ParseError;

    /// The orientation that the first character of `s` stands for.
    fn from_str(s: &str) -> Result<Direction, ParseError> {
        Direction::from_text(s)
    }
}

impl Direction {
    /// The orientation that the first character of `s` stands for: an empty text gives
    /// `MalformedDescriptor`, a character that names none `UnknownOrientationChar`.
    pub fn from_text(s: &str) -> (r: Result<Direction, ParseError>)
        ensures
            s@.len() == 0 ==> r == Err::<Direction, ParseError>(ParseError::MalformedDescriptor),
            s@.len() > 0 ==> r == match dir_of_char(s@[0]) {
                Some(d) => Ok::<Direction, ParseError>(d),
                None => Err(ParseError::UnknownOrientationChar(s@[0])),
            },
    {
        if s.unicode_len() == 0 {
            return Err(ParseError::MalformedDescriptor);
        }
        let c = s.get_char(0);
        match Direction::from_char(c) {
            Some(d) => Ok(d),
            None => Err(ParseError::UnknownOrientationChar(c)),
        }
    }

    /// The orientation that a descriptor character stands for, if any.
    pub fn from_char(c: char) -> (r: Option<Direction>)
        ensures
            r == dir_of_char(c),
    {
        match c {
            'U' => Some(Direction::Up),
            'D' => Some(Direction::Down),
            'L' => Some(Direction::Left),
            'R' => Some(Direction::Right),
            '=' | 'F' => Some(Direction::Face),
            '.' | 'E' | 'X' | 'x' => Some(Direction::Empty),
            _ => None,
        }
    }
}

/// Reads the nine orientations of a face, whitespace ignored.
pub fn parse_desc(input: &str) -> (r: Result<Vec<Direction>, ParseError>)
    ensures
        match r {
            Ok(v) => parse_desc_spec(input@) == Ok::<Seq<Direction>, ParseError>(v@),
            Err(e) => parse_desc_spec(input@) == Err::<Seq<Direction>, ParseError>(e),
        },
        r is Ok ==> valid_desc(r->Ok_0@),
{
    let n = input.unicode_len();
    let mut dirs: Vec<Direction> = Vec::new();
    let mut pos: usize = 0;
    let mut i: usize = 0;
    while i < n
        invariant
            n == input@.len(),
            i <= n,
            pos == dirs@.len(),
            pos <= 9,
            forall|k: int| 0 <= k < pos ==> legal(k, #[trigger] dirs@[k]),
            parse_desc_spec(input@) == prepend(dirs@, desc_from(input@, i as int, pos as int)),
        decreases n - i,
    {
        let c = input.get_char(i);
        if !is_whitespace(c) {
            match Direction::from_char(c) {
                None => {
                    return Err(ParseError::UnknownOrientationChar(c));
                },
                Some(d) => {
                    if pos >= 9 {
                        return Err(ParseError::MalformedDescriptor);
                    }
                    if !is_legal(pos, d) {
                        return Err(ParseError::IllegalOrientationForPosition(pos, d));
                    }
                    proof {
                        let rest = desc_from(input@, i + 1, pos + 1);
                        match rest {
                            Ok(t) => assert(dirs@ + (seq![d] + t) =~= dirs@.push(d) + t),
                            Err(_) => {},
                        }
                    }
                    dirs.push(d);
                    pos = pos + 1;
                },
            }
        }
        i = i + 1;
    }
    if pos < 9 {
        return Err(ParseError::MalformedDescriptor);
    }
    assert(dirs@ + Seq::<Direction>::empty() =~= dirs@);
    Ok(dirs)
}

/// The character that writes `d` in canonical descriptor text.
pub open spec fn desc_char(d: Direction) -> char {
    match d {
        Direction::Up => 'U',
        Direction::Down => 'D',
        Direction::Left => 'L',
        Direction::Right => 'R',
        Direction::Face => '=',
        Direction::Empty => '.',
    }
}

/// Canonical descriptor text: one character for each position, nothing else.
pub open spec fn desc_text(d: Seq<Direction>) -> Seq<char> {
    Seq::new(d.len(), |i: int| desc_char(d[i]))
}

fn dir_str(d: Direction) -> (r: &'static str)
    ensures
        r@ == seq![desc_char(d)],
{
    match d {
        Direction::Up => {
            proof { reveal_strlit("U"); }
            "U"
        },
        Direction::Down => {
            proof { reveal_strlit("D"); }
            "D"
        },
        Direction::Left => {
            proof { reveal_strlit("L"); }
            "L"
        },
        Direction::Right => {
            proof { reveal_strlit("R"); }
            "R"
        },
        Direction::Face => {
            proof { reveal_strlit("="); }
            "="
        },
        Direction::Empty => {
            proof { reveal_strlit("."); }
            "."
        },
    }
}

/// Writes a descriptor in canonical text, which `parse_desc` reads back.
pub fn desc_to_text(desc: &[Direction]) -> (r: String)
    ensures
        r@ == desc_text(desc@),
{
    let mut s = String::new();
    let mut i: usize = 0;
    while i < desc.len()
        invariant
            i <= desc@.len(),
            s@ == desc_text(desc@.subrange(0, i as int)),
        decreases desc@.len() - i,
    {
        s.append(dir_str(desc[i]));
        assert(s@ =~= desc_text(desc@.subrange(0, i + 1)));
        i = i + 1;
    }
    assert(desc@.subrange(0, i as int) =~= desc@);
    s
}

proof fn lemma_desc_char_reads_back(d: Direction)
    ensures
        !is_ws(desc_char(d)),
        dir_of_char(desc_char(d)) == Some(d),
{
}

proof fn lemma_desc_text_from(d: Seq<Direction>, k: int)
    requires
        valid_desc(d),
        0 <= k <= 9,
    ensures
        desc_from(desc_text(d), k, k) == Ok::<Seq<Direction>, ParseError>(d.subrange(k, 9)),
    decreases 9 - k,
{
    let t = desc_text(d);
    if k < 9 {
        lemma_desc_char_reads_back(d[k]);
        lemma_desc_text_from(d, k + 1);
        assert(seq![d[k]] + d.subrange(k + 1, 9) =~= d.subrange(k, 9));
    } else {
        assert(d.subrange(9, 9) =~= Seq::<Direction>::empty());
    }
}

/// What a successful read gives is a valid face.
pub proof fn lemma_desc_from_valid(s: Seq<char>, i: int, pos: int)
    requires
        0 <= pos <= 9,
        desc_from(s, i, pos) is Ok,
    ensures
        desc_from(s, i, pos)->Ok_0.len() == 9 - pos,
        forall|k: int|
            0 <= k < 9 - pos ==> legal(pos + k, #[trigger] desc_from(s, i, pos)->Ok_0[k]),
    decreases s.len() - i,
{
    if 0 <= i < s.len() {
        if is_ws(s[i]) {
            lemma_desc_from_valid(s, i + 1, pos);
        } else if let Some(d) = dir_of_char(s[i]) {
            lemma_desc_from_valid(s, i + 1, pos + 1);
            let r = desc_from(s, i, pos)->Ok_0;
            let rest = desc_from(s, i + 1, pos + 1)->Ok_0;
            assert forall|k: int| 0 <= k < 9 - pos implies legal(pos + k, #[trigger] r[k]) by {
                if k > 0 {
                    assert(r[k] == rest[k - 1]);
                }
            }
        }
    }
}

/// Canonical text of a valid face reads back as that face.
pub proof fn lemma_desc_text_round_trip(d: Seq<Direction>)
    requires
        valid_desc(d),
    ensures
        parse_desc_spec(desc_text(d)) == Ok::<Seq<Direction>, ParseError>(d),
{
    lemma_desc_text_from(d, 0);
    assert(d.subrange(0, 9) =~= d);
}

/// Reading a descriptor, writing it in canonical text and reading that again gives the
/// same face.
pub proof fn desc_parse_print_parse(s: Seq<char>)
    requires
        parse_desc_spec(s) is Ok,
    ensures
        parse_desc_spec(desc_text(parse_desc_spec(s)->Ok_0)) == parse_desc_spec(s),
{
    lemma_desc_from_valid(s, 0, 0);
    let d = parse_desc_spec(s)->Ok_0;
    assert forall|i: int| 0 <= i < 9 implies legal(i, #[trigger] d[i]) by {
        assert(legal(0 + i, d[i]));
    }
    lemma_desc_text_round_trip(d);
}

/// A face that is read holds an edge sticker only where that edge is an outer edge: the
/// center holds none.
pub proof fn accepted_faces_are_legal(s: Seq<char>)
    requires
        parse_desc_spec(s) is Ok,
    ensures
        valid_desc(parse_desc_spec(s)->Ok_0),
        parse_desc_spec(s)->Ok_0[4] is Face || parse_desc_spec(s)->Ok_0[4] is Empty,
{
    lemma_desc_from_valid(s, 0, 0);
    let d = parse_desc_spec(s)->Ok_0;
    assert forall|i: int| 0 <= i < 9 implies legal(i, #[trigger] d[i]) by {
        assert(legal(0 + i, d[i]));
    }
    assert(legal(4, d[4]));
}

proof fn lemma_illegal_from(d: Seq<Direction>, i: int, k: int)
    requires
        d.len() == 9,
        0 <= k <= i < 9,
        forall|j: int| 0 <= j < i ==> legal(j, #[trigger] d[j]),
        !legal(i, d[i]),
    ensures
        desc_from(desc_text(d), k, k) == Err::<Seq<Direction>, ParseError>(
            ParseError::IllegalOrientationForPosition(i as usize, d[i]),
        ),
    decreases i - k,
{
    lemma_desc_char_reads_back(d[k]);
    if k < i {
        assert(legal(k, d[k]));
        lemma_illegal_from(d, i, k + 1);
    }
}

/// A face whose first misplaced facelet is an edge sticker at position `i`, on an edge
/// that is not an outer edge there, is rejected with that position and that orientation.
pub proof fn illegal_edge_rejected(d: Seq<Direction>, i: int)
    requires
        d.len() == 9,
        0 <= i < 9,
        forall|j: int| 0 <= j < i ==> legal(j, #[trigger] d[j]),
        !legal(i, d[i]),
    ensures
        parse_desc_spec(desc_text(d)) == Err::<Seq<Direction>, ParseError>(
            ParseError::IllegalOrientationForPosition(i as usize, d[i]),
        ),
{
    lemma_illegal_from(d, i, 0);
}

} // verus!
