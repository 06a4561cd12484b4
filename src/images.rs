//! Image descriptions embedded in a document, one to a line, such as
//! `[//]: # (sune  xUx===xDx)`: a file stem and a face in either notation.
use crate::error::ParseError;
use crate::ollrender;
use crate::ollspec::{parse_desc, parse_desc_spec, valid_desc, Direction};
use crate::pllrender;
use crate::pllspec::{parse_program, parse_program_spec, valid_program, Program, Statement};
use crate::table::texts;
use crate::Specs;
use vstd::prelude::*;

verus! {

/// The pattern of a line that describes an image: `#`, spaces, then in parentheses a
/// stem of letters and digits, two spaces and the face.
pub const IMAGE_DESC_PATTERN: &'static str = "# *\\(([[:alnum:]]+)  (.*)\\)";

/// Edge of the cells of the images that descriptions ask for.
pub const IMAGE_CUBIE_SIZE: u32 = 25;

/// Groups 1 and 2 of the first match of `pattern` in `line`; none where the pattern does
/// not compile, does not match, or leaves one of the two groups out.
pub uninterp spec fn captures_of(pattern: Seq<char>, line: Seq<char>) -> Option<
    (Seq<char>, Seq<char>),
>;

/// Relies on `regex::Regex::new` and `regex::Regex::captures`: the first match of the
/// pattern in the line, and the text of its groups 1 and 2.
#[verifier::external_body]
fn first_captures(pattern: &str, line: &str) -> (r: Option<(String, String)>)
    ensures
        match r {
            Some((a, b)) => captures_of(pattern@, line@) == Some((a@, b@)),
            None => captures_of(pattern@, line@) is None,
        },
{
    let re = regex::Regex::new(pattern).ok()?;
    let caps = re.captures(line)?;
    let stem = caps.get(1)?.as_str().to_string();
    let spec = caps.get(2)?.as_str().to_string();
    Some((stem, spec))
}

/// A face in one of the two notations.
#[derive(Clone, Debug, PartialEq, Eq)]
pub enum CubeSpec {
    OLL(Vec<Direction>),
    PLL(Program),
}

/// What a `CubeSpec` holds.
pub enum CubeSpecView {
    Oll(Seq<Direction>),
    Pll(Seq<Statement>),
}

impl View for CubeSpec {
    type V = CubeSpecView;

    open spec fn view(&self) -> CubeSpecView {
        match self {
            CubeSpec::OLL(d) => CubeSpecView::Oll(d@),
            CubeSpec::PLL(p) => CubeSpecView::Pll(p@),
        }
    }
}

/// A face that can be drawn: nine orientations, or arrows between cells of the face.
pub open spec fn drawable(c: CubeSpecView) -> bool {
    match c {
        CubeSpecView::Oll(d) => valid_desc(d),
        CubeSpecView::Pll(p) => valid_program(p),
    }
}

/// The face that an image description spells: OLL where it holds `=`, else PLL where it
/// holds `<` or `>`.
pub open spec fn cube_spec_of(s: Seq<char>) -> Result<CubeSpecView, ParseError> {
    if s.contains('=') {
        match parse_desc_spec(s) {
            Ok(d) => Ok(CubeSpecView::Oll(d)),
            Err(e) => Err(e),
        }
    } else if s.contains('<') || s.contains('>') {
        match parse_program_spec(s) {
            Ok(p) => Ok(CubeSpecView::Pll(p)),
            Err(e) => Err(e),
        }
    } else {
        Err(ParseError::NotAnImageSpec)
    }
}

/// Tests whether `s` holds `c`.
pub fn has_char(s: &str, c: char) -> (r: bool)
    ensures
        r == s@.contains(c),
{
    let n = s.unicode_len();
    let mut i: usize = 0;
    while i < n
        invariant
            n == s@.len(),
            i <= n,
            forall|k: int| 0 <= k < i ==> s@[k] != c,
        decreases n - i,
    {
        if s.get_char(i) == c {
            return true;
        }
        i = i + 1;
    }
    false
}

/// The sizes that images are drawn with.
pub open spec fn image_specs() -> Specs {
    Specs { cubie_size: 25, border_width: 2, gutter_size: 2, sticker_width: 5 }
}

impl CubeSpec {
    /// Reads a face in the notation that its characters call for.
    pub fn new(spec_str: &str) -> (r: Result<CubeSpec, ParseError>)
        ensures
            match r {
                Ok(c) => cube_spec_of(spec_str@) == Ok::<CubeSpecView, ParseError>(c@),
                Err(e) => cube_spec_of(spec_str@) == Err::<CubeSpecView, ParseError>(e),
            },
            r is Ok ==> drawable(r->Ok_0@),
    {
        if has_char(spec_str, '=') {
            Ok(CubeSpec::OLL(parse_desc(spec_str)?))
        } else if has_char(spec_str, '<') || has_char(spec_str, '>') {
            Ok(CubeSpec::PLL(parse_program(spec_str)?))
        } else {
            Err(ParseError::NotAnImageSpec)
        }
    }

    /// Draws the face with cells of edge 25.
    pub fn render(&self) -> (r: String)
        requires
            drawable(self@),
        ensures
            r@ == match self@ {
                CubeSpecView::Oll(d) => ollrender::oll_svg(d, image_specs()),
                CubeSpecView::Pll(p) => pllrender::pll_svg(p, image_specs()),
            },
    {
        let specs = Specs::with_cubie_size(IMAGE_CUBIE_SIZE);
        assert(specs == image_specs());
        match self {
            CubeSpec::OLL(desc) => ollrender::render(desc.as_slice(), &specs),
            CubeSpec::PLL(program) => pllrender::render(program, &specs),
        }
    }
}

/// A face to draw and the stem of the file to draw it in.
#[derive(Clone, Debug, PartialEq, Eq)]
pub struct ImageDesc {
    pub file_stem: String,
    pub spec: CubeSpec,
}

impl View for ImageDesc {
    type V = (Seq<char>, CubeSpecView);

    open spec fn view(&self) -> (Seq<char>, CubeSpecView) {
        (self.file_stem@, self.spec@)
    }
}

/// The image of a stem and a face description.
pub open spec fn image_of(stem: Seq<char>, spec: Seq<char>) -> Result<
    (Seq<char>, CubeSpecView),
    ParseError,
> {
    match cube_spec_of(spec) {
        Ok(c) => Ok((stem, c)),
        Err(e) => Err(e),
    }
}

/// The image that a line describes, given what the line's pattern captured.
pub open spec fn image_of_captures(caps: Option<(Seq<char>, Seq<char>)>) -> Result<
    Option<(Seq<char>, CubeSpecView)>,
    ParseError,
> {
    match caps {
        None => Ok(None),
        Some((stem, spec)) => match image_of(stem, spec) {
            Ok(d) => Ok(Some(d)),
            Err(e) => Err(e),
        },
    }
}

/// The image that a line of a document describes, if any.
pub open spec fn line_image(line: Seq<char>) -> Result<
    Option<(Seq<char>, CubeSpecView)>,
    ParseError,
> {
    image_of_captures(captures_of(IMAGE_DESC_PATTERN@, line))
}

/// The images that the first `n` lines describe, or the first reason one cannot be read.
pub open spec fn images_upto(lines: Seq<Seq<char>>, n: int) -> Result<
    Seq<(Seq<char>, CubeSpecView)>,
    ParseError,
>
    decreases n,
{
    if n <= 0 {
        Ok(Seq::empty())
    } else {
        match images_upto(lines, n - 1) {
            Err(e) => Err(e),
            Ok(acc) => match line_image(lines[n - 1]) {
                Err(e) => Err(e),
                Ok(None) => Ok(acc),
                Ok(Some(d)) => Ok(acc.push(d)),
            },
        }
    }
}

/// An optional image as its view.
pub open spec fn opt_view(r: Result<Option<ImageDesc>, ParseError>) -> Result<
    Option<(Seq<char>, CubeSpecView)>,
    ParseError,
> {
    match r {
        Ok(Some(d)) => Ok(Some(d@)),
        Ok(None) => Ok(None),
        Err(e) => Err(e),
    }
}

impl ImageDesc {
    /// Reads the face of an image description.
    pub fn new(file_stem: &str, spec_str: &str) -> (r: Result<ImageDesc, ParseError>)
        ensures
            match r {
                Ok(d) => image_of(file_stem@, spec_str@) == Ok::<
                    (Seq<char>, CubeSpecView),
                    ParseError,
                >(d@),
                Err(e) => image_of(file_stem@, spec_str@) == Err::<
                    (Seq<char>, CubeSpecView),
                    ParseError,
                >(e),
            },
            r is Ok ==> drawable(r->Ok_0.spec@),
    {
        let spec = CubeSpec::new(spec_str)?;
        Ok(ImageDesc { file_stem: String::from_str(file_stem), spec })
    }

    /// Draws the face.
    pub fn render(&self) -> (r: String)
        requires
            drawable(self.spec@),
        ensures
            r@ == match self.spec@ {
                CubeSpecView::Oll(d) => ollrender::oll_svg(d, image_specs()),
                CubeSpecView::Pll(p) => pllrender::pll_svg(p, image_specs()),
            },
    {
        self.spec.render()
    }
}

/// The image that a line describes, given the stem and face that the line's pattern
/// captured, if it captured any.
pub fn image_desc_from_captures(caps: Option<(String, String)>) -> (r: Result<
    Option<ImageDesc>,
    ParseError,
>)
    ensures
        opt_view(r) == image_of_captures(
            match caps {
                Some((a, b)) => Some((a@, b@)),
                None => None,
            },
        ),
        r matches Ok(Some(d)) ==> drawable(d.spec@),
{
    match caps {
        None => Ok(None),
        Some((stem, spec)) => Ok(Some(ImageDesc::new(stem.as_str(), spec.as_str())?)),
    }
}

/// The image that a line of a document describes, if it describes one.
pub fn process_line(line: &str) -> (r: Result<Option<ImageDesc>, ParseError>)
    ensures
        opt_view(r) == line_image(line@),
        r matches Ok(Some(d)) ==> drawable(d.spec@),
{
    let caps = first_captures(IMAGE_DESC_PATTERN, line);
    image_desc_from_captures(caps)
}

proof fn lemma_images_err_stays(lines: Seq<Seq<char>>, k: int, m: int)
    requires
        0 <= k <= m,
        images_upto(lines, k) is Err,
    ensures
        images_upto(lines, m) == images_upto(lines, k),
    decreases m - k,
{
    if m > k {
        lemma_images_err_stays(lines, k, m - 1);
    }
}

/// The images that the lines of a document describe, in order; the first description that
/// cannot be read stops the scan.
pub fn process_input(lines: &Vec<String>) -> (r: Result<Vec<ImageDesc>, ParseError>)
    ensures
        match r {
            Ok(v) => images_upto(texts(lines@), lines@.len() as int) == Ok::<
                Seq<(Seq<char>, CubeSpecView)>,
                ParseError,
            >(v@.map_values(|d: ImageDesc| d@)),
            Err(e) => images_upto(texts(lines@), lines@.len() as int) == Err::<
                Seq<(Seq<char>, CubeSpecView)>,
                ParseError,
            >(e),
        },
        r is Ok ==> forall|k: int|
            0 <= k < r->Ok_0@.len() ==> drawable(#[trigger] r->Ok_0@[k].spec@),
{
    let ghost lv = texts(lines@);
    let mut descs: Vec<ImageDesc> = Vec::new();
    assert(descs@.map_values(|d: ImageDesc| d@) =~= Seq::<(Seq<char>, CubeSpecView)>::empty());
    let mut i: usize = 0;
    while i < lines.len()
        invariant
            i <= lines@.len(),
            lv == texts(lines@),
            images_upto(lv, i as int) == Ok::<Seq<(Seq<char>, CubeSpecView)>, ParseError>(
                descs@.map_values(|d: ImageDesc| d@),
            ),
            forall|k: int| 0 <= k < descs@.len() ==> drawable(#[trigger] descs@[k].spec@),
        decreases lines@.len() - i,
    {
        assert(lv[i as int] == lines@[i as int]@);
        let found = process_line(lines[i].as_str());
        match found {
            Err(e) => {
                proof { lemma_images_err_stays(lv, i + 1, lines@.len() as int); }
                return Err(e);
            },
            Ok(None) => {},
            Ok(Some(image_desc)) => {
                let ghost before = descs@;
                descs.push(image_desc);
                assert(descs@.map_values(|d: ImageDesc| d@) =~= before.map_values(
                    |d: ImageDesc| d@,
                ).push(image_desc@));
                assert forall|k: int| 0 <= k < descs@.len() implies drawable(
                    #[trigger] descs@[k].spec@,
                ) by {
                    if k < before.len() {
                        assert(descs@[k] == before[k]);
                    }
                }
            },
        }
        i = i + 1;
    }
    Ok(descs)
}

} // verus!
