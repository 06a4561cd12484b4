use cubetools::error::ParseError;
use cubetools::images::{process_input, process_line, CubeSpec, ImageDesc};
use cubetools::ollrender;
use cubetools::ollspec::{parse_desc, Direction};
use cubetools::pllrender;
use cubetools::pllspec::parse_program;
use cubetools::Specs;

#[test]
fn reads_oll_line() {
    let d = process_line("[//]: # (sune  xUx===xDx)").unwrap().unwrap();
    assert_eq!(d.file_stem, "sune");
    assert_eq!(d.spec, CubeSpec::OLL(parse_desc("xUx===xDx").unwrap()));
}

#[test]
fn reads_pll_line() {
    let d = process_line("[//]: #(Ua  1<2 2<3 3<1)").unwrap().unwrap();
    assert_eq!(d.file_stem, "Ua");
    assert_eq!(d.spec, CubeSpec::PLL(parse_program("1<2 2<3 3<1").unwrap()));
}

#[test]
fn skips_other_lines() {
    assert!(process_line("just text").unwrap().is_none());
    assert!(process_line("# (one space xUx===xDx)").unwrap().is_none());
    assert!(process_line("").unwrap().is_none());
}

#[test]
fn reports_bad_descriptions() {
    assert_eq!(
        process_line("# (bad  .U.=U=...)").unwrap_err(),
        ParseError::IllegalOrientationForPosition(4, Direction::Up)
    );
    assert_eq!(
        process_line("# (plain  nothing here)").unwrap_err(),
        ParseError::NotAnImageSpec
    );
    assert_eq!(CubeSpec::new("abc").unwrap_err(), ParseError::NotAnImageSpec);
}

#[test]
fn chooses_notation_by_characters() {
    assert!(matches!(CubeSpec::new("..=......").unwrap(), CubeSpec::OLL(_)));
    assert!(matches!(CubeSpec::new("1>2").unwrap(), CubeSpec::PLL(_)));
    assert_eq!(CubeSpec::new("1=2").unwrap_err(), ParseError::UnknownOrientationChar('1'));
}

#[test]
fn renders_at_cubie_size_25() {
    let specs = Specs::with_cubie_size(25);
    let d = ImageDesc::new("t", "xUx===xDx").unwrap();
    assert_eq!(d.render(), ollrender::render(&parse_desc("xUx===xDx").unwrap(), &specs));
    let p = ImageDesc::new("p", "1<>9").unwrap();
    assert_eq!(p.render(), pllrender::render(&parse_program("1<>9").unwrap(), &specs));
}

#[test]
fn scans_document() {
    let lines: Vec<String> = [
        "Intro",
        "[//]: # (a  xUx===xDx)",
        "more",
        "[//]: # (b  1>2)",
    ]
    .iter()
    .map(|s| s.to_string())
    .collect();
    let descs = process_input(&lines).unwrap();
    assert_eq!(descs.len(), 2);
    assert_eq!(descs[0].file_stem, "a");
    assert_eq!(descs[1].file_stem, "b");
    let bad: Vec<String> = vec!["# (x  1>)".to_string(), "# (y  bad)".to_string()];
    assert_eq!(process_input(&bad).unwrap_err(), ParseError::ExpectedDigit);
}
