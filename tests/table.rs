use cubetools::table::{copy_maxes, format_table, prettify_lines, split_row};

fn strings(v: &[&str]) -> Vec<String> {
    v.iter().map(|s| s.to_string()).collect()
}

#[test]
fn tes_fo() {
    let s = "| --- | --- | --- |";
    let ss = split_row(s);
    assert_eq!(ss, strings(&["", "---", "---", "---", ""]));
}

#[test]
fn splits_and_trims_cells() {
    assert_eq!(split_row("|a|  b  |"), strings(&["", "a", "b", ""]));
    assert_eq!(split_row("no bars"), strings(&["no bars"]));
    assert_eq!(split_row(""), strings(&[""]));
}

#[test]
fn widens_columns() {
    let maxes = vec![0, 5, 1];
    let segs = strings(&["", " abc ", "wide", "extra"]);
    assert_eq!(copy_maxes(&maxes, &segs), vec![0, 5, 4]);
    assert_eq!(copy_maxes(&vec![7, 7], &strings(&["x"])), vec![7]);
    assert_eq!(copy_maxes(&vec![0], &strings(&["é"])), vec![2]);
}

#[test]
fn lays_out_table() {
    let lines = strings(&["| a | bbb |", "|---|---|", "| cc | d |"]);
    assert_eq!(
        format_table(&lines),
        strings(&["| a   | bbb |", "| --- | --- |", "| cc  | d   |"])
    );
    assert!(format_table(&Vec::new()).is_empty());
}

#[test]
fn shorter_rows_drop_columns() {
    let lines = strings(&["| a | b |", "| c"]);
    assert_eq!(format_table(&lines), strings(&["| a ", "| c "]));
}

#[test]
fn prettifies_only_tables() {
    let lines = strings(&["# Title", "|x|yy|", "|--|-|", "", "text |", "|z|"]);
    assert_eq!(
        prettify_lines(&lines),
        strings(&["# Title", "| x  | yy |", "| -- | -  |", "", "text |", "| z |"])
    );
}
