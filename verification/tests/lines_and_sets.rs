use std::collections::HashSet;

use rxedit::base::LineStatus;
use rxedit::constants::Direction;
use rxedit::utilities::parse_lines_payload;
use rxedit::utilities::vec_lines::{bounded_extend, trim_outer_blanks};

fn ls(s: &str) -> LineStatus {
    LineStatus {
        line: s.to_string(),
        ..Default::default()
    }
}

fn build_bounded_args(size: usize, exp: &[usize]) -> (Vec<usize>, HashSet<usize>) {
    let mut res0 = Vec::new();
    for i in 0..size {
        res0.push(i);
    }

    let mut res = HashSet::new();
    for ix in exp {
        res.insert(*ix);
    }
    (res0, res)
}

#[test]
fn t_bounded_extend_base_ante() {
    let (lines, exp) = build_bounded_args(6, &[1, 2]);

    let mut got = HashSet::new();

    bounded_extend(&mut got, &[0, 3], -2, &lines);
    assert_eq!(exp, got);
}

#[test]
fn t_bounded_extend_base_post() {
    let (lines, exp) = build_bounded_args(6, &[1, 2, 4, 5]);

    let mut got = HashSet::new();

    bounded_extend(&mut got, &[0, 3], 2, &lines);

    assert_eq!(exp, got);
}

#[test]
fn t_bounded_extend_ante_post() {
    let (lines, exp) = build_bounded_args(6, &[1, 2, 4, 5]);
    let mut got = HashSet::new();
    bounded_extend(&mut got, &[3], -2, &lines);
    bounded_extend(&mut got, &[3], 2, &lines);
    assert_eq!(exp, got);
}

#[test]
fn trim_end_blanks_removes_trailing_blank_lines_from_indices() {
    let lines = vec![ls("keep"), ls(""), ls("   "), ls("\t")];
    let indices: HashSet<usize> = HashSet::from([0, 1, 2, 3]);

    let got = trim_outer_blanks(&lines, indices, Direction::TRAILING);

    let expected: HashSet<usize> = HashSet::from([0]);
    assert_eq!(got, expected);
}

#[test]
fn trim_end_blanks_keeps_indices_when_last_selected_is_non_blank() {
    let lines = vec![ls("a"), ls(""), ls("b")];
    let indices: HashSet<usize> = HashSet::from([0, 1, 2]);

    let got = trim_outer_blanks(&lines, indices.clone(), Direction::TRAILING);

    assert_eq!(got, indices);
}

#[test]
fn trim_end_blanks_stops_on_first_selected_non_blank_from_end() {
    let lines = vec![ls("a"), ls(""), ls("x"), ls("b"), ls("")];
    let indices: HashSet<usize> = HashSet::from([1, 3, 4]);

    let got = trim_outer_blanks(&lines, indices, Direction::TRAILING);

    let expected: HashSet<usize> = HashSet::from([1, 3]);
    assert_eq!(got, expected);
}

fn help_fmt_ln_args(args: &(usize, HashSet<usize>, usize)) -> (i32, String, i32) {
    let (until_, hits, from_) = args;
    let mut nums: Vec<usize> = hits.iter().copied().collect();
    nums.sort_unstable();
    let res = nums.iter().map(|n| n.to_string()).collect::<Vec<String>>().join(",");

    (*until_ as i32, res, *from_ as i32)
}

#[test]
fn test_basic_comma() {
    let got = help_fmt_ln_args(&parse_lines_payload("1,3"));
    assert_eq!((0_i32, "1,3".to_string(), 9_999_999_i32), got);
}

#[test]
fn test_idx_end() {
    let got = help_fmt_ln_args(&parse_lines_payload("8-"));
    assert_eq!((0_i32, "".to_string(), 8_i32), got);
}

#[test]
fn test_start_idx() {
    let got = help_fmt_ln_args(&parse_lines_payload("-3"));
    assert_eq!((3_i32, "".to_string(), 9_999_999_i32), got);
}
