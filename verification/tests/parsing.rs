use qpp_server::model::Statistics;
use qpp_server::parse::{ParseError, ParseErrorKind, parse_density, parse_state, parse_stats};

#[test]
fn state_two_lines() {
    let sv = parse_state("0.5 0.5\n0 1").unwrap();
    assert_eq!(sv.bases.len(), 2);
    assert_eq!(sv.bases[0].re, "0.5");
    assert_eq!(sv.bases[0].im, "0.5");
    assert_eq!(sv.bases[1].re, "0");
    assert_eq!(sv.bases[1].im, "1");
}

#[test]
fn state_trailing_newline_and_extra_spaces() {
    let sv = parse_state("0.5  0.5\n").unwrap();
    assert_eq!(sv.bases.len(), 1);
    assert_eq!(sv.bases[0].re, "0.5");
    assert_eq!(sv.bases[0].im, "0.5");
}

#[test]
fn state_strips_carriage_returns() {
    let sv = parse_state("0 1\r\n2 3\r\n").unwrap();
    assert_eq!(sv.bases.len(), 2);
    assert_eq!(sv.bases[1].re, "2");
    assert_eq!(sv.bases[1].im, "3");
}

#[test]
fn state_empty_text_is_empty_vector() {
    let sv = parse_state("").unwrap();
    assert_eq!(sv.bases.len(), 0);
}

#[test]
fn state_accepts_signs_dots_and_exponents() {
    let sv = parse_state("1e-3 -2.5E+2\n+.5 1.").unwrap();
    assert_eq!(sv.bases.len(), 2);
    assert_eq!(sv.bases[0].re, "1e-3");
    assert_eq!(sv.bases[1].im, "1.");
}

#[test]
fn state_one_token_is_an_error() {
    let e = parse_state("0.5\n").unwrap_err();
    assert_eq!(e, ParseError { line: 1, kind: ParseErrorKind::MalformedAmplitude });
}

#[test]
fn state_reports_first_bad_line() {
    let e = parse_state("0.5 0.5\nx y\nz").unwrap_err();
    assert_eq!(e.line, 2);
    assert_eq!(e.kind, ParseErrorKind::MalformedAmplitude);
}

#[test]
fn state_rejects_bad_float_token() {
    assert!(parse_state("1..2 0").is_err());
    assert!(parse_state(". 0").is_err());
    assert!(parse_state("1e 0").is_err());
}

#[test]
fn state_error_description_names_the_line() {
    let e = parse_state("0.5\n").unwrap_err();
    assert_eq!(e.describe(), "output line 1: expected two numbers");
}

#[test]
fn density_two_by_two() {
    let dm = parse_density("1 0 0 0\n0 0 0 0").unwrap();
    assert_eq!(dm.bases.len(), 2);
    assert_eq!(dm.bases[0].len(), 2);
    assert_eq!(dm.bases[0][0].re, "1");
    assert_eq!(dm.bases[0][0].im, "0");
    assert_eq!(dm.bases[1][1].re, "0");
}

#[test]
fn density_odd_token_count_is_an_error() {
    let e = parse_density("1 0 0").unwrap_err();
    assert_eq!(e, ParseError { line: 1, kind: ParseErrorKind::MalformedRow });
}

#[test]
fn density_empty_line_is_an_error() {
    let e = parse_density("1 0 0 0\n\n0 0 0 0").unwrap_err();
    assert_eq!(e, ParseError { line: 2, kind: ParseErrorKind::MalformedRow });
}

#[test]
fn density_must_be_square() {
    let e = parse_density("1 0\n0 0").unwrap_err();
    assert_eq!(e, ParseError { line: 1, kind: ParseErrorKind::NotSquare });
}

#[test]
fn stats_one_entry_per_line() {
    let st = parse_stats("0 0 700\n1 1 324").unwrap();
    assert_eq!(st.memory.len(), 2);
    assert_eq!(st.memory[0], ("00".to_string(), 700));
    assert_eq!(st.memory[1], ("11".to_string(), 324));
}

#[test]
fn stats_duplicate_key_keeps_last_count() {
    let st = parse_stats("0 1\n0 5").unwrap();
    assert_eq!(st.memory.len(), 1);
    assert_eq!(st.memory[0], ("0".to_string(), 5));
}

#[test]
fn stats_keys_are_canonical_decimal() {
    let st = parse_stats("007 1 5").unwrap();
    assert_eq!(st.memory[0], ("71".to_string(), 5));
}

#[test]
fn stats_single_token_is_an_error() {
    let e = parse_stats("7\n").unwrap_err();
    assert_eq!(e, ParseError { line: 1, kind: ParseErrorKind::MalformedCounts });
}

#[test]
fn stats_non_integer_token_is_an_error() {
    assert!(parse_stats("a 5").is_err());
    assert!(parse_stats("1.5 2").is_err());
    assert!(parse_stats("-1 2").is_err());
}

#[test]
fn stats_count_beyond_the_machine_word_is_an_error() {
    let e = parse_stats("1 99999999999999999999999999").unwrap_err();
    assert_eq!(e, ParseError { line: 1, kind: ParseErrorKind::MalformedCounts });
}

#[test]
fn stats_struct_is_plain_data() {
    let st = Statistics { memory: vec![("0".to_string(), 1)] };
    assert_eq!(st.memory.len(), 1);
}
