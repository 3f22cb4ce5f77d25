use lecture9::input::{is_white_space_char, parse_user_input, trim_white_space, InputError};
use lecture9::parallelism::{big_function, busy_total, sum_squares, sum_squares_parallel, BIG_MOD};
use lecture9::popular::{
    calculate_big_number, double, perf_critical_fun, perf_critical_fun_2, rand_bools, rand_digit,
    shuffle,
};
use lecture9::search;

#[test]
fn test_submodule() {
    let bfs = search::bfs::BFS(3);
    assert_eq!(bfs.0, 3);
}

fn test_double_of(n: isize) {
    assert_eq!(double(n), n + n);
}

#[test]
fn test_examples() {
    test_double_of(1);
    test_double_of(2);
    test_double_of(3);
    test_double_of(4);
    test_double_of(5);
    test_double_of(6);
    test_double_of(7);
    test_double_of(8);
}

#[test]
fn double_of_negative() {
    assert_eq!(double(-4), -8);
    assert_eq!(double(0), 0);
}

#[test]
fn padded_number_reads_as_value() {
    assert_eq!(parse_user_input(Some("  42 \n")), Ok(42));
}

#[test]
fn number_followed_by_newline_reads_back() {
    assert_eq!(parse_user_input(Some("1234\n")), Ok(1234));
    assert_eq!(parse_user_input(Some("-17\n")), Ok(-17));
    assert_eq!(parse_user_input(Some("+8\n")), Ok(8));
    assert_eq!(parse_user_input(Some("0\n")), Ok(0));
}

#[test]
fn surrounding_white_space_is_ignored() {
    let plain = parse_user_input(Some("-17"));
    assert_eq!(parse_user_input(Some("\t -17\r\n")), plain);
    assert_eq!(parse_user_input(Some("\u{3000}-17\u{a0}\n")), plain);
    assert_eq!(plain, Ok(-17));
}

#[test]
fn text_that_is_no_number_gives_parse_error() {
    let expected_cause = "abc".parse::<isize>().unwrap_err();
    match parse_user_input(Some("abc\n")) {
        Err(InputError::ParseError { text, cause }) => {
            assert_eq!(text, "abc");
            assert_eq!(cause, expected_cause);
        }
        other => panic!("unexpected result {:?}", other),
    }
}

#[test]
fn padded_garbage_error_carries_trimmed_text() {
    match parse_user_input(Some("  12 34 \n")) {
        Err(InputError::ParseError { text, .. }) => assert_eq!(text, "12 34"),
        other => panic!("unexpected result {:?}", other),
    }
}

#[test]
fn empty_line_and_lone_sign_are_parse_errors() {
    assert!(matches!(parse_user_input(Some("\n")), Err(InputError::ParseError { .. })));
    assert!(matches!(parse_user_input(Some("-\n")), Err(InputError::ParseError { .. })));
    assert!(matches!(parse_user_input(Some("+-3\n")), Err(InputError::ParseError { .. })));
}

#[test]
fn out_of_range_is_parse_error() {
    let too_big = format!("{}0\n", isize::MAX);
    assert!(matches!(parse_user_input(Some(&too_big)), Err(InputError::ParseError { .. })));
    let largest = format!("{}\n", isize::MAX);
    assert_eq!(parse_user_input(Some(&largest)), Ok(isize::MAX));
    let smallest = format!("{}\n", isize::MIN);
    assert_eq!(parse_user_input(Some(&smallest)), Ok(isize::MIN));
}

#[test]
fn one_line_per_call() {
    assert_eq!(parse_user_input(Some("5\n")), Ok(5));
    assert_eq!(parse_user_input(Some("6\n")), Ok(6));
}

#[test]
fn end_of_input_is_io_error() {
    assert!(matches!(parse_user_input(None), Err(InputError::IoError(_))));
}

#[test]
fn trimming_strips_both_ends_only() {
    assert_eq!(trim_white_space(" \t a b \r\n"), "a b");
    assert_eq!(trim_white_space("   "), "");
    assert_eq!(trim_white_space(""), "");
    assert_eq!(trim_white_space("x"), "x");
    assert_eq!(trim_white_space("\u{2028}x\u{205f}"), "x");
}

#[test]
fn white_space_characters() {
    for c in [' ', '\t', '\n', '\r', '\u{b}', '\u{c}', '\u{85}', '\u{a0}', '\u{2000}', '\u{200a}', '\u{3000}'] {
        assert!(is_white_space_char(c));
        assert_eq!(is_white_space_char(c), c.is_whitespace());
    }
    for c in ['a', '0', '-', '\u{200b}', '\u{180e}'] {
        assert!(!is_white_space_char(c));
        assert_eq!(is_white_space_char(c), c.is_whitespace());
    }
}

#[test]
fn sum_of_squares_values() {
    assert_eq!(sum_squares(0), 0);
    assert_eq!(sum_squares(3), 14);
    assert_eq!(sum_squares(1000), 333_833_500);
}

#[test]
fn parallel_sum_matches_sequential() {
    assert_eq!(sum_squares_parallel(0), 0);
    assert_eq!(sum_squares_parallel(3), 14);
    assert_eq!(sum_squares_parallel(1_000_000), sum_squares(1_000_000));
}

#[test]
fn busy_loop_totals() {
    assert_eq!(busy_total(0), 0);
    assert_eq!(busy_total(10), 45);
    assert_eq!(busy_total(2000), 1_999_000 % BIG_MOD);
    assert_eq!(busy_total(2000), 999_017);
}

#[test]
fn busy_loop_full_run() {
    let n: u64 = 1_000_000_000;
    let expected = ((n * (n - 1) / 2) % BIG_MOD as u64) as usize;
    assert_eq!(big_function(), expected);
}

#[test]
fn closed_form_sums() {
    assert_eq!(perf_critical_fun(), 499_999_500_000);
    assert_eq!(perf_critical_fun_2(), 45);
    assert_eq!(calculate_big_number(), 418_161_601);
}

#[test]
fn random_helpers_stay_in_bounds() {
    assert_eq!(rand_bools(5).len(), 5);
    assert!(rand_bools(0).is_empty());
    for _ in 0..100 {
        assert!(rand_digit() < 10);
    }
}

#[test]
fn shuffle_keeps_the_elements() {
    let mut v: Vec<u32> = (0..50).collect();
    shuffle(&mut v);
    assert_eq!(v.len(), 50);
    let mut sorted = v.clone();
    sorted.sort();
    assert_eq!(sorted, (0..50).collect::<Vec<u32>>());
}
