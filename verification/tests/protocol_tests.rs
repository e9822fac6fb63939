use pte::Line;
use pte::Lines;

#[test]
fn scalar_consume_spills_across_lines() {
    let mut lines = Lines::new("1 2\n345 67 8");
    assert_eq!(lines.consume::<isize>().unwrap(), 1);
    assert_eq!(lines.consume::<isize>().unwrap(), 2);
    assert_eq!(lines.consume::<isize>().unwrap(), 345);
    assert_eq!(lines.consume::<isize>().unwrap(), 67);
    assert_eq!(lines.consume::<isize>().unwrap(), 8);
    assert_eq!(lines.consume::<isize>(), None);
    assert_eq!(lines.consume::<isize>(), None);
}

#[test]
fn sequence_consume_skips_blank_line() {
    let mut lines = Lines::new("\n1 2 3");
    assert_eq!(lines.consume_to_vec::<isize>().unwrap(), vec![1, 2, 3]);
    assert_eq!(lines.consume_to_vec::<isize>(), None);
}

#[test]
fn sequence_consume_after_scalars_takes_front_line() {
    let mut lines = Lines::new("1 2\n345 67 8\n9 10\n11 12");
    assert_eq!(lines.consume::<isize>().unwrap(), 1);
    assert_eq!(lines.consume::<isize>().unwrap(), 2);
    assert_eq!(lines.consume_to_vec::<isize>().unwrap(), vec![345, 67, 8]);
    assert_eq!(
        lines.consume_to_two_d_vec::<isize>().unwrap(),
        vec![vec![9, 10], vec![11, 12]]
    );
    assert!(lines.is_empty());
}

#[test]
fn two_d_consume_empties_buffer_then_absence() {
    let mut lines = Lines::new("9 10\n11 12");
    assert_eq!(
        lines.consume_to_two_d_vec::<isize>().unwrap(),
        vec![vec![9, 10], vec![11, 12]]
    );
    assert!(lines.is_empty());
    assert_eq!(lines.consume_to_two_d_vec::<isize>(), None);
}

#[test]
fn two_d_consume_drops_blank_lines() {
    let mut lines = Lines::new("1 2\n\n3 4");
    assert_eq!(
        lines.consume_to_two_d_vec::<isize>().unwrap(),
        vec![vec![1, 2], vec![3, 4]]
    );
}

#[test]
fn two_d_consume_all_blank_yields_zero_rows() {
    let mut lines = Lines::new("\n");
    let rows = lines.consume_to_two_d_vec::<isize>().unwrap();
    assert_eq!(rows, Vec::<Vec<isize>>::new());
    assert!(lines.is_empty());
}

#[test]
fn round_trip_mixed_types() {
    let mut lines = Lines::new("1\n2 3\ntest");
    assert_eq!(lines.consume::<isize>().unwrap(), 1);
    assert_eq!(lines.consume::<isize>().unwrap(), 2);
    assert_eq!(lines.consume::<isize>().unwrap(), 3);
    assert_eq!(lines.consume::<String>().unwrap(), "test");
    assert_eq!(lines.consume::<isize>(), None);
    assert_eq!(lines.consume::<String>(), None);
}

#[test]
fn unparsable_token_skips_rest_of_line() {
    let mut lines = Lines::new("x 5\n7");
    assert_eq!(lines.consume::<isize>().unwrap(), 7);
    assert_eq!(lines.consume::<isize>(), None);
}

#[test]
fn unparsable_tokens_dropped_in_bulk() {
    let mut lines = Lines::new("1 x 3");
    assert_eq!(lines.consume_to_vec::<isize>().unwrap(), vec![1, 3]);
}

#[test]
fn consecutive_spaces_yield_empty_tokens() {
    let mut line = Line::new("a  b");
    assert_eq!(line.next_data().unwrap(), "a");
    assert_eq!(line.next_data().unwrap(), "");
    assert_eq!(line.next_data().unwrap(), "b");
    assert_eq!(line.next_data(), None);
}

#[test]
fn empty_tokens_filtered_in_bulk_but_not_scalar() {
    let mut lines = Lines::new("a  b");
    assert_eq!(lines.consume_to_vec::<String>().unwrap(), vec!["a", "", "b"]);
    let mut lines = Lines::new("1  2");
    assert_eq!(lines.consume_to_vec::<isize>().unwrap(), vec![1, 2]);
    let mut lines = Lines::new("a  b");
    assert_eq!(lines.consume::<String>().unwrap(), "a");
    assert_eq!(lines.consume::<String>().unwrap(), "");
    assert_eq!(lines.consume::<String>().unwrap(), "b");
}

#[test]
fn next_data_does_not_pop_exhausted_line() {
    let mut lines = Lines::new("a\nb");
    assert_eq!(lines.next_data().unwrap(), "a");
    assert_eq!(lines.next_data(), None);
    assert_eq!(lines.next_data(), None);
    assert!(!lines.is_empty());
    let front = lines.next_line();
    assert!(front.is_some());
    assert_eq!(lines.next_data().unwrap(), "b");
}

#[test]
fn extend_appends_after_existing_lines() {
    let mut lines = Lines::new("1");
    lines.extend("2\n3");
    assert_eq!(lines.consume::<isize>().unwrap(), 1);
    assert_eq!(lines.consume::<isize>().unwrap(), 2);
    assert_eq!(lines.consume::<isize>().unwrap(), 3);
    assert_eq!(lines.consume::<isize>(), None);
}

#[test]
fn line_to_vec_parses_whole_line() {
    let line = Line::new("4 5 6");
    assert_eq!(line.to_vec::<isize>(), vec![4, 5, 6]);
    let line = Line::new("");
    assert_eq!(line.to_vec::<isize>(), Vec::<isize>::new());
}

#[test]
fn line_to_vec_drains_only_the_remainder() {
    let mut line = Line::new("1 2 3");
    assert_eq!(line.next_data().unwrap(), "1");
    assert_eq!(line.to_vec::<isize>(), vec![2, 3]);
}

#[test]
fn numeric_bounds_parse_exactly() {
    let mut lines = Lines::new("9223372036854775807");
    assert_eq!(lines.consume::<isize>().unwrap(), isize::MAX);
    let mut lines = Lines::new("-9223372036854775808");
    assert_eq!(lines.consume::<isize>().unwrap(), isize::MIN);
    let mut lines = Lines::new("9223372036854775808");
    assert_eq!(lines.consume::<isize>(), None);
    let mut lines = Lines::new("92233720368547758089999");
    assert_eq!(lines.consume::<isize>(), None);
}

#[test]
fn char_tokens_parse_one_character_only() {
    let mut lines = Lines::new("a b");
    assert_eq!(lines.consume::<char>().unwrap(), 'a');
    assert_eq!(lines.consume::<char>().unwrap(), 'b');
    assert_eq!(lines.consume::<char>(), None);
    let mut lines = Lines::new("ab\nc");
    assert_eq!(lines.consume::<char>().unwrap(), 'c');
    let mut lines = Lines::new("x y\nz w");
    assert_eq!(
        lines.consume_to_two_d_vec::<char>().unwrap(),
        vec![vec!['x', 'y'], vec!['z', 'w']]
    );
}

#[test]
fn narrow_integer_widths_respect_their_bounds() {
    let mut lines = Lines::new("2147483647");
    assert_eq!(lines.consume::<i32>().unwrap(), i32::MAX);
    let mut lines = Lines::new("2147483648");
    assert_eq!(lines.consume::<i32>(), None);
    let mut lines = Lines::new("-128");
    assert_eq!(lines.consume::<i8>().unwrap(), i8::MIN);
    let mut lines = Lines::new("-129");
    assert_eq!(lines.consume::<i8>(), None);
    let mut lines = Lines::new("255");
    assert_eq!(lines.consume::<u8>().unwrap(), u8::MAX);
    let mut lines = Lines::new("256");
    assert_eq!(lines.consume::<u8>(), None);
    let mut lines = Lines::new("-1");
    assert_eq!(lines.consume::<u8>(), None);
    let mut lines = Lines::new("65535 4294967295");
    assert_eq!(lines.consume::<u16>().unwrap(), u16::MAX);
    assert_eq!(lines.consume::<u32>().unwrap(), u32::MAX);
    let mut lines = Lines::new("-32768 9223372036854775807 18446744073709551615");
    assert_eq!(lines.consume::<i16>().unwrap(), i16::MIN);
    assert_eq!(lines.consume::<i64>().unwrap(), i64::MAX);
    assert_eq!(lines.consume::<u64>().unwrap(), u64::MAX);
}

#[test]
fn sign_handling_matches_parse() {
    let mut lines = Lines::new("+5");
    assert_eq!(lines.consume::<isize>().unwrap(), 5);
    let mut lines = Lines::new("+5");
    assert_eq!(lines.consume::<usize>().unwrap(), 5);
    let mut lines = Lines::new("-5");
    assert_eq!(lines.consume::<usize>(), None);
    let mut lines = Lines::new("--5");
    assert_eq!(lines.consume::<isize>(), None);
    let mut lines = Lines::new("+");
    assert_eq!(lines.consume::<isize>(), None);
}
