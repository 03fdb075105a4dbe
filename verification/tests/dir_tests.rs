use chip8::dir::Navigator;

fn pick(line: &str, count: usize) -> Option<usize> {
    Navigator::select_index(&line.as_bytes().to_vec(), count)
}

#[test]
fn a_number_in_range_selects_the_entry() {
    assert_eq!(pick("1", 3), Some(0));
    assert_eq!(pick("2", 3), Some(1));
    assert_eq!(pick("3", 3), Some(2));
}

#[test]
fn surrounding_whitespace_is_ignored() {
    assert_eq!(pick(" 2 \n", 3), Some(1));
    assert_eq!(pick("\t7\r\n", 10), Some(6));
}

#[test]
fn zero_and_out_of_range_select_nothing() {
    assert_eq!(pick("0", 3), None);
    assert_eq!(pick("4", 3), None);
    assert_eq!(pick("10", 9), None);
}

#[test]
fn non_numeric_input_selects_nothing() {
    assert_eq!(pick("", 3), None);
    assert_eq!(pick("   \n", 3), None);
    assert_eq!(pick("abc", 3), None);
    assert_eq!(pick("1a", 3), None);
    assert_eq!(pick("1 2", 3), None);
    assert_eq!(pick("-1", 3), None);
    assert_eq!(pick("+1", 3), None);
}

#[test]
fn numbers_too_large_for_32_bits_select_nothing() {
    assert_eq!(pick("4294967296", usize::MAX), None);
    assert_eq!(pick("99999999999999999999", usize::MAX), None);
}

#[test]
fn leading_zeroes_are_plain_digits() {
    assert_eq!(pick("002", 3), Some(1));
}
