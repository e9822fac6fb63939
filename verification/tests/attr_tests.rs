use pte::PteAttrParser;

#[test]
fn parse_attr_row_from_input() {
    let attr = "row = in0, column = in1";
    let sut = PteAttrParser::new(attr);
    assert!(sut.exist_row_num_at_input());
    let got = sut.get_input_ref().unwrap();
    assert_eq!(got, 0);
}

#[test]
fn parse_attr_row_default() {
    let attr = "";
    let sut = PteAttrParser::new(attr);

    assert!(!sut.exist_row_num_at_input());
    let got = sut.get_row_num().unwrap();
    assert_eq!(got, 1);
}

#[test]
fn parse_attr_row_from_var_name() {
    let attr = "row = n";
    let sut = PteAttrParser::new(attr);
    assert!(sut.exist_row_num_at_var_name());
    let got = sut.get_var_name().unwrap();
    assert_eq!(got, "n");
}

#[test]
fn row_attr_value_is_trimmed() {
    let sut = PteAttrParser::new("row =  n  ");
    assert_eq!(sut.get_row_attr_value(), "n");
}

#[test]
fn row_attr_value_takes_last_equals_segment() {
    let sut = PteAttrParser::new("row = a = 5");
    assert_eq!(sut.get_row_attr_value(), "5");
    assert_eq!(sut.get_row_num().unwrap(), 5);
}

#[test]
fn row_num_literal() {
    let sut = PteAttrParser::new("row = 3");
    assert!(sut.exist_row_num());
    assert!(!sut.exist_row_num_at_input());
    assert!(!sut.exist_row_num_at_var_name());
    assert_eq!(sut.get_row_num().unwrap(), 3);
}

#[test]
fn row_num_negative_literal() {
    let sut = PteAttrParser::new("row = -2");
    assert_eq!(sut.get_row_num().unwrap(), -2);
}

#[test]
fn row_key_in_second_part() {
    let sut = PteAttrParser::new("column = in1, row = 4");
    assert_eq!(sut.get_row_num().unwrap(), 4);
}

#[test]
fn row_num_unparsable_is_error() {
    let sut = PteAttrParser::new("row = many");
    assert!(sut.get_row_num().is_err());
    assert!(!sut.exist_row_num());
    assert!(sut.exist_row_num_at_var_name());
}

#[test]
fn var_name_absent_is_error() {
    let sut = PteAttrParser::new("row = 3");
    assert!(sut.get_var_name().is_err());
}

#[test]
fn input_ref_absent_is_error() {
    let sut = PteAttrParser::new("");
    assert!(sut.get_input_ref().is_err());
}

#[test]
fn input_ref_second_position() {
    let sut = PteAttrParser::new("row = in1");
    assert!(sut.exist_row_num_at_input());
    assert_eq!(sut.get_input_ref().unwrap(), 1);
}

#[test]
fn input_ref_non_digit_is_error() {
    let sut = PteAttrParser::new("row = inx");
    assert!(sut.exist_row_num_at_input());
    assert!(sut.get_input_ref().is_err());
}

#[test]
fn row_attr_value_trims_unicode_whitespace() {
    let sut = PteAttrParser::new("row =\u{a0}7\u{2003}");
    assert_eq!(sut.get_row_attr_value(), "7");
    assert_eq!(sut.get_row_num().unwrap(), 7);
}

#[test]
fn default_row_num_is_one() {
    let sut = PteAttrParser::new("column = in1");
    assert_eq!(sut.get_row_num().unwrap(), 1);
    assert!(sut.exist_row_num());
}
