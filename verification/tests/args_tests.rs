use pte::FromStrArgument;
use pte::Line;
use pte::Lines;
use pte::TwoDVecArgument;
use pte::VecArgument;

#[test]
fn isize_isize_two_d_vec() {
    let s = "1 2\n345 67 8\n9 10";
    let mut lines = Lines::new(s);
    let num_arg = FromStrArgument::<isize>::new();
    let two_d_vec_arg = TwoDVecArgument::<isize>::new();

    let num = num_arg.consume(&mut lines);
    assert_eq!(num.unwrap(), 1);
    let num = num_arg.consume(&mut lines);
    assert_eq!(num.unwrap(), 2);
    let vec = two_d_vec_arg.consume(&mut lines);
    assert_eq!(vec.unwrap(), vec![vec![345, 67, 8], vec![9, 10]]);
}

#[test]
fn lib_line_next_data() {
    let s = "1 2 345 67 8";
    let mut focus = Line::new(s);
    let data = focus.next_data();
    assert_eq!(data.unwrap(), "1");
    let data = focus.next_data();
    assert_eq!(data.unwrap(), "2");
    let data = focus.next_data();
    assert_eq!(data.unwrap(), "345");
    let data = focus.next_data();
    assert_eq!(data.unwrap(), "67");
    let data = focus.next_data();
    assert_eq!(data.unwrap(), "8");
    let data = focus.next_data();
    assert_eq!(data, None);
}

#[test]
fn lib_consume_line_number() {
    let s = "1 2 3";
    let mut lines = Lines::new(s);
    let num_arg = FromStrArgument::<isize>::new();
    let num = num_arg.consume(&mut lines);
    assert_eq!(num.unwrap(), 1);
    let num = num_arg.consume(&mut lines);
    assert_eq!(num.unwrap(), 2);
    let num = num_arg.consume(&mut lines);
    assert_eq!(num.unwrap(), 3);
    let num = num_arg.consume(&mut lines);
    assert_eq!(num, None);
}

#[test]
fn lib_consume_line_string() {
    let s = "1 2 3";
    let mut lines = Lines::new(s);
    let str_arg = FromStrArgument::<String>::new();
    let str = str_arg.consume(&mut lines);
    assert_eq!(str.unwrap(), "1");
    let str = str_arg.consume(&mut lines);
    assert_eq!(str.unwrap(), "2");
    let str = str_arg.consume(&mut lines);
    assert_eq!(str.unwrap(), "3");
    let str = str_arg.consume(&mut lines);
    assert_eq!(str, None);
}

#[test]
fn lib_consume_vec_number() {
    let s = "1 2 3";
    let mut lines = Lines::new(s);
    let vec_arg = VecArgument::<isize>::new();
    let vec = vec_arg.consume(&mut lines);
    assert_eq!(vec.unwrap(), vec![1, 2, 3]);
    let vec = vec_arg.consume(&mut lines);
    assert_eq!(vec, None);
}

#[test]
fn scalar_argument_spills_across_lines() {
    let mut lines = Lines::new("1\n2");
    let num_arg = FromStrArgument::<isize>::new();
    assert_eq!(num_arg.consume(&mut lines).unwrap(), 1);
    assert_eq!(num_arg.consume(&mut lines).unwrap(), 2);
    assert_eq!(num_arg.consume(&mut lines), None);
}

#[test]
fn scalar_argument_skips_unparsable_line() {
    let mut lines = Lines::new("x 5\n7");
    let num_arg = FromStrArgument::<isize>::new();
    assert_eq!(num_arg.consume(&mut lines).unwrap(), 7);
    assert_eq!(num_arg.consume(&mut lines), None);
}

#[test]
fn vec_argument_skips_blank_line() {
    let mut lines = Lines::new("\n1 2");
    let vec_arg = VecArgument::<isize>::new();
    assert_eq!(vec_arg.consume(&mut lines).unwrap(), vec![1, 2]);
    assert_eq!(vec_arg.consume(&mut lines), None);
}

#[test]
fn lib_consume_two_d_vec_number() {
    let s = "1 2 3\n4 5 6";
    let mut lines = Lines::new(s);
    let vec_arg = TwoDVecArgument::<isize>::new();
    let vec = vec_arg.consume(&mut lines);
    assert_eq!(vec.unwrap(), vec![vec![1, 2, 3], vec![4, 5, 6]]);
    let vec = vec_arg.consume(&mut lines);
    assert_eq!(vec, None);
}
