use rust_fuzz_test::{check_secret_waterfall, divide_numbers, parse_number, process_buffer};

#[test]
fn test_parse_number() {
    assert_eq!(parse_number(b"123"), 123);
}

#[test]
fn test_process_buffer() {
    // The input does not begin with the `FUZZ` marker, so the marker gate
    // rejects it and no size-based slicing happens.
    let data = vec![3, 1, 2, 3, 4];
    assert_eq!(process_buffer(&data), Vec::<u8>::new());
}

#[test]
fn test_waterfall_partial_match() {
    assert_eq!(check_secret_waterfall(b"F"), 1);
    assert_eq!(check_secret_waterfall(b"FU"), 2);
    assert_eq!(check_secret_waterfall(b"FUZZ"), 4);
}

#[test]
fn divider_short_inputs_are_absent() {
    assert_eq!(divide_numbers(b""), None);
    assert_eq!(divide_numbers(&[5]), None);
}

#[test]
fn divider_quotient_truncates() {
    assert_eq!(divide_numbers(&[7, 2]), Some(3));
    assert_eq!(divide_numbers(&[255, 10]), Some(25));
    assert_eq!(divide_numbers(&[1, 2]), Some(0));
    assert_eq!(divide_numbers(&[0, 9]), Some(0));
}

#[test]
fn buffer_short_inputs_are_empty() {
    assert_eq!(process_buffer(b""), Vec::<u8>::new());
    assert_eq!(process_buffer(b"F"), Vec::<u8>::new());
    assert_eq!(process_buffer(b"FUZ"), Vec::<u8>::new());
}

#[test]
fn buffer_without_marker_is_empty() {
    assert_eq!(process_buffer(&[1, 2, 3, 4, 9]), Vec::<u8>::new());
    assert_eq!(process_buffer(b"FUZX\x02ab"), Vec::<u8>::new());
}

#[test]
fn buffer_zero_size_reads_nothing() {
    assert_eq!(process_buffer(b"FUZZ\x00"), Vec::<u8>::new());
    assert_eq!(process_buffer(b"FUZZ\x00trailing"), Vec::<u8>::new());
}

#[test]
fn buffer_declared_size_is_copied() {
    assert_eq!(process_buffer(b"FUZZ\x02ab"), b"ab".to_vec());
    assert_eq!(process_buffer(b"FUZZ\x01xyz"), b"x".to_vec());
    assert_eq!(process_buffer(b"FUZZ\x03abc"), b"abc".to_vec());
}

#[test]
fn waterfall_empty_input_is_zero() {
    assert_eq!(check_secret_waterfall(b""), 0);
}

#[test]
fn waterfall_divergence_stops_the_count() {
    assert_eq!(check_secret_waterfall(b"X"), 0);
    assert_eq!(check_secret_waterfall(b"FUZZINGLABX"), 10);
    assert_eq!(check_secret_waterfall(b"FUZZINGLABXtail"), 10);
    assert_eq!(check_secret_waterfall(b"FUZZINGLAB"), 10);
}

#[test]
fn parser_handles_signs_and_leading_zeros() {
    assert_eq!(parse_number(b"-45"), -45);
    assert_eq!(parse_number(b"+7"), 7);
    assert_eq!(parse_number(b"0"), 0);
    assert_eq!(parse_number(b"0000123"), 123);
}

#[test]
fn parser_covers_the_full_range() {
    assert_eq!(parse_number(b"2147483647"), i32::MAX);
    assert_eq!(parse_number(b"-2147483648"), i32::MIN);
}
