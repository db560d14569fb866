use fibseq::access::{access, parse_index};
use fibseq::Error;

const COLLECTION: [i32; 5] = [1, 2, 3, 4, 5];

#[test]
fn first_and_last_elements() {
    assert_eq!(access(&COLLECTION, "0"), Ok(1));
    assert_eq!(access(&COLLECTION, "4"), Ok(5));
}

#[test]
fn every_element_by_index() {
    for i in 0..5usize {
        assert_eq!(access(&COLLECTION, &i.to_string()), Ok(COLLECTION[i]));
    }
}

#[test]
fn index_at_length_is_out_of_range() {
    assert_eq!(
        access(&COLLECTION, "5"),
        Err(Error::IndexOutOfRange { index: 5, len: 5 })
    );
}

#[test]
fn large_index_is_out_of_range() {
    assert_eq!(
        access(&COLLECTION, "100"),
        Err(Error::IndexOutOfRange { index: 100, len: 5 })
    );
}

#[test]
fn negative_index_is_a_parse_error() {
    assert_eq!(access(&COLLECTION, "-1"), Err(Error::ParseError));
}

#[test]
fn non_numeric_text_is_a_parse_error() {
    assert_eq!(access(&COLLECTION, "abc"), Err(Error::ParseError));
}

#[test]
fn surrounding_whitespace_is_trimmed() {
    assert_eq!(access(&COLLECTION, "  3  "), Ok(4));
    assert_eq!(access(&COLLECTION, "\t2\n"), Ok(3));
}

#[test]
fn empty_and_blank_text_are_parse_errors() {
    assert_eq!(access(&COLLECTION, ""), Err(Error::ParseError));
    assert_eq!(access(&COLLECTION, "   "), Err(Error::ParseError));
}

#[test]
fn inner_whitespace_is_a_parse_error() {
    assert_eq!(access(&COLLECTION, "1 2"), Err(Error::ParseError));
}

#[test]
fn leading_zeroes_are_accepted() {
    assert_eq!(access(&COLLECTION, "003"), Ok(4));
}

#[test]
fn empty_collection_rejects_every_index() {
    let empty: [i32; 0] = [];
    assert_eq!(
        access(&empty, "0"),
        Err(Error::IndexOutOfRange { index: 0, len: 0 })
    );
}

#[test]
fn parse_index_reads_plain_numbers() {
    assert_eq!(parse_index("42"), Ok(42));
    assert_eq!(parse_index(" 7 "), Ok(7));
    assert_eq!(parse_index("0"), Ok(0));
}

#[test]
fn parse_index_rejects_too_large_numbers() {
    // one more than usize::MAX on a 64-bit machine
    assert_eq!(parse_index("18446744073709551616"), Err(Error::ParseError));
    assert_eq!(
        parse_index("99999999999999999999999999"),
        Err(Error::ParseError)
    );
}

#[test]
fn parse_index_accepts_the_largest_index() {
    assert_eq!(parse_index(&usize::MAX.to_string()), Ok(usize::MAX));
}
