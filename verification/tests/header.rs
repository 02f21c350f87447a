use fitsrs::error::Error;
use fitsrs::hdu::header::card::Entry;
use fitsrs::hdu::header::card::Value;
use fitsrs::hdu::header::BitpixValue;
use fitsrs::hdu::header::Header;
use fitsrs::hdu::header::HeaderParser;
use fitsrs::hdu::header::Step;
use std::borrow::Cow;

fn card(text: &str) -> Vec<u8> {
    let mut bytes = text.as_bytes().to_vec();
    assert!(bytes.len() <= 80);
    bytes.resize(80, b' ');
    bytes
}

fn entry(keyword: &str, value: Value) -> Entry {
    let mut bytes = keyword.as_bytes().to_vec();
    assert!(bytes.len() <= 8);
    bytes.resize(8, b' ');
    let mut array = [0u8; 8];
    array.copy_from_slice(&bytes);
    Entry { keyword: array, value }
}

fn integer(keyword: &str, value: i64) -> Entry {
    entry(keyword, Value::Integer(value))
}

/// The entries of an array of `bitpix` with the axis sizes `axes`.
fn array(bitpix: i64, axes: &[i64]) -> Vec<Entry> {
    let mut entries = vec![
        entry("SIMPLE", Value::Logical(true)),
        integer("BITPIX", bitpix),
        integer("NAXIS", axes.len() as i64),
    ];
    for (i, size) in axes.iter().enumerate() {
        entries.push(integer(&format!("NAXIS{}", i + 1), *size));
    }
    entries
}

fn error_of(entries: Vec<Entry>) -> Error<'static> {
    Header::from_entries(entries).err().unwrap()
}

#[test]
fn a_float_image_declares_its_shape() {
    let header = Header::from_entries(array(-32, &[208, 208])).unwrap();
    assert_eq!(header.get_bitpix(), BitpixValue::F32);
    assert_eq!(header.get_naxis(), 2);
    assert_eq!(header.get_axis_size(1), Some(&208));
    assert_eq!(header.get_axis_size(2), Some(&208));
    assert_eq!(header.get_num_bytes_data_block(), 173_056);
}

#[test]
fn axis_indices_start_at_one() {
    let header = Header::from_entries(array(8, &[3, 5])).unwrap();
    assert_eq!(header.get_axis_size(0), None);
    assert_eq!(header.get_axis_size(1), Some(&3));
    assert_eq!(header.get_axis_size(2), Some(&5));
    assert_eq!(header.get_axis_size(3), None);
    assert_eq!(header.get_axis_size(usize::MAX), None);
}

#[test]
fn byte_length_is_element_count_times_element_width() {
    let cases: [(i64, BitpixValue, usize, &[i64], usize); 7] = [
        (8, BitpixValue::U8, 1, &[3], 3),
        (16, BitpixValue::I16, 2, &[2, 3, 4], 48),
        (32, BitpixValue::I32, 4, &[5], 20),
        (64, BitpixValue::I64, 8, &[7, 1], 56),
        (-32, BitpixValue::F32, 4, &[1], 4),
        (-64, BitpixValue::F64, 8, &[10, 10, 10], 8000),
        (16, BitpixValue::I16, 2, &[1, 1, 1, 1, 9], 18),
    ];
    for (code, bitpix, width, axes, bytes) in cases {
        let header = Header::from_entries(array(code, axes)).unwrap();
        assert_eq!(header.get_bitpix(), bitpix);
        assert_eq!(bitpix.width(), width);
        assert_eq!(BitpixValue::from_code(code), Some(bitpix));
        let count: usize = axes.iter().map(|size| *size as usize).product();
        assert_eq!(header.get_num_bytes_data_block(), count * width);
        assert_eq!(header.get_num_bytes_data_block(), bytes);
    }
}

#[test]
fn unknown_element_type_codes_have_no_type() {
    for code in [0, 1, -8, -16, 12, 128, i64::MAX, i64::MIN] {
        assert_eq!(BitpixValue::from_code(code), None);
    }
}

#[test]
fn each_missing_mandatory_keyword_is_named() {
    let whole = array(16, &[4]);
    assert_eq!(
        error_of(whole[1..].to_vec()),
        Error::MandatoryKeywordMissing(Cow::Borrowed("SIMPLE"))
    );
    assert_eq!(
        error_of(vec![whole[0], whole[2], whole[3]]),
        Error::MandatoryKeywordMissing(Cow::Borrowed("BITPIX"))
    );
    assert_eq!(
        error_of(vec![whole[0], whole[1], whole[3]]),
        Error::MandatoryKeywordMissing(Cow::Borrowed("NAXIS"))
    );
    assert_eq!(error_of(vec![]), Error::MandatoryKeywordMissing(Cow::Borrowed("SIMPLE")));
}

#[test]
fn the_opening_keyword_must_be_a_logical() {
    let mut entries = array(16, &[4]);
    entries[0] = integer("SIMPLE", 1);
    assert_eq!(error_of(entries), Error::SimpleKeywordBadValue);
    let mut entries = array(16, &[4]);
    entries[0] = entry("SIMPLE", Value::Other);
    assert_eq!(error_of(entries), Error::SimpleKeywordBadValue);
    let mut entries = array(16, &[4]);
    entries[0] = entry("SIMPLE", Value::Logical(false));
    assert!(Header::from_entries(entries).is_ok());
}

#[test]
fn the_element_type_must_be_a_known_code() {
    assert_eq!(error_of(array(12, &[4])), Error::ElementTypeBadValue);
    assert_eq!(error_of(array(-16, &[4])), Error::ElementTypeBadValue);
    let mut entries = array(16, &[4]);
    entries[1] = entry("BITPIX", Value::Logical(true));
    assert_eq!(error_of(entries), Error::ElementTypeBadValue);
    let mut entries = array(16, &[4]);
    entries[1] = entry("BITPIX", Value::Other);
    assert_eq!(error_of(entries), Error::ElementTypeBadValue);
}

#[test]
fn the_axis_count_must_be_positive() {
    assert_eq!(error_of(array(16, &[])), Error::NonPositiveAxisCount);
    let mut entries = array(16, &[4]);
    entries[2] = integer("NAXIS", -1);
    assert_eq!(error_of(entries), Error::NonPositiveAxisCount);
    let mut entries = array(16, &[4]);
    entries[2] = integer("NAXIS", i64::MIN);
    assert_eq!(error_of(entries), Error::NonPositiveAxisCount);
}

#[test]
fn the_axis_count_must_be_an_integer_that_keywords_can_number() {
    let mut entries = array(16, &[4]);
    entries[2] = entry("NAXIS", Value::Other);
    assert_eq!(error_of(entries), Error::AxisCountBadValue);
    let mut entries = array(16, &[4]);
    entries[2] = entry("NAXIS", Value::Logical(true));
    assert_eq!(error_of(entries), Error::AxisCountBadValue);
    let mut entries = array(16, &[4]);
    entries[2] = integer("NAXIS", 1000);
    assert_eq!(error_of(entries), Error::AxisCountBadValue);
    let mut entries = array(16, &[4]);
    entries[2] = integer("NAXIS", i64::MAX);
    assert_eq!(error_of(entries), Error::AxisCountBadValue);
}

#[test]
fn a_missing_axis_size_is_not_taken_for_one() {
    let mut entries = array(-32, &[208, 208]);
    entries.pop();
    assert_eq!(error_of(entries), Error::AxisSizeNotFound);
    let mut entries = array(-32, &[208, 208]);
    entries.remove(3);
    assert_eq!(error_of(entries), Error::AxisSizeNotFound);
}

#[test]
fn an_axis_size_must_be_positive() {
    assert_eq!(error_of(array(16, &[4, 0])), Error::NonPositiveAxisSize(2));
    assert_eq!(error_of(array(16, &[0, 4])), Error::NonPositiveAxisSize(1));
    assert_eq!(error_of(array(16, &[4, 4, -7])), Error::NonPositiveAxisSize(3));
    assert_eq!(error_of(array(16, &[i64::MIN])), Error::NonPositiveAxisSize(1));
}

#[test]
fn an_axis_size_must_be_an_integer() {
    let mut entries = array(16, &[4, 4]);
    entries[4] = entry("NAXIS2", Value::Other);
    assert_eq!(error_of(entries), Error::AxisSizeBadValue);
    let mut entries = array(16, &[4, 4]);
    entries[3] = entry("NAXIS1", Value::Logical(true));
    assert_eq!(error_of(entries), Error::AxisSizeBadValue);
}

#[test]
fn a_block_too_large_to_address_is_refused() {
    let huge = 1i64 << 40;
    assert_eq!(error_of(array(64, &[huge, huge, huge])), Error::AxisSizeBadValue);
    assert_eq!(error_of(array(8, &[i64::MAX, i64::MAX])), Error::AxisSizeBadValue);
    assert_eq!(error_of(array(64, &[i64::MAX])), Error::AxisSizeBadValue);
}

#[test]
fn the_first_violation_is_the_one_reported() {
    // The second axis is missing, but the first is at fault before it.
    let mut entries = array(16, &[0, 4]);
    entries.pop();
    assert_eq!(error_of(entries), Error::NonPositiveAxisSize(1));
    // The first axis is missing, and the second is at fault after it.
    let mut entries = array(16, &[4, 0]);
    entries.remove(3);
    assert_eq!(error_of(entries), Error::AxisSizeNotFound);
    // A size beyond what can be addressed counts only once every axis is declared.
    let mut entries = array(64, &[i64::MAX, i64::MAX, 4]);
    entries.pop();
    assert_eq!(error_of(entries), Error::AxisSizeNotFound);
    // The element type comes before the axis count.
    let mut entries = array(12, &[4]);
    entries[2] = integer("NAXIS", 0);
    assert_eq!(error_of(entries), Error::ElementTypeBadValue);
}

#[test]
fn the_first_of_two_entries_with_one_keyword_counts() {
    let mut entries = array(16, &[4]);
    entries.push(integer("BITPIX", 8));
    entries.push(integer("NAXIS1", 9));
    let header = Header::from_entries(entries).unwrap();
    assert_eq!(header.get_bitpix(), BitpixValue::I16);
    assert_eq!(header.get_num_bytes_data_block(), 8);
}

#[test]
fn the_order_of_the_entries_does_not_matter() {
    let mut entries = array(-64, &[2, 3]);
    entries.reverse();
    let header = Header::from_entries(entries).unwrap();
    assert_eq!(header.get_bitpix(), BitpixValue::F64);
    assert_eq!(header.get_axis_size(1), Some(&2));
    assert_eq!(header.get_axis_size(2), Some(&3));
    assert_eq!(header.get_num_bytes_data_block(), 48);
}

#[test]
fn axes_are_numbered_with_up_to_three_digits() {
    let axes: Vec<i64> = (1..=120).map(|k| if k == 9 || k == 10 || k == 99 || k == 100 || k == 120 { 2 } else { 1 }).collect();
    let header = Header::from_entries(array(8, &axes)).unwrap();
    assert_eq!(header.get_naxis(), 120);
    assert_eq!(header.get_axis_size(9), Some(&2));
    assert_eq!(header.get_axis_size(10), Some(&2));
    assert_eq!(header.get_axis_size(11), Some(&1));
    assert_eq!(header.get_axis_size(99), Some(&2));
    assert_eq!(header.get_axis_size(100), Some(&2));
    assert_eq!(header.get_axis_size(120), Some(&2));
    assert_eq!(header.get_num_bytes_data_block(), 32);
    let mut entries = array(8, &axes);
    entries.retain(|e| &e.keyword != b"NAXIS100");
    assert_eq!(error_of(entries), Error::AxisSizeNotFound);
    let mut entries = array(8, &axes);
    for e in entries.iter_mut() {
        if &e.keyword == b"NAXIS37 " {
            e.value = Value::Integer(0);
        }
    }
    assert_eq!(error_of(entries), Error::NonPositiveAxisSize(37));
}

#[test]
fn the_largest_axis_count_is_accepted() {
    let axes = vec![1i64; 999];
    let header = Header::from_entries(array(16, &axes)).unwrap();
    assert_eq!(header.get_naxis(), 999);
    assert_eq!(header.get_axis_size(999), Some(&1));
    assert_eq!(header.get_num_bytes_data_block(), 2);
}

#[test]
fn entries_are_found_by_their_padded_keyword() {
    let mut entries = array(-32, &[208, 208]);
    entries.push(entry("EXTEND", Value::Logical(true)));
    let header = Header::from_entries(entries).unwrap();
    assert_eq!(header.get(b"BITPIX  "), Ok(Some(Value::Integer(-32))));
    assert_eq!(header.get(b"EXTEND  "), Ok(Some(Value::Logical(true))));
    assert_eq!(header.get(b"BSCALE  "), Ok(None));
}

#[test]
fn a_keyword_of_another_length_is_refused() {
    let header = Header::from_entries(array(-32, &[208, 208])).unwrap();
    assert_eq!(header.get(b"BITPIX"), Err(Error::MustBe8BytesLong(b"BITPIX")));
    assert_eq!(header.get(b"BITPIX   "), Err(Error::MustBe8BytesLong(b"BITPIX   ")));
    assert_eq!(header.get(b""), Err(Error::MustBe8BytesLong(b"")));
}

fn image_cards() -> Vec<u8> {
    let mut bytes = Vec::new();
    for line in [
        "SIMPLE  =                    T / conforms to the standard",
        "BITPIX  =                   16",
        "COMMENT a remark between the mandatory cards",
        "NAXIS   =                    2",
        "NAXIS1  =                    3",
        "NAXIS2  =                    5",
        "BSCALE  =                  1.0",
        "END",
    ] {
        bytes.extend(card(line));
    }
    bytes
}

#[test]
fn a_header_is_parsed_up_to_its_end_card() {
    let mut bytes = image_cards();
    bytes.extend(card("NAXIS2  =                    7"));
    let (header, read) = Header::parse(&bytes).unwrap();
    assert_eq!(read, 8 * 80);
    assert_eq!(header.get_bitpix(), BitpixValue::I16);
    assert_eq!(header.get_axis_size(2), Some(&5));
    assert_eq!(header.get_num_bytes_data_block(), 30);
    assert_eq!(header.get(b"BSCALE  "), Ok(Some(Value::Other)));
    assert_eq!(header.get(b"COMMENT "), Ok(None));
}

#[test]
fn a_header_without_end_card_runs_into_the_end_of_the_bytes() {
    let bytes = image_cards();
    assert_eq!(Header::parse(&bytes[..7 * 80]).err(), Some(Error::CardSizeNotRespected(0)));
    assert_eq!(Header::parse(&bytes[..7 * 80 + 79]).err(), Some(Error::CardSizeNotRespected(79)));
    assert_eq!(Header::parse(&bytes[..3]).err(), Some(Error::CardSizeNotRespected(3)));
    assert_eq!(Header::parse(&[]).err(), Some(Error::CardSizeNotRespected(0)));
}

#[test]
fn a_malformed_card_ends_the_parse_with_its_span() {
    let mut bytes = image_cards();
    bytes[80 + 10..80 + 30].copy_from_slice(b"             sixteen");
    assert_eq!(Header::parse(&bytes).err(), Some(Error::TokenizerError(&bytes[80 + 23..160])));
}

#[test]
fn a_header_is_validated_when_its_end_card_comes() {
    let mut bytes = Vec::new();
    bytes.extend(card("SIMPLE  = T"));
    bytes.extend(card("BITPIX  = 8"));
    bytes.extend(card("NAXIS   = 1"));
    bytes.extend(card("END"));
    bytes.extend(card("NAXIS1  = 4"));
    assert_eq!(Header::parse(&bytes).err(), Some(Error::AxisSizeNotFound));
}

#[test]
fn a_parser_takes_the_cards_one_by_one() {
    let bytes = image_cards();
    let mut parser = HeaderParser::new();
    assert_eq!(parser.bytes_read(), 0);
    for (i, chunk) in bytes.chunks(80).enumerate() {
        match parser.push(chunk).unwrap() {
            Step::More(next) => {
                assert!(i < 7);
                assert_eq!(next.bytes_read(), (i + 1) * 80);
                parser = next;
            }
            Step::Done(header, read) => {
                assert_eq!(i, 7);
                assert_eq!(read, 640);
                assert_eq!(header.get_naxis(), 2);
                return;
            }
        }
    }
    panic!("the end card was not seen");
}

#[test]
fn a_parser_refuses_a_short_card() {
    let parser = HeaderParser::new();
    assert_eq!(parser.push(&[b' '; 42]).err(), Some(Error::CardSizeNotRespected(42)));
}

#[test]
fn only_the_card_layout_errors_have_a_text() {
    assert_eq!(Error::CardSizeNotRespected(3).message(), "card size not repected");
    assert_eq!(
        Error::MandatoryKeywordMissing(Cow::Borrowed("NAXIS")).message(),
        "mandatory keyword missing"
    );
    assert_eq!(Error::AxisSizeNotFound.message(), "");
    assert_eq!(Error::NonPositiveAxisSize(2).message(), "");
    assert_eq!(Error::MandatoryValueError("data block").message(), "");
    assert_eq!(Error::TokenizerError(b"x").message(), "");
}
