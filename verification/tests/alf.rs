use ec::alf::data_triple::DataTriple;
use ec::alf::hex::{chars_of, hex_digit, parse_u16_radix16};
use ec::alf::record::Record;
use ec::alf::{Alf, AlfError};

fn lines(v: &[&str]) -> Vec<String> {
    v.iter().map(|s| String::from(*s)).collect()
}

#[test]
fn test_load_alf() {
    let alf = Alf::from(lines(&["00004004040000005400442E010020", "END0040"])).unwrap();
    assert_eq!(alf.records.len(), 1);
    assert_eq!(alf.start_address, 0x40);
    let triples = &alf.records[0].data_triples;
    assert_eq!(triples.len(), 2);
    assert_eq!(triples[0].count, 4);
    assert_eq!(triples[0].address, 0x40);
    assert_eq!(triples[0].data_fields, vec![0x40, 0x00, 0x00, 0x05]);
    assert_eq!(triples[1].address, 0x44);
    assert_eq!(triples[1].data_fields, vec![0x2e, 0x01, 0x00, 0x20]);
}

#[test]
fn test_returns_error_on_empty_alf() {
    assert!(Alf::from(vec![]).is_err());
}

#[test]
fn test_returns_error_when_end_is_missing() {
    let lines = vec![String::from("E10241A2301020304207FF1BEC")];

    assert!(Alf::from(lines).is_err());
}

#[test]
fn test_returns_error_on_invalid_sequence_numbers() {
    let lines = vec![String::from("6001400102E010000"), String::from("END000A")];

    assert!(Alf::from(lines).is_err());
}

#[test]
fn test_creates_alf_from_valid_source() {
    let lines = vec![String::from("6000400102E010000"), String::from("END000A")];
    let expected_records_count = lines.len() - 1;
    let alf = Alf::from(lines);

    assert!(alf.is_ok());
    let records = alf.unwrap().records;
    assert_eq!(expected_records_count, records.len());
}

#[test]
fn record_test_result_is_constructed_with_valid_record_line() {
    let valid_record_line = String::from("E10241A2301020304207FF1BEC");
    let record = Record::from(valid_record_line);
    assert!(record.is_ok());
}

#[test]
fn record_test_error_is_reported_on_invalid_checksum() {
    let invalid_checksum_line = String::from("E20241A2301020304207FF1BEC");
    let record = Record::from(invalid_checksum_line);
    assert!(record.is_err());
}

#[test]
fn record_holds_sequence_number_and_triples() {
    let record = Record::from(String::from("E10241A2301020304207FF1BEC")).unwrap();
    assert_eq!(record.sequence_number, 0x102);
    assert_eq!(record.data_triples.len(), 2);
    assert_eq!(record.data_triples[0].count, 4);
    assert_eq!(record.data_triples[0].address, 0x1a23);
    assert_eq!(record.data_triples[0].data_fields, vec![1, 2, 3, 4]);
    assert_eq!(record.data_triples[1].count, 2);
    assert_eq!(record.data_triples[1].address, 0x07ff);
    assert_eq!(record.data_triples[1].data_fields, vec![0x1b, 0xec]);
}

#[test]
fn record_with_lower_case_digits() {
    let record = Record::from(String::from("e10241a2301020304207ff1bec")).unwrap();
    assert_eq!(record.data_triples[1].data_fields, vec![0x1b, 0xec]);
}

#[test]
fn record_starting_with_non_digit_is_invalid() {
    assert_eq!(Record::from(String::from("X000")).err(), Some(AlfError::InvalidRecordLine));
}

#[test]
fn record_without_triples() {
    let record = Record::from(String::from("3003")).unwrap();
    assert_eq!(record.sequence_number, 3);
    assert!(record.data_triples.is_empty());
}

#[test]
fn data_triple_from_chunk() {
    let t = DataTriple::from(2, "01FFAB7C");
    assert_eq!(t.count, 2);
    assert_eq!(t.address, 0x01ff);
    assert_eq!(t.data_fields, vec![0xab, 0x7c]);
}

#[test]
fn data_triple_without_data() {
    let t = DataTriple::from(0, "1234");
    assert_eq!(t.address, 0x1234);
    assert!(t.data_fields.is_empty());
}

#[test]
fn hex_digits() {
    assert_eq!(hex_digit('0'), Some(0));
    assert_eq!(hex_digit('9'), Some(9));
    assert_eq!(hex_digit('a'), Some(10));
    assert_eq!(hex_digit('F'), Some(15));
    assert_eq!(hex_digit('g'), None);
    assert_eq!(hex_digit('G'), None);
    assert_eq!(hex_digit(' '), None);
}

#[test]
fn start_address_like_from_str_radix() {
    for s in ["END0040", "END+40", "END40", "ENDffff", "END00000000ffff", "END", "END+", "ENDx1", "END10000", "END-1"] {
        let chars = chars_of(s);
        assert_eq!(parse_u16_radix16(&chars, 3, chars.len()), u16::from_str_radix(&s[3..], 16).ok(), "{}", s);
    }
}

#[test]
fn alf_errors() {
    assert_eq!(Alf::from(vec![]).err(), Some(AlfError::Empty));
    assert_eq!(Alf::from(lines(&["6000400102E010000"])).err(), Some(AlfError::MissingEnd));
    assert_eq!(Alf::from(lines(&["EN"])).err(), Some(AlfError::MissingEnd));
    assert_eq!(Alf::from(lines(&["END"])).err(), Some(AlfError::InvalidStartAddress));
    assert_eq!(Alf::from(lines(&["END10000"])).err(), Some(AlfError::InvalidStartAddress));
    assert_eq!(
        Alf::from(lines(&["7000400102E010000", "END000A"])).err(),
        Some(AlfError::InvalidRecordLine)
    );
    assert_eq!(
        Alf::from(lines(&["7001400102E010000", "END000A"])).err(),
        Some(AlfError::NonConsecutiveSequenceNumbers)
    );
}

#[test]
fn alf_of_end_record_only() {
    let alf = Alf::from(lines(&["END+1F"])).unwrap();
    assert!(alf.records.is_empty());
    assert_eq!(alf.start_address, 0x1f);
}

#[test]
fn alf_with_two_records() {
    let alf = Alf::from(lines(&["6000400102E010000", "7001400102E010000", "END0040"])).unwrap();
    assert_eq!(alf.records.len(), 2);
    assert_eq!(alf.records[1].sequence_number, 1);
}

#[test]
fn lines_that_cannot_be_read() {
    assert!(!Record::can_read(&String::new()));
    assert!(!Record::can_read(&String::from("1Z")));
    assert!(!Record::can_read(&String::from("11")));
    assert!(!Record::can_read(&String::from("B000400400102")));
    assert!(Record::can_read(&String::from("Z")));
    assert!(Record::can_read(&String::from("0123")));
    assert!(Record::can_read(&String::from("E10241A2301020304207FF1BEC")));
    assert!(!Alf::can_read(&lines(&["B000400400102", "END0"])));
    assert!(Alf::can_read(&lines(&["B000400400102", "XND0"])));
    assert!(Alf::can_read(&lines(&["0001", "B000400400102", "END0"])));
    assert!(Alf::can_read(&lines(&[])));
}

fn record_line(seq: usize) -> String {
    let body = format!("{:03X}", seq);
    let sum: u32 = body.chars().map(|c| c.to_digit(16).unwrap()).sum();
    format!("{:X}{}", sum % 16, body)
}

#[test]
fn at_most_4096_records() {
    let mut lines: Vec<String> = (0..4096).map(record_line).collect();
    lines.push(String::from("END0"));
    assert_eq!(Alf::from(lines).unwrap().records.len(), 4096);
    let mut lines: Vec<String> = (0..4097).map(|i| record_line(i % 4096)).collect();
    lines.push(String::from("END0"));
    assert_eq!(Alf::from(lines).err(), Some(AlfError::NonConsecutiveSequenceNumbers));
}

#[test]
fn data_triple_fields_read_like_from_str_radix() {
    let t = DataTriple::from(2, "+FFF+5a0");
    assert_eq!(t.address, u32::from_str_radix("+FFF", 16).unwrap());
    assert_eq!(t.data_fields, vec![u8::from_str_radix("+5", 16).unwrap(), 0xa0]);
}
