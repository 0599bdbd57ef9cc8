use trasher::ident::{id_bytes_of, instant_of};
use trasher::items::{TrashItemDecodingError, TrashItemInfos, NAME_ID_SEPARATOR};

fn round_trip(filename: &str, deleted_at: i128) {
    let item = TrashItemInfos::new(filename.to_string(), deleted_at);
    let name = item.trash_filename();
    let decoded = TrashItemInfos::decode(&name).unwrap();
    assert_eq!(decoded.filename, filename);
    assert_eq!(decoded.deleted_at, deleted_at);
    assert_eq!(decoded, item);
}

#[test]
fn encodes_file_name_separator_and_identifier() {
    let item = TrashItemInfos::new("a.txt".to_string(), 1);
    assert_eq!(item.compute_id(), "AQ");
    assert_eq!(item.trash_filename(), "a.txt ^AQ");
    assert_eq!(NAME_ID_SEPARATOR, " ^");
}

#[test]
fn identifiers_are_minimal_big_endian_in_the_url_safe_alphabet() {
    assert_eq!(TrashItemInfos::new(String::new(), 255).compute_id(), "_w");
    assert_eq!(TrashItemInfos::new(String::new(), 256).compute_id(), "AQA");
    assert_eq!(TrashItemInfos::new(String::new(), 65535).compute_id(), "__8");
    assert_eq!(TrashItemInfos::new(String::new(), 261119).compute_id(), "A_v_");
    assert_eq!(TrashItemInfos::new(String::new(), 1_000_000_000).compute_id(), "O5rKAA");
    assert_eq!(
        TrashItemInfos::new(String::new(), 26_179_200_123_456_789).compute_id(),
        "XQHYA9zNFQ"
    );
}

#[test]
fn the_epoch_itself_keeps_sixteen_zero_bytes() {
    assert_eq!(id_bytes_of(0), vec![0u8; 16]);
    assert_eq!(TrashItemInfos::new("x".to_string(), 0).compute_id(), "AAAAAAAAAAAAAAAAAAAAAA");
    round_trip("x", 0);
}

#[test]
fn instants_before_the_epoch_use_the_full_width() {
    assert_eq!(id_bytes_of(-1), vec![0xFFu8; 16]);
    assert_eq!(TrashItemInfos::new("x".to_string(), -1).compute_id(), "_____________________w");
    assert_eq!(
        TrashItemInfos::new("x".to_string(), i128::MIN).compute_id(),
        "gAAAAAAAAAAAAAAAAAAAAA"
    );
    assert_eq!(
        TrashItemInfos::new("x".to_string(), i128::MAX).compute_id(),
        "f____________________w"
    );
}

#[test]
fn identifier_bytes_and_instants_are_inverse() {
    assert_eq!(id_bytes_of(1), vec![1u8]);
    assert_eq!(id_bytes_of(0x0102), vec![1u8, 2u8]);
    assert_eq!(instant_of(&vec![1u8, 2u8]), 0x0102);
    assert_eq!(instant_of(&vec![0u8, 0u8, 7u8]), 7);
    assert_eq!(instant_of(&vec![0xFFu8; 16]), -1);
    for nanos in [0i128, 1, -1, 255, 256, i128::MAX, i128::MIN, 26_179_200_123_456_789] {
        assert_eq!(instant_of(&id_bytes_of(nanos)), nanos);
    }
}

#[test]
fn decodes_what_it_encoded() {
    round_trip("notes.txt", 26_179_200_123_456_789);
    round_trip("notes.txt", 1);
    round_trip("notes.txt", -1);
    round_trip("notes.txt", i128::MAX);
    round_trip("notes.txt", i128::MIN);
    round_trip("", 42);
    round_trip("no extension", 999_999_999);
    round_trip("h\u{e9}llo w\u{f6}rld \u{1F5D1}.txt", 123_456_789_012);
}

#[test]
fn a_file_name_that_holds_the_separator_still_decodes() {
    round_trip("a ^b", 77);
    round_trip("a ^AQ", 77);
    round_trip(" ^", 77);
    round_trip("ends with space ", 77);
    round_trip("ends with caret ^", 77);
    let decoded = TrashItemInfos::decode("a ^b ^AQ").unwrap();
    assert_eq!(decoded.filename, "a ^b");
    assert_eq!(decoded.deleted_at, 1);
}

#[test]
fn nanosecond_neighbours_get_different_names() {
    let first = TrashItemInfos::new("a.txt".to_string(), 1_000_000_000);
    let second = TrashItemInfos::new("a.txt".to_string(), 1_000_000_001);
    assert_ne!(first.trash_filename(), second.trash_filename());
}

#[test]
fn ten_thousand_instants_give_ten_thousand_names() {
    let mut names: Vec<String> = Vec::new();
    let start: i128 = 26_179_200_000_000_000;
    for step in 0..10_000 {
        names.push(TrashItemInfos::new("a.txt".to_string(), start + step).trash_filename());
    }
    names.sort();
    names.dedup();
    assert_eq!(names.len(), 10_000);
}

#[test]
fn rejects_a_name_without_separator() {
    assert_eq!(
        TrashItemInfos::decode("notes.txt").unwrap_err(),
        TrashItemDecodingError::InvalidFilenameFormat
    );
    assert_eq!(
        TrashItemInfos::decode("").unwrap_err(),
        TrashItemDecodingError::InvalidFilenameFormat
    );
    assert_eq!(
        TrashItemInfos::decode("notes^AQ").unwrap_err(),
        TrashItemDecodingError::InvalidFilenameFormat
    );
}

#[test]
fn rejects_an_identifier_that_is_not_base64() {
    assert_eq!(
        TrashItemInfos::decode("notes.txt ^!!").unwrap_err(),
        TrashItemDecodingError::BadlyEncodedId
    );
    assert_eq!(
        TrashItemInfos::decode("notes.txt ^AQ==").unwrap_err(),
        TrashItemDecodingError::BadlyEncodedId
    );
    assert_eq!(
        TrashItemInfos::decode("notes.txt ^A").unwrap_err(),
        TrashItemDecodingError::BadlyEncodedId
    );
    assert_eq!(
        TrashItemInfos::decode("notes.txt ^+/8").unwrap_err(),
        TrashItemDecodingError::BadlyEncodedId
    );
}

#[test]
fn rejects_an_identifier_of_the_wrong_width() {
    assert_eq!(
        TrashItemInfos::decode("notes.txt ^").unwrap_err(),
        TrashItemDecodingError::InvalidIdLength
    );
    assert_eq!(
        TrashItemInfos::decode("notes.txt ^AAAAAAAAAAAAAAAAAAAAAAA").unwrap_err(),
        TrashItemDecodingError::InvalidIdLength
    );
    assert_eq!(
        TrashItemInfos::from_id_bytes("x".to_string(), &Vec::new()).unwrap_err(),
        TrashItemDecodingError::InvalidIdLength
    );
    assert_eq!(
        TrashItemInfos::from_id_bytes("x".to_string(), &vec![0u8; 17]).unwrap_err(),
        TrashItemDecodingError::InvalidIdLength
    );
}

#[test]
fn an_identifier_with_leading_zero_bytes_decodes_to_the_same_instant() {
    let decoded = TrashItemInfos::decode("notes.txt ^AAE").unwrap();
    assert_eq!(decoded.filename, "notes.txt");
    assert_eq!(decoded.deleted_at, 1);
    let item = TrashItemInfos::from_id_bytes("x".to_string(), &vec![0u8, 1u8]).unwrap();
    assert_eq!(item.deleted_at, 1);
}

#[test]
fn an_item_deleted_now_keeps_its_name_and_lies_after_the_epoch() {
    let item = TrashItemInfos::new_now("now.txt".to_string()).unwrap();
    assert_eq!(item.filename, "now.txt");
    assert!(item.deleted_at > 0);
    let decoded = TrashItemInfos::decode(&item.trash_filename()).unwrap();
    assert_eq!(decoded, item);
}

#[test]
fn the_clock_moves_on() {
    let first = TrashItemInfos::new_now("a".to_string()).unwrap();
    let second = TrashItemInfos::new_now("a".to_string()).unwrap();
    assert!(first.deleted_at <= second.deleted_at);
}

#[test]
fn a_clock_reading_becomes_the_deletion_instant() {
    let item = TrashItemInfos::from_clock("a.txt".to_string(), Some(26_179_200_000_000_123)).unwrap();
    assert_eq!(item, TrashItemInfos::new("a.txt".to_string(), 26_179_200_000_000_123));
    assert_eq!(TrashItemInfos::from_clock("a.txt".to_string(), Some(-7)).unwrap().deleted_at, -7);
    assert_eq!(TrashItemInfos::from_clock("a.txt".to_string(), None), None);
}

#[test]
fn an_identifier_has_two_to_twenty_two_symbols() {
    assert_eq!(TrashItemInfos::new(String::new(), 1).compute_id().len(), 2);
    assert_eq!(TrashItemInfos::new(String::new(), 256).compute_id().len(), 3);
    assert_eq!(TrashItemInfos::new(String::new(), 65536).compute_id().len(), 4);
    assert_eq!(TrashItemInfos::new(String::new(), 1 << 24).compute_id().len(), 6);
    assert_eq!(TrashItemInfos::new(String::new(), 0).compute_id().len(), 22);
    assert_eq!(TrashItemInfos::new(String::new(), i128::MIN).compute_id().len(), 22);
}
