use file_action::csv::{parse_rows, split_fields};
use file_action::text::{text_of, to_chars};
use file_action::{FileAction, FileError};
use std::io::{Error, ErrorKind};

fn rows(expected: &[&[&str]]) -> Vec<Vec<String>> {
    expected.iter().map(|row| row.iter().map(|field| field.to_string()).collect()).collect()
}

fn by_lines_and_commas(text: &str) -> Vec<Vec<String>> {
    text.lines().map(|line| line.split(',').map(|field| field.to_string()).collect()).collect()
}

#[test]
fn read_decodes_utf8() {
    let text = FileAction::read(Ok("héllo, wörld ✓".as_bytes().to_vec())).unwrap();
    assert_eq!(text, "héllo, wörld ✓");
}

#[test]
fn read_of_an_empty_file_is_the_empty_text() {
    assert_eq!(FileAction::read(Ok(Vec::new())).unwrap(), "");
}

#[test]
fn read_rejects_bytes_that_are_not_utf8() {
    assert!(matches!(FileAction::read(Ok(vec![0x61, 0xff, 0x62])), Err(FileError::InvalidText)));
    assert!(matches!(FileAction::read(Ok(vec![0xe2, 0x82])), Err(FileError::InvalidText)));
    assert!(matches!(FileAction::read(Ok(vec![0xed, 0xa0, 0x80])), Err(FileError::InvalidText)));
}

#[test]
fn read_of_a_missing_file_is_a_recoverable_failure() {
    let missing = Error::new(ErrorKind::NotFound, "no such file");
    match FileAction::read(Err(missing)) {
        Err(FileError::Io(cause)) => {
            assert_eq!(cause.kind(), ErrorKind::NotFound);
            assert_eq!(cause.to_string(), "no such file");
        }
        other => panic!("unexpected outcome: {:?}", other),
    }
}

#[test]
fn read_csv_splits_lines_and_commas() {
    let read = FileAction::read_csv(Ok(b"a,b\nc,d".to_vec())).unwrap();
    assert_eq!(read, rows(&[&["a", "b"], &["c", "d"]]));
}

#[test]
fn read_csv_line_without_comma_is_one_field() {
    let read = FileAction::read_csv(Ok(b"alone\nx,y,z".to_vec())).unwrap();
    assert_eq!(read, rows(&[&["alone"], &["x", "y", "z"]]));
}

#[test]
fn read_csv_empty_line_is_one_empty_field() {
    let read = FileAction::read_csv(Ok(b"a\n\nb".to_vec())).unwrap();
    assert_eq!(read, rows(&[&["a"], &[""], &["b"]]));
}

#[test]
fn read_csv_of_an_empty_file_has_no_record() {
    let read = FileAction::read_csv(Ok(Vec::new())).unwrap();
    assert!(read.is_empty());
}

#[test]
fn read_csv_last_line_ending_is_optional() {
    let with = FileAction::read_csv(Ok(b"a,b\nc,d\n".to_vec())).unwrap();
    let without = FileAction::read_csv(Ok(b"a,b\nc,d".to_vec())).unwrap();
    assert_eq!(with, without);
    assert_eq!(FileAction::read_csv(Ok(b"\n".to_vec())).unwrap(), rows(&[&[""]]));
}

#[test]
fn read_csv_carriage_return_belongs_to_the_line_ending() {
    let read = FileAction::read_csv(Ok(b"a,b\r\nc,d\r\n".to_vec())).unwrap();
    assert_eq!(read, rows(&[&["a", "b"], &["c", "d"]]));
    let lone = FileAction::read_csv(Ok(b"a\rb,c\r".to_vec())).unwrap();
    assert_eq!(lone, rows(&[&["a\rb", "c\r"]]));
    let doubled = FileAction::read_csv(Ok(b"a\r\r\nb".to_vec())).unwrap();
    assert_eq!(doubled, rows(&[&["a\r"], &["b"]]));
}

#[test]
fn read_csv_knows_no_quotes() {
    let read = FileAction::read_csv(Ok(b"\"a,b\",c".to_vec())).unwrap();
    assert_eq!(read, rows(&[&["\"a", "b\"", "c"]]));
}

#[test]
fn read_csv_keeps_empty_fields() {
    let read = FileAction::read_csv(Ok(b",a,,b,\n,".to_vec())).unwrap();
    assert_eq!(read, rows(&[&["", "a", "", "b", ""], &["", ""]]));
}

#[test]
fn read_csv_fails_as_read_does() {
    assert!(matches!(FileAction::read_csv(Ok(vec![0xc0])), Err(FileError::InvalidText)));
    let denied = Error::new(ErrorKind::PermissionDenied, "denied");
    match FileAction::read_csv(Err(denied)) {
        Err(FileError::Io(cause)) => assert_eq!(cause.kind(), ErrorKind::PermissionDenied),
        other => panic!("unexpected outcome: {:?}", other),
    }
}

#[test]
fn parse_rows_agrees_with_lines_and_split() {
    let samples = [
        "",
        "\n",
        "\r\n",
        "\r",
        "a",
        "a,b\nc,d",
        "a,b\r\nc,d\r\n",
        "a\n\n\nb\n",
        ",\n,,\n",
        "x\r",
        "x\r\r\n",
        "\n\r\n\n",
        "名前,値\nπ,3\n",
        "one,two\rthree\n",
        "tail,\n",
    ];
    for text in samples {
        assert_eq!(parse_rows(text), by_lines_and_commas(text), "on {:?}", text);
    }
}

#[test]
fn split_fields_has_one_more_field_than_commas() {
    let line: Vec<char> = "a,,b,".chars().collect();
    assert_eq!(split_fields(&line), vec!["a", "", "b", ""]);
    assert_eq!(split_fields(&[]), vec![""]);
    assert_eq!(split_fields(&[',']), vec!["", ""]);
}

#[test]
fn split_fields_joined_by_commas_is_the_line() {
    for text in ["", ",", "a", "a,b", ",a,,b,", "no comma at all"] {
        let line: Vec<char> = text.chars().collect();
        let fields = split_fields(&line);
        assert!(fields.iter().all(|field| !field.contains(',')));
        assert_eq!(fields.join(","), text);
    }
}

#[test]
fn chars_and_text_are_inverse() {
    let text = "aé✓\n,\r";
    assert_eq!(to_chars(text), vec!['a', 'é', '✓', '\n', ',', '\r']);
    assert_eq!(text_of(&to_chars(text)), text);
    assert_eq!(text_of(&[]), "");
    assert_eq!(text_of(&['x', 'y']), "xy");
}

#[test]
fn read_json_hands_the_value_on() {
    let parsed = serde_json::from_str::<Vec<u32>>("[1, 2, 3]");
    assert_eq!(FileAction::read_json(parsed).unwrap(), vec![1, 2, 3]);
}

#[test]
fn read_json_reports_text_that_is_not_json() {
    let parsed = serde_json::from_str::<Vec<u32>>("[1, 2");
    let message = parsed.as_ref().unwrap_err().to_string();
    match FileAction::read_json(parsed) {
        Err(FileError::Json(cause)) => assert_eq!(cause.to_string(), message),
        other => panic!("unexpected outcome: {:?}", other),
    }
}

#[test]
fn read_json_reports_a_value_of_another_shape() {
    let parsed = serde_json::from_str::<Vec<u32>>("{\"x\": 1}");
    match FileAction::read_json(parsed) {
        Err(FileError::Json(cause)) => assert!(cause.is_data()),
        other => panic!("unexpected outcome: {:?}", other),
    }
}

#[test]
fn read_agrees_with_the_utf8_rules() {
    let samples: [&[u8]; 12] = [
        b"",
        b"ascii",
        &[0xc3, 0xa9],
        &[0xe2, 0x9c, 0x93],
        &[0xf0, 0x9f, 0x98, 0x80],
        &[0xf4, 0x8f, 0xbf, 0xbf],
        &[0xc0, 0x80],
        &[0xe0, 0x80, 0x80],
        &[0xf4, 0x90, 0x80, 0x80],
        &[0xf5, 0x80, 0x80, 0x80],
        &[0x80],
        &[0x61, 0xc3],
    ];
    for bytes in samples {
        match (FileAction::read(Ok(bytes.to_vec())), std::str::from_utf8(bytes)) {
            (Ok(text), Ok(expected)) => assert_eq!(text, expected),
            (Err(FileError::InvalidText), Err(_)) => {}
            (got, expected) => panic!("on {:?}: {:?}, not {:?}", bytes, got, expected),
        }
    }
}
