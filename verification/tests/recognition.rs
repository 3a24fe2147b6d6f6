use screen_watch::recognition::{decode_text, recognized_text, DetectError, RecognizerOutput};

fn answer(success: bool, stdout: &[u8], stderr: &[u8]) -> RecognizerOutput {
    RecognizerOutput { success, stdout: stdout.to_vec(), stderr: stderr.to_vec() }
}

#[test]
fn a_successful_run_yields_its_output_as_text() {
    let output = answer(true, b"Welcome to the Enter Dungeon screen\n", b"");
    assert_eq!(
        recognized_text(&output),
        Ok("Welcome to the Enter Dungeon screen\n".to_string())
    );
}

#[test]
fn a_successful_run_may_recognize_nothing() {
    assert_eq!(recognized_text(&answer(true, b"", b"warning")), Ok(String::new()));
}

#[test]
fn a_successful_run_ignores_the_diagnostics() {
    let output = answer(true, b"text", &[0xff, 0xfe]);
    assert_eq!(recognized_text(&output), Ok("text".to_string()));
}

#[test]
fn output_that_is_not_utf8_is_an_encoding_failure() {
    let output = answer(true, &[b'o', b'k', 0xff], b"");
    assert_eq!(recognized_text(&output), Err(DetectError::Encoding));
}

#[test]
fn a_failed_run_reports_its_diagnostics() {
    let output = answer(false, b"partial", b"Error opening data file");
    assert_eq!(
        recognized_text(&output),
        Err(DetectError::Recognition("Error opening data file".to_string()))
    );
}

#[test]
fn a_failed_run_with_unreadable_diagnostics_is_an_encoding_failure() {
    let output = answer(false, b"text", &[0xc3, 0x28]);
    assert_eq!(recognized_text(&output), Err(DetectError::Encoding));
}

#[test]
fn decodes_multi_byte_text() {
    let bytes = "h\u{e9}ros \u{5730}\u{4e0b}\u{57ce} \u{1f600}".as_bytes().to_vec();
    assert_eq!(bytes.len(), 21);
    let text = decode_text(&bytes).unwrap();
    assert_eq!(text.chars().count(), 11);
    assert_eq!(text, "h\u{e9}ros \u{5730}\u{4e0b}\u{57ce} \u{1f600}");
}

#[test]
fn rejects_malformed_utf8() {
    assert_eq!(decode_text(&vec![0x80]), None);
    assert_eq!(decode_text(&vec![0xe5, 0x9c]), None);
    assert_eq!(decode_text(&vec![0xed, 0xa0, 0x80]), None);
    assert_eq!(decode_text(&vec![0xc0, 0xaf]), None);
    assert_eq!(decode_text(&vec![0xf4, 0x90, 0x80, 0x80]), None);
    assert_eq!(decode_text(&vec![0xf8, 0x88, 0x80, 0x80, 0x80]), None);
    assert_eq!(decode_text(&vec![b'a', 0xe2, 0x82]), None);
    assert_eq!(decode_text(&vec![]), Some(String::new()));
}

#[test]
fn every_failure_has_a_message() {
    assert_eq!(
        DetectError::Capture("no display".to_string()).message(),
        "screen capture failed: no display"
    );
    assert_eq!(
        DetectError::Io("disk full".to_string()).message(),
        "i/o failed: disk full"
    );
    assert_eq!(
        DetectError::Recognition("bad image".to_string()).message(),
        "tesseract stderr: bad image"
    );
    assert_eq!(DetectError::Encoding.message(), "recognizer output is not valid UTF-8");
}

#[test]
fn a_failure_can_be_copied() {
    let error = DetectError::Recognition("bad image".to_string());
    assert_eq!(error.clone(), error);
    assert_eq!(DetectError::Encoding.clone(), DetectError::Encoding);
    assert_eq!(DetectError::Io("x".to_string()).clone(), DetectError::Io("x".to_string()));
    assert_eq!(
        DetectError::Capture("y".to_string()).clone(),
        DetectError::Capture("y".to_string())
    );
}
