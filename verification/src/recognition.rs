//! What a text recognizer run produced, and how it is read.
//!
//! The recognizer is an external engine: it is handed an image and answers
//! with an exit status and two byte streams. This module turns that answer
//! into recognized text or into the failure it stands for.
use vstd::prelude::*;
use vstd::string::StringSliceAdditionalSpecFns;
use vstd::utf8::{decode_utf8, encode_utf8_decode_utf8, valid_utf8};

verus! {

/// Why a display could not be scanned.
#[derive(Debug, PartialEq, Eq)]
pub enum DetectError {
    /// Enumerating the displays or capturing one of them failed.
    Capture(String),
    /// A capture artifact could not be written or deleted, or the
    /// recognizer could not be run.
    Io(String),
    /// The recognizer exited unsuccessfully; holds its diagnostic output.
    Recognition(String),
    /// The recognizer's output is not valid UTF-8 text.
    Encoding,
}

/// A [`DetectError`] with its messages as character sequences.
pub enum DetectErrorView {
    Capture(Seq<char>),
    Io(Seq<char>),
    Recognition(Seq<char>),
    Encoding,
}

impl View for DetectError {
    type V = DetectErrorView;

    open spec fn view(&self) -> DetectErrorView {
        match self {
            DetectError::Capture(message) => DetectErrorView::Capture(message@),
            DetectError::Io(message) => DetectErrorView::Io(message@),
            DetectError::Recognition(diagnostic) => DetectErrorView::Recognition(diagnostic@),
            DetectError::Encoding => DetectErrorView::Encoding,
        }
    }
}

impl Clone for DetectError {
    fn clone(&self) -> (copy: Self)
        ensures
            copy@ == self@,
    {
        match self {
            DetectError::Capture(message) => DetectError::Capture(message.clone()),
            DetectError::Io(message) => DetectError::Io(message.clone()),
            DetectError::Recognition(diagnostic) => DetectError::Recognition(diagnostic.clone()),
            DetectError::Encoding => DetectError::Encoding,
        }
    }
}

/// The text that describes `error` to a reader of the log.
pub open spec fn message_of(error: DetectErrorView) -> Seq<char> {
    match error {
        DetectErrorView::Capture(message) => "screen capture failed: "@ + message,
        DetectErrorView::Io(message) => "i/o failed: "@ + message,
        DetectErrorView::Recognition(diagnostic) => "tesseract stderr: "@ + diagnostic,
        DetectErrorView::Encoding => "recognizer output is not valid UTF-8"@,
    }
}

impl DetectError {
    /// A one-line description of the failure.
    pub fn message(&self) -> (text: String)
        ensures
            text@ == message_of(self@),
    {
        match self {
            DetectError::Capture(message) => String::from_str("screen capture failed: ").concat(
                message.as_str(),
            ),
            DetectError::Io(message) => String::from_str("i/o failed: ").concat(
                message.as_str(),
            ),
            DetectError::Recognition(diagnostic) => String::from_str("tesseract stderr: ").concat(
                diagnostic.as_str(),
            ),
            DetectError::Encoding => String::from_str("recognizer output is not valid UTF-8"),
        }
    }
}

/// The answer of one recognizer run on one capture artifact.
#[derive(Debug, PartialEq, Eq)]
pub struct RecognizerOutput {
    /// Whether the engine exited with status zero.
    pub success: bool,
    /// The bytes the engine wrote to its standard output.
    pub stdout: Vec<u8>,
    /// The bytes the engine wrote to its standard error.
    pub stderr: Vec<u8>,
}

/// What a recognizer answer means: the recognized text when the engine
/// succeeded and its output is text; otherwise the failure.
///
/// A run that failed reports its diagnostics, unless those are not text
/// either.
pub open spec fn recognition(output: RecognizerOutput) -> Result<Seq<char>, DetectErrorView> {
    if output.success {
        if valid_utf8(output.stdout@) {
            Ok(decode_utf8(output.stdout@))
        } else {
            Err(DetectErrorView::Encoding)
        }
    } else {
        if valid_utf8(output.stderr@) {
            Err(DetectErrorView::Recognition(decode_utf8(output.stderr@)))
        } else {
            Err(DetectErrorView::Encoding)
        }
    }
}

/// The view of a recognition result: text and failure as character sequences.
pub open spec fn text_view(result: Result<String, DetectError>) -> Result<
    Seq<char>,
    DetectErrorView,
> {
    match result {
        Ok(text) => Ok(text@),
        Err(error) => Err(error@),
    }
}

/// `std::str::from_utf8`, with its error dropped: the bytes are accepted
/// exactly when they are well-formed UTF-8, and the string slice that comes
/// back consists of those same bytes.
#[verifier::external_body]
fn utf8_text(bytes: &[u8]) -> (text: Option<&str>)
    ensures
        text is Some <==> valid_utf8(bytes@),
        text matches Some(t) ==> t.spec_bytes() == bytes@,
{
    std::str::from_utf8(bytes).ok()
}

/// Decodes `bytes` as UTF-8 text.
pub fn decode_text(bytes: &Vec<u8>) -> (text: Option<String>)
    ensures
        text is Some <==> valid_utf8(bytes@),
        text matches Some(t) ==> t@ == decode_utf8(bytes@),
{
    match utf8_text(bytes.as_slice()) {
        Some(t) => {
            proof {
                encode_utf8_decode_utf8(t@);
            }
            Some(String::from_str(t))
        },
        None => None,
    }
}

/// Reads a recognizer answer: the recognized text, or the failure.
pub fn recognized_text(output: &RecognizerOutput) -> (result: Result<String, DetectError>)
    ensures
        text_view(result) == recognition(*output),
{
    if output.success {
        match decode_text(&output.stdout) {
            Some(text) => Ok(text),
            None => Err(DetectError::Encoding),
        }
    } else {
        match decode_text(&output.stderr) {
            Some(diagnostic) => Err(DetectError::Recognition(diagnostic)),
            None => Err(DetectError::Encoding),
        }
    }
}

} // verus!
