//! The lines a batch run writes: progress per image, the failures of an
//! image, and the summary at the end.
use vstd::prelude::*;
use vstd::string::*;
use crate::engine::{engine_error_text, EngineError};
use crate::path::{file_name, file_name_of};
use crate::text::{append_decimal, append_signed_decimal, decimal, prefixed, signed_decimal};

verus! {

/// How a file is named in progress lines: its file name, or nothing when
/// the path has none.
pub open spec fn label_of(path: Seq<char>) -> Seq<char> {
    match file_name_of(path) {
        Some(name) => name,
        None => Seq::empty(),
    }
}

/// A progress line names a file by its whole file name, and by nothing
/// when the path has no file name.
pub proof fn progress_label_is_whole_file_name(path: Seq<char>)
    ensures
        file_name_of(path) matches Some(name) ==> label_of(path) == name,
        file_name_of(path) is None ==> label_of(path).len() == 0,
{
}

/// The per-image lines name the image by its whole file name: for a path
/// with file name `name`, the started, ended and ok lines are the prefix
/// followed by exactly `name`.
pub proof fn image_lines_show_whole_file_name(path: String)
    requires
        file_name_of(path@) is Some,
    ensures
        message_text(Message::Started(path)) == "started: "@ + file_name_of(path@)->0,
        message_text(Message::Ended(path)) == "ended: "@ + file_name_of(path@)->0,
        message_text(Message::Succeeded(path)) == "ok: "@ + file_name_of(path@)->0,
{
}

/// The name a progress line gives the file at `path`.
pub fn display_name(path: &str) -> (r: &str)
    ensures
        r@ == label_of(path@),
{
    match file_name(path) {
        Some(name) => name,
        None => {
            proof {
                reveal_strlit("");
            }
            ""
        },
    }
}

/// Something a batch run reports.
#[derive(Debug, PartialEq, Eq)]
pub enum Message {
    /// The input directory (given) does not exist or is not a directory.
    MissingInput(String),
    /// The input directory (given) holds no supported image.
    NoImages(String),
    /// This many images were found in the input directory (given).
    Found(usize, String),
    /// The engine could not be made ready.
    EngineInit(EngineError),
    /// Work on the image at this path began.
    Started(String),
    /// Work on the image at this path ended.
    Ended(String),
    /// The image at this path was processed.
    Succeeded(String),
    /// The image at this path was skipped, for this reason.
    Skipped(String, String),
    /// The task of an image panicked, with this detail.
    Panicked(String),
    /// The run is over: this many images succeeded and this many failed.
    Done(u32, u32),
    /// Reading the input at this path failed with this I/O error text.
    ReadFailed(String, String),
    /// Writing the output at this path failed with this I/O error text.
    WriteFailed(String, String),
}

/// The text of a message.
pub open spec fn message_text(m: Message) -> Seq<char> {
    match m {
        Message::MissingInput(dir) => "input directory does not exist or is not a directory: "@
            + dir@,
        Message::NoImages(dir) => "no supported images found in "@ + dir@,
        Message::Found(n, dir) => "found "@ + decimal(n as nat) + " images in "@ + dir@,
        Message::EngineInit(e) => "failed to initialize engine: "@ + engine_error_text(e),
        Message::Started(p) => "started: "@ + label_of(p@),
        Message::Ended(p) => "ended: "@ + label_of(p@),
        Message::Succeeded(p) => "ok: "@ + label_of(p@),
        Message::Skipped(p, reason) => "skip: "@ + label_of(p@) + " ("@ + reason@ + ")"@,
        Message::Panicked(detail) => "fail: task panicked: "@ + detail@,
        Message::Done(ok, failed) => "done: "@ + decimal(ok as nat) + " succeeded, "@ + decimal(
            failed as nat,
        ) + " failed"@,
        Message::ReadFailed(p, err) => "failed to read "@ + p@ + ": "@ + err@,
        Message::WriteFailed(p, err) => "failed to write "@ + p@ + ": "@ + err@,
    }
}

impl Message {
    /// The text of this message.
    pub fn text(&self) -> (r: String)
        ensures
            r@ == message_text(*self),
    {
        match self {
            Message::MissingInput(dir) => {
                let mut r = String::from_str(
                    "input directory does not exist or is not a directory: ",
                );
                r.append(dir.as_str());
                r
            },
            Message::NoImages(dir) => {
                let mut r = String::from_str("no supported images found in ");
                r.append(dir.as_str());
                r
            },
            Message::Found(n, dir) => {
                let mut r = String::from_str("found ");
                append_decimal(&mut r, *n as u64);
                r.append(" images in ");
                r.append(dir.as_str());
                r
            },
            Message::EngineInit(e) => {
                let mut r = String::from_str("failed to initialize engine: ");
                let m = e.message();
                r.append(m.as_str());
                r
            },
            Message::Started(p) => {
                let mut r = String::from_str("started: ");
                r.append(display_name(p.as_str()));
                r
            },
            Message::Ended(p) => {
                let mut r = String::from_str("ended: ");
                r.append(display_name(p.as_str()));
                r
            },
            Message::Succeeded(p) => {
                let mut r = String::from_str("ok: ");
                r.append(display_name(p.as_str()));
                r
            },
            Message::Skipped(p, reason) => {
                let mut r = String::from_str("skip: ");
                r.append(display_name(p.as_str()));
                r.append(" (");
                r.append(reason.as_str());
                r.append(")");
                r
            },
            Message::Panicked(detail) => {
                let mut r = String::from_str("fail: task panicked: ");
                r.append(detail.as_str());
                r
            },
            Message::Done(ok, failed) => {
                let mut r = String::from_str("done: ");
                append_decimal(&mut r, *ok as u64);
                r.append(" succeeded, ");
                append_decimal(&mut r, *failed as u64);
                r.append(" failed");
                r
            },
            Message::ReadFailed(p, err) => {
                let mut r = String::from_str("failed to read ");
                r.append(p.as_str());
                r.append(": ");
                r.append(err.as_str());
                r
            },
            Message::WriteFailed(p, err) => {
                let mut r = String::from_str("failed to write ");
                r.append(p.as_str());
                r.append(": ");
                r.append(err.as_str());
                r
            },
        }
    }
}

/// Why an image was skipped when the engine failed on it.
pub open spec fn failure_reason_text(e: EngineError) -> Seq<char> {
    match e {
        EngineError::EngineUnavailable(m) => "engine unavailable: "@ + m@,
        EngineError::NonZeroExit(code) => "engine exit code "@ + signed_decimal(code as int),
        EngineError::SpawnFailed(m) => "spawn failed: "@ + m@,
        EngineError::ModelLoad(m) => "model load failed: "@ + m@,
        EngineError::Decode(m) => "decode failed: "@ + m@,
        EngineError::Native(m) => "native engine failed: "@ + m@,
        EngineError::Encode(m) => "encode failed: "@ + m@,
    }
}

/// The reason given for skipping an image on which the engine failed.
pub fn failure_reason(err: &EngineError) -> (r: String)
    ensures
        r@ == failure_reason_text(*err),
{
    match err {
        EngineError::EngineUnavailable(m) => prefixed("engine unavailable: ", m),
        EngineError::NonZeroExit(code) => {
            let mut r = String::from_str("engine exit code ");
            append_signed_decimal(&mut r, *code as i64);
            r
        },
        EngineError::SpawnFailed(m) => prefixed("spawn failed: ", m),
        EngineError::ModelLoad(m) => prefixed("model load failed: ", m),
        EngineError::Decode(m) => prefixed("decode failed: ", m),
        EngineError::Native(m) => prefixed("native engine failed: ", m),
        EngineError::Encode(m) => prefixed("encode failed: ", m),
    }
}

} // verus!
