use thumbnail_processor::engine::EngineError;
use thumbnail_processor::report::{display_name, failure_reason, Message};

#[test]
fn progress_lines_name_the_file() {
    assert_eq!(Message::Started("/in/Neutral_Front_1.JPG".to_string()).text(), "started: Neutral_Front_1.JPG");
    assert_eq!(Message::Ended("/in/Neutral_Front_1.JPG".to_string()).text(), "ended: Neutral_Front_1.JPG");
    assert_eq!(Message::Succeeded("/in/a.jpg".to_string()).text(), "ok: a.jpg");
    assert_eq!(
        Message::Skipped("/in/a.jpg".to_string(), "engine exit code 3".to_string()).text(),
        "skip: a.jpg (engine exit code 3)"
    );
    assert_eq!(Message::Started("/".to_string()).text(), "started: ");
    assert_eq!(display_name("/in/a.jpg"), "a.jpg");
    assert_eq!(display_name(".."), "");
}

#[test]
fn summary_line() {
    assert_eq!(Message::Done(73, 0).text(), "done: 73 succeeded, 0 failed");
    assert_eq!(Message::Done(0, 4294967295).text(), "done: 0 succeeded, 4294967295 failed");
    assert_eq!(Message::Done(10, 105).text(), "done: 10 succeeded, 105 failed");
}

#[test]
fn run_messages() {
    assert_eq!(Message::Found(3, "/in".to_string()).text(), "found 3 images in /in");
    assert_eq!(Message::NoImages("/in".to_string()).text(), "no supported images found in /in");
    assert_eq!(
        Message::MissingInput("/nonexistent/input".to_string()).text(),
        "input directory does not exist or is not a directory: /nonexistent/input"
    );
    assert_eq!(
        Message::EngineInit(EngineError::ModelLoad("no file".to_string())).text(),
        "failed to initialize engine: failed to load native model: no file"
    );
    assert_eq!(Message::Panicked("boom".to_string()).text(), "fail: task panicked: boom");
    assert_eq!(
        Message::ReadFailed("/in/a.jpg".to_string(), "denied".to_string()).text(),
        "failed to read /in/a.jpg: denied"
    );
    assert_eq!(
        Message::WriteFailed("/out/a.png".to_string(), "full".to_string()).text(),
        "failed to write /out/a.png: full"
    );
}

#[test]
fn failure_reasons() {
    assert_eq!(failure_reason(&EngineError::EngineUnavailable("x".to_string())), "engine unavailable: x");
    assert_eq!(failure_reason(&EngineError::NonZeroExit(-1)), "engine exit code -1");
    assert_eq!(failure_reason(&EngineError::NonZeroExit(2)), "engine exit code 2");
    assert_eq!(failure_reason(&EngineError::SpawnFailed("nf".to_string())), "spawn failed: nf");
    assert_eq!(failure_reason(&EngineError::ModelLoad("m".to_string())), "model load failed: m");
    assert_eq!(failure_reason(&EngineError::Decode("d".to_string())), "decode failed: d");
    assert_eq!(failure_reason(&EngineError::Native("n".to_string())), "native engine failed: n");
    assert_eq!(failure_reason(&EngineError::Encode("e".to_string())), "encode failed: e");
}
