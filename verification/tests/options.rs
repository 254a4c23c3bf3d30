use pbr_kernel::options::{LogLevel, Options, Rect};
use std::str::FromStr;

const RECT_ERROR: &str = "Invalid rect.  Expected format: x0,x1,y0,y1";

#[test]
fn rect_reads_four_numbers() {
    assert_eq!(Rect::parse("1,2,3,4"), Ok(Rect { min_x: 1, max_x: 2, min_y: 3, max_y: 4 }));
    assert_eq!(
        Rect::parse("0,4294967295,007,+9"),
        Ok(Rect { min_x: 0, max_x: 4294967295, min_y: 7, max_y: 9 })
    );
}

#[test]
fn rect_ignores_what_follows_the_fourth_number() {
    assert_eq!(Rect::parse("1,2,3,4,5"), Ok(Rect { min_x: 1, max_x: 2, min_y: 3, max_y: 4 }));
    assert_eq!(Rect::parse("1,2,3,4,"), Ok(Rect { min_x: 1, max_x: 2, min_y: 3, max_y: 4 }));
    assert_eq!(Rect::parse("1,2,3,4,x"), Ok(Rect { min_x: 1, max_x: 2, min_y: 3, max_y: 4 }));
}

#[test]
fn rect_rejects_what_is_no_rectangle() {
    for text in [
        "",
        "1",
        "1,2,3",
        "1,2,3,",
        ",,,",
        "1,2,3,x",
        "1, 2,3,4",
        "1,2,3,-4",
        "1,2,3,4294967296",
        "1,2,3,99999999999999999999999",
        "1,2,3,+",
        "1,2,3,4.0",
        "a,b,c,d",
        "1;2;3;4",
        "1,2,3,４",
    ] {
        assert_eq!(Rect::parse(text), Err(RECT_ERROR.to_string()), "{:?}", text);
    }
}

#[test]
fn rect_parses_as_a_from_str() {
    assert_eq!("5,6,7,8".parse::<Rect>(), Ok(Rect { min_x: 5, max_x: 6, min_y: 7, max_y: 8 }));
    assert_eq!(Rect::from_str("nope"), Err(RECT_ERROR.to_string()));
    assert_eq!(Rect::default(), Rect { min_x: 0, max_x: 0, min_y: 0, max_y: 0 });
}

#[test]
fn log_level_reads_names_and_numbers() {
    assert_eq!(LogLevel::parse("0"), Ok(LogLevel::Info));
    assert_eq!(LogLevel::parse("info"), Ok(LogLevel::Info));
    assert_eq!(LogLevel::parse("1"), Ok(LogLevel::Warning));
    assert_eq!(LogLevel::parse("warn"), Ok(LogLevel::Warning));
    assert_eq!(LogLevel::parse("warning"), Ok(LogLevel::Warning));
    assert_eq!(LogLevel::parse("2"), Ok(LogLevel::Error));
    assert_eq!(LogLevel::parse("error"), Ok(LogLevel::Error));
    assert_eq!(LogLevel::parse("3"), Ok(LogLevel::Fatal));
    assert_eq!(LogLevel::parse("fatal"), Ok(LogLevel::Fatal));
}

#[test]
fn log_level_reads_any_case() {
    assert_eq!(LogLevel::parse("INFO"), Ok(LogLevel::Info));
    assert_eq!(LogLevel::parse("Warning"), Ok(LogLevel::Warning));
    assert_eq!(LogLevel::parse("eRRoR"), Ok(LogLevel::Error));
    assert_eq!(LogLevel::from_str("FATAL"), Ok(LogLevel::Fatal));
    assert_eq!("Warn".parse::<LogLevel>(), Ok(LogLevel::Warning));
}

#[test]
fn log_level_rejects_other_words() {
    for text in ["", "4", "information", " info", "info ", "warnings", "-1", "ınfo"] {
        assert_eq!(LogLevel::parse(text), Err("Unrecognized log level".to_string()), "{:?}", text);
    }
}

#[test]
fn lower_case_reader_does_not_fold_case() {
    assert_eq!(LogLevel::from_lowercase("info"), Ok(LogLevel::Info));
    assert_eq!(LogLevel::from_lowercase("INFO"), Err("Unrecognized log level".to_string()));
}

#[test]
fn options_hold_what_was_asked_for() {
    let options = Options {
        crop_window: Some(Rect { min_x: 0, max_x: 10, min_y: 0, max_y: 5 }),
        threads: Some(4),
        out_file: None,
        quick: false,
        quiet: true,
        log_directory: None,
        log_to_stderr: false,
        min_log_level: LogLevel::Warning,
        verbosity: 2,
        cat: false,
        toply: false,
        input_files: vec![std::path::PathBuf::from("scene.pbrt")],
    };
    assert_eq!(options.crop_window.unwrap().max_x, 10);
    assert_eq!(options.min_log_level, LogLevel::Warning);
    assert_eq!(options.input_files.len(), 1);
}
