use rogue_core::log_level::{convert_log_level, LevelFilter};

#[test]
fn filter_words_name_levels() {
    assert_eq!(convert_log_level("off"), Some(LevelFilter::Off));
    assert_eq!(convert_log_level("O"), Some(LevelFilter::Off));
    assert_eq!(convert_log_level("Error"), Some(LevelFilter::Error));
    assert_eq!(convert_log_level("e"), Some(LevelFilter::Error));
    assert_eq!(convert_log_level("WARN"), Some(LevelFilter::Warn));
    assert_eq!(convert_log_level("w"), Some(LevelFilter::Warn));
    assert_eq!(convert_log_level("info"), Some(LevelFilter::Info));
    assert_eq!(convert_log_level("I"), Some(LevelFilter::Info));
    assert_eq!(convert_log_level("DeBuG"), Some(LevelFilter::Debug));
    assert_eq!(convert_log_level("d"), Some(LevelFilter::Debug));
    assert_eq!(convert_log_level("trace"), Some(LevelFilter::Trace));
    assert_eq!(convert_log_level("t"), Some(LevelFilter::Trace));
    assert_eq!(convert_log_level("verbose"), None);
    assert_eq!(convert_log_level("er"), None);
    assert_eq!(convert_log_level(""), None);
}
