use cord_ripper::logging::{
    current_log_level, format_line, is_logged, level_of_name, log_level_from_str, set_log_level, Logger,
    DEBUG, ERROR, INFO, TRACE, WARN,
};

#[test]
fn levels_are_ordered() {
    assert_eq!((TRACE, DEBUG, INFO, WARN, ERROR), (0, 1, 2, 3, 4));
}

#[test]
fn level_names_are_read_in_any_case() {
    assert_eq!(log_level_from_str("trace"), Some(TRACE));
    assert_eq!(log_level_from_str("DEBUG"), Some(DEBUG));
    assert_eq!(log_level_from_str("Info"), Some(INFO));
    assert_eq!(log_level_from_str("warn"), Some(WARN));
    assert_eq!(log_level_from_str("WARNING"), Some(WARN));
    assert_eq!(log_level_from_str("eRRoR"), Some(ERROR));
}

#[test]
fn unknown_level_names_are_refused() {
    assert_eq!(log_level_from_str(""), None);
    assert_eq!(log_level_from_str("verbose"), None);
    assert_eq!(log_level_from_str(" info"), None);
    assert_eq!(log_level_from_str("2"), None);
}

#[test]
fn level_of_name_wants_lower_case() {
    assert_eq!(level_of_name("info"), Some(INFO));
    assert_eq!(level_of_name("INFO"), None);
}

#[test]
fn logger_starts_at_info() {
    let mut logger = Logger::default();
    assert_eq!(current_log_level(&logger), INFO);
    assert!(!is_logged(&logger, DEBUG));
    assert!(is_logged(&logger, INFO));
    assert!(is_logged(&logger, ERROR));
    set_log_level(&mut logger, TRACE);
    assert_eq!(current_log_level(&logger), TRACE);
    assert!(is_logged(&logger, TRACE));
    set_log_level(&mut logger, 9);
    assert!(!is_logged(&logger, ERROR));
}

#[test]
fn lines_carry_tag_and_colour() {
    assert_eq!(format_line(TRACE, "x"), "\x1b[35m[TRACE]\x1b[0m x");
    assert_eq!(format_line(DEBUG, "x"), "\x1b[34m[DEBUG]\x1b[0m x");
    assert_eq!(format_line(INFO, "Starting server"), "\x1b[32m[INFO]\x1b[0m Starting server");
    assert_eq!(format_line(WARN, ""), "\x1b[33m[WARNING]\x1b[0m ");
    assert_eq!(format_line(ERROR, "é"), "\x1b[31m[ERROR]\x1b[0m é");
}
