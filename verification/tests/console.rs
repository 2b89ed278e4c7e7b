use cpstt::fileio::{ExecutionSettings, LoggingSettings, SettingsClass};
use cpstt::print_console::{PrintColorize, PrintError};
use cpstt::report::{dump, mark_breaks, progress_line, restore_breaks};
use cpstt::text::{from_chars, to_chars};

fn execution(max_len: i32, max_line: i32) -> ExecutionSettings {
    ExecutionSettings {
        max_output_len: max_len,
        max_output_line: max_line,
        time_limit: 2000,
        bin_extension: "out".to_string(),
    }
}

#[test]
fn colours_wrap_the_message_in_escape_sequences() {
    assert_eq!(PrintColorize::print_green("AC".to_string()), "\x1b[1;32mAC\x1b[0m");
    assert_eq!(PrintColorize::print_yellow("WA".to_string()), "\x1b[1;33mWA\x1b[0m");
    assert_eq!(PrintColorize::print_cyan("[ test ]".to_string()), "\x1b[1;36m[ test ]\x1b[0m");
    assert_eq!(PrintColorize::print_green(String::new()), "\x1b[1;32m\x1b[0m");
}

#[test]
fn diagnostics_carry_a_coloured_label() {
    let error = PrintError::print_error("It seems compile error".to_string());
    assert_eq!(error.line, "\x1b[1;31mError\x1b[0m: It seems compile error");
    let warning = PrintError::print_warning("slow".to_string());
    assert_eq!(warning.line, "\x1b[1;33mWarning\x1b[0m: slow");
}

#[test]
fn progress_line_of_a_run_within_the_limit() {
    let line = progress_line("smart", 0, 1, 2, false, 12);
    assert_eq!(line, "\x1b[1;36m[ smart ]\x1b[0m testcase::01 ( 1/ 2) is done. (0.012 sec)");
}

#[test]
fn progress_line_of_a_run_beyond_the_limit() {
    let line = progress_line("stupid", 11, 100, 120, true, 2000);
    assert_eq!(
        line,
        "\x1b[1;36m[ stupid ]\x1b[0m testcase::12 (100/120) is \x1b[1;33mTLE\x1b[0m. (2.000 sec)"
    );
}

#[test]
fn progress_line_counts_seconds_and_milliseconds() {
    let line = progress_line("smart", 98, 99, 99, false, 61_005);
    assert_eq!(line, "\x1b[1;36m[ smart ]\x1b[0m testcase::99 (99/99) is done. (61.005 sec)");
}

#[test]
fn every_line_break_is_marked() {
    let marked = from_chars(&mark_breaks(&to_chars("a\nb\n")));
    assert_eq!(marked, "a\x1b[33m\\n\x1b[mb\x1b[33m\\n\x1b[m");
    assert_eq!(from_chars(&mark_breaks(&to_chars(""))), "");
}

#[test]
fn the_first_marks_become_line_breaks_again() {
    let marked = mark_breaks(&to_chars("a\nb\nc\n"));
    assert_eq!(from_chars(&restore_breaks(&marked, Some(0))), "a\x1b[33m\\n\x1b[mb\x1b[33m\\n\x1b[mc\x1b[33m\\n\x1b[m");
    assert_eq!(from_chars(&restore_breaks(&marked, Some(2))), "a\nb\nc\x1b[33m\\n\x1b[m");
    assert_eq!(from_chars(&restore_breaks(&marked, Some(7))), "a\nb\nc\n");
    assert_eq!(from_chars(&restore_breaks(&marked, None)), "a\nb\nc\n");
}

#[test]
fn short_output_is_shown_in_full() {
    assert_eq!(dump("1 2 3\n", &execution(100, 3)), "1 2 3\n");
    assert_eq!(dump("", &execution(1, 3)), "");
    assert_eq!(dump("anything\nat\nall\n", &execution(-1, 1)), "anything\nat\nall\n");
}

#[test]
fn long_output_is_cut_and_spread_over_the_configured_lines() {
    let shown = dump("1\n2\n3\n4\n", &execution(8, 3));
    assert_eq!(
        shown,
        "Output data is too large. (content-size: 8)\n1\n2\n3\x1b[3\x1b[m\n......\n"
    );
}

#[test]
fn later_line_breaks_of_long_output_are_shown_as_marks() {
    let shown = dump("1\n2\n3\nxxxxxxxxxxxxxxxxxxxx", &execution(15, 3));
    assert_eq!(
        shown,
        "Output data is too large. (content-size: 26)\n1\n2\n3\x1b[33m\\n\x1b[m\x1b[m\n......\n"
    );
}

#[test]
fn output_of_exactly_the_limit_is_long_and_shown_whole() {
    let shown = dump("abcd", &execution(4, 3));
    assert_eq!(shown, "Output data is too large. (content-size: 4)\nabcd\x1b[m\n......\n");
}

#[test]
fn long_output_keeps_every_break_without_a_line_limit() {
    let shown = dump("a\nb\nc\n", &execution(5, 0));
    assert_eq!(shown, "Output data is too large. (content-size: 6)\na\nb\nc\x1b[m\n......\n");
}

#[test]
fn size_of_long_output_is_counted_in_bytes() {
    let shown = dump("\u{e9}\u{e9}\u{e9}", &execution(4, 1));
    assert_eq!(
        shown,
        "Output data is too large. (content-size: 6)\n\u{e9}\u{e9}\u{e9}\x1b[m\n......\n"
    );
}

#[test]
fn settings_hold_what_they_are_given() {
    let settings = SettingsClass {
        execution: execution(1000, 10),
        logging: LoggingSettings { dump_exe_result: true },
    };
    assert_eq!(settings.execution.max_output_len, 1000);
    assert_eq!(settings.execution.max_output_line, 10);
    assert_eq!(settings.execution.time_limit, 2000);
    assert_eq!(settings.execution.bin_extension, "out");
    assert!(settings.logging.dump_exe_result);
}
