use gcal_imp::command::{parse_command, Command};
use gcal_imp::date::Date;

#[test]
fn parse_quit_command() {
    assert_eq!(parse_command(":q"), Command::Quit);
}

#[test]
fn parse_quit_long_form() {
    assert_eq!(parse_command(":quit"), Command::Quit);
}

#[test]
fn parse_write_command_triggers_sync() {
    assert_eq!(parse_command(":w"), Command::Sync);
}

#[test]
fn parse_write_long_form() {
    assert_eq!(parse_command(":write"), Command::Sync);
}

#[test]
fn parse_goto_command_with_date() {
    let cmd = parse_command(":goto 2025-01-15");
    assert_eq!(cmd, Command::Goto(Date { year: 2025, month: 1, day: 15 }));
}

#[test]
fn parse_goto_command_with_invalid_date_returns_error() {
    let cmd = parse_command(":goto invalid");
    assert!(matches!(cmd, Command::Error(_)));
}

#[test]
fn parse_goto_without_date_returns_error() {
    let cmd = parse_command(":goto");
    assert!(matches!(cmd, Command::Error(_)));
}

#[test]
fn parse_new_event_command() {
    let cmd = parse_command(":new Team meeting");
    assert_eq!(cmd, Command::NewEvent(Some("Team meeting".to_string())));
}

#[test]
fn parse_new_event_with_multiple_words() {
    let cmd = parse_command(":new Sprint planning session tomorrow");
    assert_eq!(cmd, Command::NewEvent(Some("Sprint planning session tomorrow".to_string())));
}

#[test]
fn parse_new_without_title_returns_blank_title() {
    let cmd = parse_command(":new");
    assert_eq!(cmd, Command::NewEvent(None));
}

#[test]
fn parse_calendar_switch_command() {
    let cmd = parse_command(":cal work");
    assert_eq!(cmd, Command::SwitchCalendar("work".to_string()));
}

#[test]
fn parse_calendar_long_form() {
    let cmd = parse_command(":calendar personal");
    assert_eq!(cmd, Command::SwitchCalendar("personal".to_string()));
}

#[test]
fn parse_help_command() {
    assert_eq!(parse_command(":help"), Command::Help);
}

#[test]
fn parse_unknown_command_returns_error() {
    let cmd = parse_command(":unknown");
    assert!(matches!(cmd, Command::Error(_)));
}

#[test]
fn parse_command_without_colon_returns_error() {
    let cmd = parse_command("quit");
    assert!(matches!(cmd, Command::Error(_)));
}

#[test]
fn parse_empty_command_returns_error() {
    let cmd = parse_command(":");
    assert!(matches!(cmd, Command::Error(_)));
}

#[test]
fn error_messages_name_the_problem() {
    assert_eq!(parse_command("quit"), Command::Error("Commands must start with ':'".to_string()));
    assert_eq!(parse_command(":"), Command::Error("Empty command".to_string()));
    assert_eq!(parse_command(":goto"), Command::Error("goto requires a date argument".to_string()));
    assert_eq!(parse_command(":goto 2025-02-30"), Command::Error("Invalid date format: 2025-02-30".to_string()));
    assert_eq!(parse_command(":cal"), Command::Error("cal requires a calendar name".to_string()));
    assert_eq!(parse_command(":theme"), Command::Error("theme requires a theme name".to_string()));
    assert_eq!(parse_command(":frobnicate now"), Command::Error("Unknown command: frobnicate".to_string()));
}

#[test]
fn surrounding_whitespace_is_ignored() {
    assert_eq!(parse_command("   :q  "), Command::Quit);
    assert_eq!(parse_command(":  new   Lunch \t with  Bo "), Command::NewEvent(Some("Lunch with Bo".to_string())));
    assert_eq!(parse_command(":theme nord extra"), Command::Theme("nord".to_string()));
}
