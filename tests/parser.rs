use wflos_boot::shell::{
    command_for_word, parse, Command, KeyAction, LineEditor, MAX_LINE_LENGTH, NO_COMMAND, UNKNOWN_COMMAND,
};

#[test]
fn test_parse_help() {
    let result = parse("help");
    assert!(matches!(result, Ok(Command::Help)));
}

#[test]
fn test_parse_clear() {
    let result = parse("clear");
    assert!(matches!(result, Ok(Command::Clear)));
}

#[test]
fn test_parse_version() {
    let result = parse("version");
    assert!(matches!(result, Ok(Command::Version)));
}

#[test]
fn test_parse_echo() {
    let result = parse("echo hello world");
    if let Ok(Command::Echo(text)) = result {
        assert_eq!(text, "hello world");
    } else {
        panic!("Expected Echo command");
    }
}

#[test]
fn test_parse_empty() {
    let result = parse("");
    assert!(matches!(result, Ok(Command::Empty)));
}

#[test]
fn test_parse_whitespace() {
    let result = parse("   ");
    assert!(matches!(result, Ok(Command::Empty)));
}

#[test]
fn test_parse_unknown() {
    let result = parse("unknown");
    assert!(result.is_err());
}

#[test]
fn test_parse_with_extra_whitespace() {
    let result = parse("  help  ");
    assert!(matches!(result, Ok(Command::Help)));
}

#[test]
fn parse_remaining_commands() {
    assert_eq!(parse("halt"), Ok(Command::Halt));
    assert_eq!(parse("meminfo"), Ok(Command::MemInfo));
    assert_eq!(parse("\thelp extra words\n"), Ok(Command::Help));
}

#[test]
fn parse_echo_edges() {
    assert_eq!(parse("echo"), Ok(Command::Echo("")));
    assert_eq!(parse("  echo   spaced   out  "), Ok(Command::Echo("spaced   out")));
    assert_eq!(parse("unknown"), Err(UNKNOWN_COMMAND));
    assert_eq!(parse("Help"), Err(UNKNOWN_COMMAND));
}

#[test]
fn command_for_word_names() {
    assert_eq!(command_for_word("clear", "x"), Ok(Command::Clear));
    assert_eq!(command_for_word("echo", "x"), Ok(Command::Echo("x")));
    assert_eq!(command_for_word("echoes", "x"), Err(UNKNOWN_COMMAND));
    assert_ne!(NO_COMMAND, UNKNOWN_COMMAND);
}

#[test]
fn line_editor_keys() {
    let mut editor = LineEditor::new();
    assert_eq!(editor.key('\x08'), KeyAction::Ignore);
    assert_eq!(editor.key('h'), KeyAction::Echo('h'));
    assert_eq!(editor.key('x'), KeyAction::Echo('x'));
    assert_eq!(editor.key('\x08'), KeyAction::Erase(1));
    assert_eq!(editor.key('i'), KeyAction::Echo('i'));
    assert_eq!(editor.key('\t'), KeyAction::Ignore);
    assert_eq!(editor.key('\u{e9}'), KeyAction::Ignore);
    assert_eq!(editor.key('\n'), KeyAction::Submit);
    assert_eq!(editor.take_line(), b"hi".to_vec());
    assert_eq!(editor.take_line(), Vec::<u8>::new());
    for _ in 0..MAX_LINE_LENGTH + 5 {
        editor.key('a');
    }
    assert_eq!(editor.key('a'), KeyAction::Ignore);
    assert_eq!(editor.key('\x1B'), KeyAction::Erase(MAX_LINE_LENGTH));
    assert_eq!(editor.take_line(), Vec::<u8>::new());
}
