use gettype::hotkey::{
    digit_key, f_key, letter_key, parse_hotkey, parse_key, Hotkey, KeyCode, Modifiers,
};

fn mods(alt: bool, meta: bool, control: bool, shift: bool) -> Modifiers {
    Modifiers { alt, meta, control, shift }
}

#[test]
fn parses_default_shortcut() {
    assert_eq!(
        parse_hotkey("Option+Space"),
        Ok(Hotkey { modifiers: mods(true, false, false, false), key: KeyCode::Space })
    );
}

#[test]
fn parses_command_shift_letter() {
    assert_eq!(
        parse_hotkey("Command+Shift+K"),
        Ok(Hotkey { modifiers: mods(false, true, false, true), key: KeyCode::Letter('k') })
    );
}

#[test]
fn names_and_spacing_are_forgiving() {
    assert_eq!(
        parse_hotkey(" ctrl + ALT + f5 "),
        Ok(Hotkey { modifiers: mods(true, false, true, false), key: KeyCode::Function(5) })
    );
    assert_eq!(
        parse_hotkey("cmd+meta+1"),
        Ok(Hotkey { modifiers: mods(false, true, false, false), key: KeyCode::Digit('1') })
    );
    assert_eq!(parse_hotkey("Escape"), Ok(Hotkey { modifiers: mods(false, false, false, false), key: KeyCode::Escape }));
}

#[test]
fn rejects_empty_part() {
    assert_eq!(
        parse_hotkey("Option++Space"),
        Err("invalid hotkey \"Option++Space\" (empty part)".to_string())
    );
    assert_eq!(parse_hotkey(""), Err("invalid hotkey \"\" (empty part)".to_string()));
}

#[test]
fn rejects_two_keys_and_no_key() {
    assert_eq!(
        parse_hotkey("Option+A+B"),
        Err("invalid hotkey \"Option+A+B\" (more than one key)".to_string())
    );
    assert_eq!(
        parse_hotkey("Option+Shift"),
        Err("invalid hotkey \"Option+Shift\" (no key)".to_string())
    );
}

#[test]
fn rejects_unknown_key() {
    assert_eq!(
        parse_hotkey("Option+Banana"),
        Err("unsupported hotkey key: \"Banana\"".to_string())
    );
    assert_eq!(parse_key("F25"), Err("unsupported hotkey key: \"F25\"".to_string()));
    assert_eq!(parse_key("F0"), Err("unsupported hotkey key: \"F0\"".to_string()));
}

#[test]
fn named_and_punctuation_keys() {
    assert_eq!(parse_key("Return"), Ok(KeyCode::Enter));
    assert_eq!(parse_key("ArrowLeft"), Ok(KeyCode::ArrowLeft));
    assert_eq!(parse_key("pagedown"), Ok(KeyCode::PageDown));
    assert_eq!(parse_key(","), Ok(KeyCode::Comma));
    assert_eq!(parse_key("\\"), Ok(KeyCode::Backslash));
    assert_eq!(parse_key("Backquote"), Ok(KeyCode::Backquote));
}

#[test]
fn function_keys_and_single_characters() {
    assert_eq!(parse_key("F1"), Ok(KeyCode::Function(1)));
    assert_eq!(parse_key("f24"), Ok(KeyCode::Function(24)));
    assert_eq!(parse_key("F07"), Ok(KeyCode::Function(7)));
    assert_eq!(parse_key("F"), Ok(KeyCode::Letter('f')));
    assert_eq!(parse_key("z"), Ok(KeyCode::Letter('z')));
    assert_eq!(parse_key("7"), Ok(KeyCode::Digit('7')));
}

#[test]
fn key_tables() {
    assert_eq!(f_key(1), KeyCode::Function(1));
    assert_eq!(f_key(23), KeyCode::Function(23));
    assert_eq!(f_key(24), KeyCode::Function(24));
    assert_eq!(letter_key('q'), Some(KeyCode::Letter('q')));
    assert_eq!(letter_key('Q'), None);
    assert_eq!(digit_key('0'), Some(KeyCode::Digit('0')));
    assert_eq!(digit_key('x'), None);
}

#[test]
fn case_does_not_matter() {
    assert_eq!(parse_hotkey("OPTION+SPACE"), parse_hotkey("option+space"));
    assert!(parse_hotkey("OPTION+BANANA").is_err() && parse_hotkey("option+banana").is_err());
}

#[test]
fn valid_exactly_with_one_key_and_no_empty_part() {
    assert_eq!(parse_hotkey("Shift+"), Err("invalid hotkey \"Shift+\" (empty part)".to_string()));
    assert_eq!(parse_hotkey("A+B"), Err("invalid hotkey \"A+B\" (more than one key)".to_string()));
    assert_eq!(parse_hotkey("Shift"), Err("invalid hotkey \"Shift\" (no key)".to_string()));
    assert_eq!(parse_hotkey(" shift + ctrl + k ").unwrap().key, KeyCode::Letter('k'));
    assert!(parse_hotkey("Ctrl+Nope").is_err());
}
