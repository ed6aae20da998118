use owl_tracker::menu::{menu_action, menu_choice, MenuAction, NO_CHOICE};

#[test]
fn choices_are_read_from_lines() {
    assert_eq!(menu_choice("3\n"), 3);
    assert_eq!(menu_choice("  +7 \r\n"), 7);
    assert_eq!(menu_choice("abc\n"), NO_CHOICE);
    assert_eq!(menu_choice(""), NO_CHOICE);
    assert_eq!(menu_choice("\n"), NO_CHOICE);
    assert_eq!(menu_choice("4294967295"), 4294967295);
    assert_eq!(menu_choice("4294967296"), NO_CHOICE);
    assert_eq!(menu_choice("-1"), NO_CHOICE);
    assert_eq!(menu_choice("+"), NO_CHOICE);
    assert_eq!(menu_choice("1 2"), NO_CHOICE);
    assert_eq!(menu_choice("\u{3000}12\u{a0}"), 12);
    assert_eq!(menu_choice("007"), 7);
}

#[test]
fn choices_are_read_as_trim_and_parse_read_them() {
    let lines = [
        "1", " 2 ", "\t3\n", "+4", "++4", "-0", "0", "00000000000000000000001", "99999999999",
        "12a", "a12", "\u{2003}5\u{2029}", "\u{200b}5", "٣", "", " ", "1000000000",
    ];
    for line in lines {
        let expected = line.trim().parse::<u32>().unwrap_or(1000000000);
        assert_eq!(menu_choice(line), expected, "{:?}", line);
    }
}

#[test]
fn numerals_read_back() {
    for n in [0u32, 1, 4, 20, 65535, 1000000000, u32::MAX] {
        assert_eq!(menu_choice(&format!(" {}\n", n)), n);
    }
}

#[test]
fn menu_answers_choices() {
    assert_eq!(menu_action(NO_CHOICE), MenuAction::AskAgain);
    assert_eq!(menu_action(1), MenuAction::NextMatch);
    assert_eq!(menu_action(2), MenuAction::TeamInfo);
    assert_eq!(menu_action(3), MenuAction::Rankings);
    assert_eq!(menu_action(4), MenuAction::Quit);
    assert_eq!(menu_action(0), MenuAction::Invalid);
    assert_eq!(menu_action(5), MenuAction::Invalid);
}
