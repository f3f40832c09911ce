use mongodbtui::connections::{
    connection_line, load_connections, overwrite_connections, parse_connection_input,
    parse_connection_line, parse_connection_update, save_connection, split_trimmed,
    update_connection, ConnectionInputError,
};
use mongodbtui::app::Connection;
use mongodbtui::help::{count_lines, scroll_limit, HELP_TEXT};
use mongodbtui::text::{
    blank, clamp_cursor, join, inner_end_pos, insert_char, is_braced_object, remove_char, split,
    to_chars, trim,
};

fn conn(id: usize, uri: &str, name: &str) -> Connection {
    Connection { id, uri: uri.to_string(), name: name.to_string() }
}

#[test]
fn to_chars_keeps_every_character() {
    assert_eq!(to_chars("aé✔"), vec!['a', 'é', '✔']);
    assert_eq!(to_chars(""), Vec::<char>::new());
}

#[test]
fn trim_drops_white_space_at_both_ends() {
    assert_eq!(trim("  a b \t\n"), "a b");
    assert_eq!(trim("\u{a0}x\u{2003}"), "x");
    assert_eq!(trim("   "), "");
    assert_eq!(trim(""), "");
    assert_eq!(trim("abc"), "abc");
}

#[test]
fn blank_is_true_of_white_space_only() {
    assert!(blank(""));
    assert!(blank(" \t\r\n"));
    assert!(!blank(" . "));
}

#[test]
fn split_keeps_empty_pieces() {
    assert_eq!(split("a;b;c", ';'), vec!["a", "b", "c"]);
    assert_eq!(split("", ';'), vec![""]);
    assert_eq!(split(";", ';'), vec!["", ""]);
    assert_eq!(split("a;;b;", ';'), vec!["a", "", "b", ""]);
    assert_eq!(split("no separator", ';'), vec!["no separator"]);
}

#[test]
fn braced_object_is_recognised_after_trimming() {
    assert!(is_braced_object("{}"));
    assert!(is_braced_object("  { \"a\": 1 }  "));
    assert!(!is_braced_object("{"));
    assert!(!is_braced_object("}"));
    assert!(!is_braced_object(""));
    assert!(!is_braced_object("a{}"));
    assert!(!is_braced_object("{}a"));
}

#[test]
fn inner_end_is_before_the_closing_brace() {
    assert_eq!(inner_end_pos("{}"), 1);
    assert_eq!(inner_end_pos("{\"a\": 1}"), 7);
    assert_eq!(inner_end_pos("abc"), 3);
    assert_eq!(inner_end_pos(""), 0);
    assert_eq!(inner_end_pos(" {é} "), 4);
}

#[test]
fn clamp_cursor_stops_at_the_end() {
    assert_eq!(clamp_cursor(0, "abc"), 0);
    assert_eq!(clamp_cursor(2, "abc"), 2);
    assert_eq!(clamp_cursor(3, "abc"), 3);
    assert_eq!(clamp_cursor(9, "abc"), 3);
    assert_eq!(clamp_cursor(2, "é"), 1);
}

#[test]
fn insert_and_remove_work_by_characters() {
    assert_eq!(insert_char("aé", 1, 'x'), "axé");
    assert_eq!(insert_char("aé", 2, 'x'), "aéx");
    assert_eq!(insert_char("", 0, '✔'), "✔");
    assert_eq!(remove_char("aéb", 1), "ab");
    assert_eq!(remove_char("aéb", 2), "aé");
    assert_eq!(join("ab", "cd"), "abcd");
}

#[test]
fn split_trimmed_trims_the_whole_and_each_piece() {
    assert_eq!(split_trimmed("  a ; b;c  "), vec!["a", "b", "c"]);
    assert_eq!(split_trimmed("   "), vec![""]);
}

#[test]
fn connection_input_needs_two_pieces() {
    assert_eq!(
        parse_connection_input(" mongodb://localhost:27017 ; local "),
        Some(("mongodb://localhost:27017".to_string(), "local".to_string()))
    );
    assert_eq!(parse_connection_input("only-one"), None);
    assert_eq!(parse_connection_input("a;b;c"), None);
    assert_eq!(parse_connection_input(";name"), None);
    assert_eq!(parse_connection_input("uri;"), None);
    assert_eq!(parse_connection_input("uri;   "), None);
    assert_eq!(parse_connection_input(""), None);
}

#[test]
fn connection_update_is_read_or_refused() {
    assert_eq!(parse_connection_update("7; mongodb://h ; home "), Ok(conn(7, "mongodb://h", "home")));
    assert_eq!(parse_connection_update("+7;u;n"), Ok(conn(7, "u", "n")));
    assert_eq!(parse_connection_update("007;u;n"), Ok(conn(7, "u", "n")));
    assert_eq!(parse_connection_update("7;u"), Err(ConnectionInputError::InvalidFormat));
    assert_eq!(parse_connection_update("7;u;n;x"), Err(ConnectionInputError::InvalidFormat));
    assert_eq!(parse_connection_update("x;u;n"), Err(ConnectionInputError::IdNotNumber));
    assert_eq!(parse_connection_update("-1;u;n"), Err(ConnectionInputError::IdNotNumber));
    assert_eq!(parse_connection_update(";u;n"), Err(ConnectionInputError::IdNotNumber));
    assert_eq!(
        parse_connection_update("99999999999999999999999999;u;n"),
        Err(ConnectionInputError::IdNotNumber)
    );
    assert_eq!(parse_connection_update("7;u;"), Err(ConnectionInputError::EmptyName));
    assert_eq!(parse_connection_update("7;;n"), Err(ConnectionInputError::EmptyUri));
    assert_eq!(parse_connection_update("7;;"), Err(ConnectionInputError::EmptyName));
}

#[test]
fn connection_error_messages() {
    assert_eq!(ConnectionInputError::InvalidFormat.message(), "Invalid input format");
    assert_eq!(ConnectionInputError::IdNotNumber.message(), "ID must be a number");
    assert_eq!(ConnectionInputError::EmptyName.message(), "Connection name cannot be empty");
    assert_eq!(ConnectionInputError::EmptyUri.message(), "URI cannot be empty");
}

#[test]
fn update_connection_replaces_by_identifier() {
    let mut list = vec![conn(1, "u1", "one"), conn(2, "u2", "two"), conn(3, "u3", "three")];
    assert_eq!(update_connection("2;v2;deux", &mut list), Ok(()));
    assert_eq!(list, vec![conn(1, "u1", "one"), conn(3, "u3", "three"), conn(2, "v2", "deux")]);
    assert_eq!(update_connection("9;u9;nine", &mut list), Ok(()));
    assert_eq!(list.len(), 4);
    assert_eq!(list[3], conn(9, "u9", "nine"));
}

#[test]
fn update_connection_leaves_the_list_when_refused() {
    let mut list = vec![conn(1, "u1", "one")];
    assert_eq!(update_connection("1;u1", &mut list), Err(ConnectionInputError::InvalidFormat));
    assert_eq!(list, vec![conn(1, "u1", "one")]);
}

#[test]
fn connection_lines_round_trip() {
    assert_eq!(connection_line(&conn(12, "mongodb://h", "home")), "12;mongodb://h;home");
    assert_eq!(connection_line(&conn(0, "", "")), "0;;");
    let list = vec![conn(1, "u1", "one"), conn(20, "u2", "two")];
    let lines = overwrite_connections(&list);
    assert_eq!(lines, vec!["1;u1;one", "20;u2;two"]);
    assert_eq!(load_connections(&lines), list);
}

#[test]
fn malformed_lines_are_passed_over() {
    let lines = vec![
        "1;u1;one".to_string(),
        "garbage".to_string(),
        "x;u;n".to_string(),
        "2;u2;two;extra".to_string(),
        "".to_string(),
        "3; u3 ;three".to_string(),
    ];
    assert_eq!(load_connections(&lines), vec![conn(1, "u1", "one"), conn(3, " u3 ", "three")]);
    assert_eq!(parse_connection_line(" 1;u;n"), None);
    assert_eq!(parse_connection_line("1;u;n"), Some(conn(1, "u", "n")));
}

#[test]
fn a_new_connection_gets_the_next_identifier() {
    let none: Vec<String> = Vec::new();
    assert_eq!(save_connection(&none, "u", "n"), "1;u;n");
    let lines = vec!["3;a;b".to_string(), "junk".to_string(), " 7 ;c;d".to_string(), "5".to_string()];
    assert_eq!(save_connection(&lines, "mongodb://x", "x"), "8;mongodb://x;x");
    let full = vec![format!("{};a;b", usize::MAX)];
    assert_eq!(save_connection(&full, "u", "n"), format!("{};u;n", usize::MAX));
}

#[test]
fn lines_are_counted_like_lines() {
    assert_eq!(count_lines(""), 0);
    assert_eq!(count_lines("a"), 1);
    assert_eq!(count_lines("a\n"), 1);
    assert_eq!(count_lines("a\nb"), 2);
    assert_eq!(count_lines("a\n\n"), 2);
    assert_eq!(count_lines("\n"), 1);
    assert_eq!(count_lines(HELP_TEXT), HELP_TEXT.lines().count());
    assert_eq!(scroll_limit(), HELP_TEXT.lines().count() - 20);
}

#[test]
fn white_space_is_the_unicode_property() {
    let listed = |c: char| {
        matches!(
            c,
            '\u{9}'..='\u{d}'
                | ' '
                | '\u{85}'
                | '\u{a0}'
                | '\u{1680}'
                | '\u{2000}'..='\u{200a}'
                | '\u{2028}'
                | '\u{2029}'
                | '\u{202f}'
                | '\u{205f}'
                | '\u{3000}'
        )
    };
    let mut text = String::new();
    for code in 0u32..=0x10ffff {
        if let Some(c) = char::from_u32(code) {
            text.clear();
            text.push(c);
            assert_eq!(blank(&text), listed(c), "U+{:04X}", code);
        }
    }
}

#[test]
fn texts_are_trimmed_before_they_are_read() {
    assert_eq!(
        parse_connection_input("  mongodb://localhost:27017 ; Local "),
        Some(("mongodb://localhost:27017".to_string(), "Local".to_string()))
    );
    assert_eq!(parse_connection_update("x;mongodb://h;n"), Err(ConnectionInputError::IdNotNumber));
    assert!(is_braced_object("{ö}"));
    assert_eq!(inner_end_pos("{ö}"), 2);
    assert_eq!(trim("\u{3000}{ö}\u{85}"), "{ö}");
    assert_eq!(trim("\u{200b}x"), "\u{200b}x");
}
