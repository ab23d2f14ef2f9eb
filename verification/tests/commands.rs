use managesieve::command::{Command, SieveStr, SieveStrBase64};
use managesieve::parser::strings::sievestring_c2s;
use managesieve::parser::ParseResult;
use managesieve::sieve_name::{
    is_bad_sieve_name, is_bad_sieve_name_char, SieveNameError, SieveNameStr, SieveNameString,
};
use sasl::client::mechanisms::Plain;
use sasl::client::Mechanism;

#[test]
fn test_authenticate() {
    let lower = b"\0foo\0bar";
    let command = Command::authenticate("PLAIN", Some(lower.as_slice()));
    assert_eq!(
        command.to_text().as_str(),
        "AUTHENTICATE {5+}\r\nPLAIN {12+}\r\nAGZvbwBiYXI=\r\n"
    );
    let mut auth = Plain::new("FOO", "BAR");
    let binding = auth.initial();
    let command = Command::authenticate("PLAIN", Some(binding.as_slice()));
    assert_eq!(
        command.to_text().as_str(),
        "AUTHENTICATE {5+}\r\nPLAIN {12+}\r\nAEZPTwBCQVI=\r\n"
    );
}

#[test]
fn commands_without_arguments() {
    assert_eq!(Command::start_tls().to_text(), "STARTTLS\r\n");
    assert_eq!(Command::logout().to_text(), "LOGOUT\r\n");
    assert_eq!(Command::capability().to_text(), "CAPABILITY\r\n");
    assert_eq!(Command::list_scripts().to_text(), "LISTSCRIPTS\r\n");
    assert_eq!(Command::noop().to_text(), "NOOP\r\n");
    assert_eq!(Command::unauthenticate().to_text(), "UNAUTHENTICATE\r\n");
    assert_eq!(Command::authenticate("PLAIN", None).to_text(), "AUTHENTICATE {5+}\r\nPLAIN\r\n");
}

#[test]
fn commands_with_arguments() {
    let name = SieveNameStr::new("vacation").unwrap();
    let other = SieveNameStr::new("old").unwrap();
    assert_eq!(
        Command::have_space(name, 1048576).to_text(),
        "HAVESPACE {8+}\r\nvacation 1048576\r\n"
    );
    assert_eq!(Command::have_space(name, 0).to_text(), "HAVESPACE {8+}\r\nvacation 0\r\n");
    assert_eq!(
        Command::have_space(name, u64::MAX).to_text(),
        "HAVESPACE {8+}\r\nvacation 18446744073709551615\r\n"
    );
    assert_eq!(
        Command::put_script(name, "keep;\r\n").to_text(),
        "PUTSCRIPT {8+}\r\nvacation {7+}\r\nkeep;\r\n\r\n"
    );
    assert_eq!(Command::set_active(name).to_text(), "SETACTIVE {8+}\r\nvacation\r\n");
    assert_eq!(Command::get_script(name).to_text(), "GETSCRIPT {8+}\r\nvacation\r\n");
    assert_eq!(Command::deletescript(name).to_text(), "DELETESCRIPT {8+}\r\nvacation\r\n");
    assert_eq!(
        Command::renamescript(other, name).to_text(),
        "RENAMESCRIPT {3+}\r\nold {8+}\r\nvacation\r\n"
    );
    assert_eq!(Command::checkscript("keep;").to_text(), "CHECKSCRIPT {5+}\r\nkeep;\r\n");
    assert_eq!(Command::sasl_response(b"hello").to_text(), "{8+}\r\naGVsbG8=\r\n");
    assert_eq!(Command::sasl_response(b"").to_text(), "{0+}\r\n\r\n");
    assert_eq!(Command::sasl_abort().to_text(), "{1+}\r\n*\r\n");
}

#[test]
fn literal_length_is_in_bytes() {
    assert_eq!(SieveStr("\u{e9}t\u{e9}").to_text(), "{5+}\r\n\u{e9}t\u{e9}");
    assert_eq!(SieveStr("").to_text(), "{0+}\r\n");
    assert_eq!(SieveStrBase64(b"ab").to_text(), "{4+}\r\nYWI=");
}

#[test]
fn what_is_written_reads_back() {
    for text in ["", "a", "hello world", "\u{e9}\u{1f600}", "line\r\nbreak \"quoted\" \\"] {
        let wire = SieveStr(text).to_text();
        assert_eq!(
            sievestring_c2s(wire.as_bytes(), 0),
            ParseResult::Success(text.to_string(), wire.len())
        );
    }
}

#[test]
fn bad_characters_in_names() {
    assert!(is_bad_sieve_name_char('\u{0}'));
    assert!(is_bad_sieve_name_char('\u{7}'));
    assert!(is_bad_sieve_name_char('\u{1f}'));
    assert!(!is_bad_sieve_name_char(' '));
    assert!(!is_bad_sieve_name_char('~'));
    assert!(is_bad_sieve_name_char('\u{7f}'));
    assert!(is_bad_sieve_name_char('\u{9f}'));
    assert!(!is_bad_sieve_name_char('\u{a0}'));
    assert!(!is_bad_sieve_name_char('\u{2027}'));
    assert!(is_bad_sieve_name_char('\u{2028}'));
    assert!(is_bad_sieve_name_char('\u{2029}'));
    assert!(!is_bad_sieve_name_char('\u{202a}'));
    assert!(!is_bad_sieve_name(""));
    assert!(!is_bad_sieve_name("hello\u{1337}"));
    assert!(is_bad_sieve_name("he\u{1f}"));
}

#[test]
fn name_with_a_control_character_is_refused() {
    assert_eq!(SieveNameString::new("a\u{7}b".to_string()), Err(SieveNameError));
    assert_eq!(SieveNameString::from_str("a\u{7}b"), Err(SieveNameError));
    assert_eq!(SieveNameStr::new("a\u{7}b"), Err(SieveNameError));
    assert_eq!(SieveNameError.message(), "the given sieve script name is illegal");
}

#[test]
fn good_names_are_kept_as_they_are() {
    let name = SieveNameString::new("my script".to_string()).unwrap();
    assert_eq!(name.as_str(), "my script");
    assert_eq!(name.as_sieve_name_str().as_str(), "my script");
    assert_eq!(name.clone().into_string(), "my script");
    assert_eq!(SieveNameStr::new("").unwrap().as_str(), "");
}
