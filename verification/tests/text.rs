use echo::digest::{file_digest, to_hex};
use echo::language::{map_language, resolve_device};
use echo::settings::QwenDeviceSetting;
use echo::text::{
    chars_of, collapsed, decimal, folded_yo, is_white_space, join_from, same_text, stripped,
    stripped_start, text_between, trimmed, words_of, CharClass,
};

#[test]
fn white_space_is_what_std_says() {
    for n in 0..=0x10FFFFu32 {
        if let Some(c) = char::from_u32(n) {
            assert_eq!(is_white_space(c), c.is_whitespace(), "U+{:04X}", n);
        }
    }
}

#[test]
fn letters_and_numbers_are_what_std_says() {
    for n in 0..=0x10FFFFu32 {
        if let Some(c) = char::from_u32(n) {
            assert_eq!(CharClass::NonAlphanumeric.contains(c), !c.is_alphanumeric());
            assert!(!(c.is_whitespace() && c.is_alphanumeric()));
            if n < 128 {
                assert_eq!(c.is_alphanumeric(), c.is_ascii_alphanumeric());
            }
        }
    }
}

#[test]
fn words_are_what_std_splits() {
    for s in ["", "  ", " a", "a ", "раз\u{a0}два\u{2003}три", "a\tb\nc\r\nd", "одно"] {
        let expected: Vec<String> = s.split_whitespace().map(|w| w.to_string()).collect();
        assert_eq!(words_of(s), expected);
        assert_eq!(collapsed(s), expected.join(" "));
        assert_eq!(words_of(&collapsed(s)), expected);
        assert_eq!(trimmed(s), s.trim());
    }
}

#[test]
fn stripped_ends_are_what_std_trims() {
    for s in ["", "!", "«Эхо»!", "--a-b--", "x"] {
        let edge = |c: char| !c.is_alphanumeric();
        assert_eq!(stripped(s, CharClass::NonAlphanumeric), s.trim_matches(edge));
        assert_eq!(stripped_start(s, CharClass::NonAlphanumeric), s.trim_start_matches(edge));
    }
    let separator = |c: char| " ,.:;-!—…\"'".contains(c);
    for s in [" ,.:;-!—…\"'x", "?x", "—— да", "\tx"] {
        assert_eq!(stripped_start(s, CharClass::Separator), s.trim_start_matches(separator));
    }
}

#[test]
fn solid_is_the_opposite_of_blank() {
    assert!(CharClass::Blank.contains(' '));
    assert!(!CharClass::Solid.contains(' '));
    assert!(CharClass::Solid.contains('x'));
    assert_eq!(stripped_start("ab c", CharClass::Solid), " c");
}

#[test]
fn lists_are_joined_by_one_space() {
    let list = vec!["a".to_string(), "b".to_string(), "c".to_string()];
    assert_eq!(join_from(&list, 0), "a b c");
    assert_eq!(join_from(&list, 2), "c");
    assert_eq!(join_from(&list, 3), "");
}

#[test]
fn characters_are_cut_by_position() {
    let chars = chars_of("ёжик");
    assert_eq!(chars, vec!['ё', 'ж', 'и', 'к']);
    assert_eq!(text_between(&chars, 1, 3), "жи");
    assert_eq!(text_between(&chars, 2, 2), "");
}

#[test]
fn only_the_small_letter_is_folded() {
    assert_eq!(folded_yo("ёЁе"), "еЁе");
}

#[test]
fn texts_are_compared_by_characters() {
    assert!(same_text("эхо", "эхо"));
    assert!(!same_text("эхо", "Эхо"));
    assert!(!same_text("эхо", "эхо "));
}

#[test]
fn numbers_are_written_in_decimal() {
    for n in [0u64, 7, 10, 99, 100, 65536, 1234567890, u64::MAX] {
        assert_eq!(decimal(n), n.to_string());
    }
}

#[test]
fn bytes_are_written_in_hexadecimal() {
    assert_eq!(to_hex(&[]), "");
    assert_eq!(to_hex(&[0, 9, 10, 15, 16, 171, 255]), "00090a0f10abff");
}

#[test]
fn digest_of_known_files() {
    assert_eq!(
        file_digest(b""),
        "e3b0c44298fc1c149afbf4c8996fb92427ae41e4649b934ca495991b7852b855"
    );
    assert_eq!(
        file_digest(b"abc"),
        "ba7816bf8f01cfea414140de5dae2223b00361a396177a9cb410ff61f20015ad"
    );
}

#[test]
fn language_codes_are_named() {
    for (code, name) in [
        ("auto", "auto"),
        ("zh", "Chinese"),
        ("zh-Hans", "Chinese"),
        ("zh-Hant", "Chinese"),
        ("ja", "Japanese"),
        ("ko", "Korean"),
        ("de", "German"),
        ("fr", "French"),
        ("es", "Spanish"),
        ("it", "Italian"),
        ("pt", "Portuguese"),
        ("nl", "Dutch"),
        ("pl", "Polish"),
        ("sv", "Swedish"),
        ("da", "Danish"),
        ("no", "Norwegian"),
        ("nb", "Norwegian"),
        ("fi", "Finnish"),
        ("el", "Greek"),
        ("cs", "Czech"),
        ("ro", "Romanian"),
        ("hu", "Hungarian"),
        ("ar", "Arabic"),
        ("ru", "Russian"),
        ("tr", "Turkish"),
        ("hi", "Hindi"),
        ("vi", "Vietnamese"),
        ("id", "Indonesian"),
        ("th", "Thai"),
        ("ms", "Malay"),
        ("uk", "Ukrainian"),
        ("he", "Hebrew"),
    ] {
        assert_eq!(map_language(code), name);
    }
}

#[test]
fn unknown_language_codes_pass_through() {
    for code in ["en", "en-US", "RU", "", "zh-hans"] {
        assert_eq!(map_language(code), code);
    }
}

#[test]
fn device_follows_the_setting() {
    assert_eq!(resolve_device(QwenDeviceSetting::Auto, true), "cuda");
    assert_eq!(resolve_device(QwenDeviceSetting::Auto, false), "cpu");
    assert_eq!(resolve_device(QwenDeviceSetting::Cuda, false), "cuda");
    assert_eq!(resolve_device(QwenDeviceSetting::Cpu, true), "cpu");
}
