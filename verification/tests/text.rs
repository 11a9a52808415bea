use fg_notation::text::{
    chars_of, count_leading, count_trailing, made_of, same_text, split_whitespace, starts_with,
    trim, CharClass,
};

#[test]
fn classes() {
    for c in ['a', 'z', 'A', 'Z', 'm'] {
        assert!(CharClass::Letter.holds(c));
    }
    for c in ['@', '[', '`', '{', '0', ' ', 'é'] {
        assert!(!CharClass::Letter.holds(c));
    }
    for c in ['0', '9', '5', '[', ']'] {
        assert!(CharClass::MotionMark.holds(c));
    }
    for c in ['/', ':', '\\', 'a', '(', ' '] {
        assert!(!CharClass::MotionMark.holds(c));
    }
    for c in [' ', '\t', '\n', '\u{a0}', '\u{3000}'] {
        assert!(CharClass::Space.holds(c));
        assert!(!CharClass::NonSpace.holds(c));
    }
    for c in ['a', '.', '0', '越'] {
        assert!(!CharClass::Space.holds(c));
        assert!(CharClass::NonSpace.holds(c));
    }
    assert!(!CharClass::NonDot.holds('.'));
    assert!(CharClass::NonDot.holds(','));
}

#[test]
fn characters_of_a_text() {
    assert_eq!(chars_of("j.é"), vec!['j', '.', 'é']);
    assert_eq!(chars_of(""), Vec::<char>::new());
}

#[test]
fn runs() {
    let chars = chars_of("  236HS ");
    assert_eq!(count_leading(&chars, 0, 8, CharClass::Space), 2);
    assert_eq!(count_leading(&chars, 2, 8, CharClass::MotionMark), 3);
    assert_eq!(count_leading(&chars, 2, 4, CharClass::MotionMark), 2);
    assert_eq!(count_leading(&chars, 5, 8, CharClass::Letter), 2);
    assert_eq!(count_leading(&chars, 0, 8, CharClass::Letter), 0);
    assert_eq!(count_leading(&chars, 3, 3, CharClass::MotionMark), 0);
    assert_eq!(count_trailing(&chars, 0, 8, CharClass::Space), 1);
    assert_eq!(count_trailing(&chars, 0, 7, CharClass::Letter), 2);
    assert_eq!(count_trailing(&chars, 6, 7, CharClass::Letter), 1);
    assert_eq!(count_trailing(&chars, 0, 2, CharClass::Space), 2);
    assert_eq!(count_trailing(&chars, 0, 0, CharClass::Space), 0);
}

#[test]
fn made_of_a_class() {
    assert!(made_of("HS", CharClass::Letter));
    assert!(made_of("", CharClass::Letter));
    assert!(!made_of("H5", CharClass::Letter));
    assert!(made_of("[4]6", CharClass::MotionMark));
    assert!(!made_of("[4]6A", CharClass::MotionMark));
}

#[test]
fn same_and_starting_texts() {
    assert!(same_text("jc.", "jc."));
    assert!(same_text("", ""));
    assert!(!same_text("jc.", "jc"));
    assert!(!same_text("jc", "jd"));
    assert!(!same_text("a", "A"));
    assert!(starts_with("jc236H", "jc"));
    assert!(starts_with("jc", "jc"));
    assert!(starts_with("jc", ""));
    assert!(!starts_with("j", "jc"));
    assert!(!starts_with("cj", "jc"));
}

#[test]
fn trimming() {
    assert_eq!(trim("  236H \n"), "236H");
    assert_eq!(trim("236H"), "236H");
    assert_eq!(trim("\u{a0}qcf  HP\u{3000}"), "qcf  HP");
    assert_eq!(trim("   "), "");
    assert_eq!(trim(""), "");
    assert_eq!(trim(" é "), "é");
    for text in ["", " ", " a", "a ", " a b ", "\t\na\r\n"] {
        assert_eq!(trim(text), text.trim());
    }
}

#[test]
fn splitting() {
    assert_eq!(split_whitespace("qcf HP"), vec!["qcf", "HP"]);
    assert_eq!(split_whitespace("  qcf \t then\nHP  "), vec!["qcf", "then", "HP"]);
    assert_eq!(split_whitespace("mk"), vec!["mk"]);
    assert_eq!(split_whitespace(""), Vec::<&str>::new());
    assert_eq!(split_whitespace(" \t "), Vec::<&str>::new());
    for text in ["", " ", " a", "a ", " a b ", "a\u{a0}b\u{2003}é ü"] {
        assert_eq!(
            split_whitespace(text),
            text.split_whitespace().collect::<Vec<&str>>()
        );
    }
}
