use fg_notation::numpad::{Button, Modifier, Motion, Move};
use fg_notation::CreationError;

fn facets(m: &Move) -> (Modifier, String, String) {
    (m.modifier(), m.motion().to_string(), m.button().to_string())
}

#[test]
fn j236h() {
    let attack = "j.236H";
    let created = Move::new(attack).unwrap();

    assert_eq!(
        facets(&created),
        (Modifier::Jump, "236".to_string(), "H".to_string())
    )
}

#[test]
fn heavy_dp() {
    let attack = "623Hp";
    let created = Move::new(attack).unwrap();

    assert_eq!(
        facets(&created),
        (Modifier::Absent, "623".to_string(), "Hp".to_string())
    )
}

#[test]
fn jl() {
    let attack = "j.L";
    let created = Move::new(attack).unwrap();

    assert_eq!(
        facets(&created),
        (Modifier::Jump, "5".to_string(), "L".to_string())
    )
}

#[test]
fn charge_move() {
    let attack = "[4]6A";
    let created = Move::new(attack).unwrap();

    assert_eq!(
        facets(&created),
        (Modifier::Absent, "[4]6".to_string(), "A".to_string())
    )
}

#[test]
fn cs() {
    let attack = "c.S";
    let created = Move::new(attack).unwrap();

    assert_eq!(
        facets(&created),
        (Modifier::Close, "5".to_string(), "S".to_string())
    )
}

#[test]
fn superjump() {
    let attack = "sj.236S";
    let created = Move::new(attack).unwrap();

    assert_eq!(
        facets(&created),
        (Modifier::SuperJump, "236".to_string(), "S".to_string())
    )
}

#[test]
fn move_tostring() {
    let m = Move::new("214L").unwrap();
    assert_eq!(m.to_string(), "214L".to_string());
}

#[test]
fn button_creation() {
    let button = "HS";
    let created = Button::new(button).unwrap();

    assert_eq!(created.to_string(), "HS".to_string());
}

#[test]
#[should_panic]
fn invalid_button_fails() {
    let invalid = "69lol";

    Button::new(invalid).unwrap();
}

#[test]
fn motion_creation() {
    let motion = "236";
    let created = Motion::new(motion).unwrap();

    assert_eq!(created.to_string(), "236".to_string());
}

#[test]
#[should_panic]
fn invalid_motion_fails() {
    let invalid = "balls22";

    Motion::new(invalid).unwrap();
}

#[test]
fn no_motion() {
    let m = Motion::new("").unwrap();

    println!("{m}", m = m.to_string())
}

#[test]
fn empty_motion_is_neutral() {
    let m = Motion::new("").unwrap();
    assert_eq!(m.to_string(), "5");
    assert!(m.is_neutral());
    assert_eq!(m.len(), 1);
}

#[test]
fn motion_queries() {
    let m = Motion::new("[4]6").unwrap();
    assert_eq!(m.len(), 4);
    assert!(!m.is_neutral());
    assert_eq!(m.as_str(), "[4]6");
    assert!(!Motion::new("55").unwrap().is_neutral());
    assert!(Motion::new("5").unwrap().is_neutral());
}

#[test]
fn motion_brackets_need_not_match() {
    assert_eq!(Motion::new("][4").unwrap().to_string(), "][4");
    assert_eq!(Motion::new("]4[").unwrap().to_string(), "]4[");
    assert_eq!(Motion::new("[[[").unwrap().to_string(), "[[[");
}

#[test]
fn motion_refuses_other_characters() {
    assert_eq!(Motion::new("23a").unwrap_err(), CreationError::InvalidMotion);
    assert_eq!(Motion::new("2 3").unwrap_err(), CreationError::InvalidMotion);
    assert_eq!(Motion::new("(4)6").unwrap_err(), CreationError::InvalidMotion);
    assert_eq!(Motion::new(" ").unwrap_err(), CreationError::InvalidMotion);
    assert_eq!(Motion::new("２").unwrap_err(), CreationError::InvalidMotion);
}

#[test]
fn motion_text_round_trips() {
    for text in ["5", "236", "41236987", "[4]6", "0", "9876543210", "]["] {
        assert_eq!(Motion::new(text).unwrap().to_string(), text);
    }
}

#[test]
fn button_text_round_trips() {
    for text in ["H", "HS", "Hp", "abcxyzABCXYZ", "lol"] {
        let b = Button::new(text).unwrap();
        assert_eq!(b.to_string(), text);
        assert_eq!(b.as_str(), text);
    }
}

#[test]
fn button_refuses_what_is_no_letter() {
    assert_eq!(Button::new("H1").unwrap_err(), CreationError::InvalidButton);
    assert_eq!(Button::new("H P").unwrap_err(), CreationError::InvalidButton);
    assert_eq!(Button::new("é").unwrap_err(), CreationError::InvalidButton);
    assert_eq!(Button::new("H.").unwrap_err(), CreationError::InvalidButton);
    assert_eq!(Button::new("@").unwrap_err(), CreationError::InvalidButton);
    assert_eq!(Button::new("[").unwrap_err(), CreationError::InvalidButton);
    assert_eq!(Button::new("`").unwrap_err(), CreationError::InvalidButton);
    assert_eq!(Button::new("{").unwrap_err(), CreationError::InvalidButton);
}

#[test]
fn empty_text_is_the_button_of_a_move_without_one() {
    assert_eq!(Button::new("").unwrap().to_string(), "");
}

#[test]
fn numpad_modifier_table() {
    let table = [
        ("j", Modifier::Jump, "j."),
        ("sj", Modifier::SuperJump, "sj."),
        ("jc", Modifier::JumpCancel, "jc."),
        ("c", Modifier::Close, "c."),
        ("f", Modifier::Far, "f."),
        ("tk", Modifier::TigerKnee, "tk."),
    ];
    for (bare, modifier, dotted) in table {
        assert_eq!(Modifier::new(bare).unwrap(), modifier);
        assert_eq!(Modifier::new(dotted).unwrap(), modifier);
        assert_eq!(modifier.to_string(), dotted);
        assert_eq!(modifier.as_str(), dotted);
        assert_eq!(modifier.bare_len(), bare.len());
    }
    assert_eq!(Modifier::Absent.to_string(), "");
    assert_eq!(Modifier::Absent.bare_len(), 0);
}

#[test]
fn numpad_modifier_matches_exactly() {
    for text in ["", ".", "cl", "cl.", "cr", "st.", "J", "j..", " j", "j ", "jj", "x", "k", "t"] {
        assert_eq!(
            Modifier::new(text).unwrap_err(),
            CreationError::InvalidModifier
        );
    }
}

#[test]
fn move_is_trimmed() {
    let created = Move::new("  \t236H \n").unwrap();
    assert_eq!(
        facets(&created),
        (Modifier::Absent, "236".to_string(), "H".to_string())
    );
}

#[test]
fn move_with_unknown_modifier_is_refused() {
    assert_eq!(
        Move::new("cl.236H").unwrap_err(),
        CreationError::InvalidModifier
    );
    assert_eq!(
        Move::new(".236H").unwrap_err(),
        CreationError::InvalidModifier
    );
    assert_eq!(
        Move::new("236H.").unwrap_err(),
        CreationError::InvalidModifier
    );
    assert_eq!(
        Move::new("j.2.H").unwrap_err(),
        CreationError::InvalidButton
    );
}

#[test]
fn numpad_move_without_button_has_the_empty_button() {
    assert_eq!(
        facets(&Move::new("236").unwrap()),
        (Modifier::Absent, "236".to_string(), "".to_string())
    );
    assert_eq!(
        facets(&Move::new("").unwrap()),
        (Modifier::Absent, "5".to_string(), "".to_string())
    );
    assert_eq!(
        facets(&Move::new("   ").unwrap()),
        (Modifier::Absent, "5".to_string(), "".to_string())
    );
    assert_eq!(
        facets(&Move::new("j.").unwrap()),
        (Modifier::Jump, "5".to_string(), "".to_string())
    );
    assert_eq!(
        facets(&Move::new("j.66").unwrap()),
        (Modifier::Jump, "66".to_string(), "".to_string())
    );
    assert_eq!(Move::new("66").unwrap().to_string(), "66");
}

#[test]
fn move_button_is_all_that_follows_the_motion() {
    assert_eq!(Move::new("236H2").unwrap_err(), CreationError::InvalidButton);
    assert_eq!(Move::new("2 3H").unwrap_err(), CreationError::InvalidButton);
    assert_eq!(Move::new("2+3H").unwrap_err(), CreationError::InvalidButton);
    assert_eq!(Move::new("236 H").unwrap_err(), CreationError::InvalidButton);
}

#[test]
fn move_error_of_the_modifier_comes_first() {
    assert_eq!(
        Move::new("zz.236!").unwrap_err(),
        CreationError::InvalidModifier
    );
}

#[test]
fn bare_modifier_prefixes() {
    assert_eq!(
        facets(&Move::new("j236H").unwrap()),
        (Modifier::Jump, "236".to_string(), "H".to_string())
    );
    assert_eq!(
        facets(&Move::new("jc236H").unwrap()),
        (Modifier::JumpCancel, "236".to_string(), "H".to_string())
    );
    assert_eq!(
        facets(&Move::new("cS").unwrap()),
        (Modifier::Close, "5".to_string(), "S".to_string())
    );
    assert_eq!(
        facets(&Move::new("tk236K").unwrap()),
        (Modifier::TigerKnee, "236".to_string(), "K".to_string())
    );
    assert_eq!(
        facets(&Move::new("jcH").unwrap()),
        (Modifier::JumpCancel, "5".to_string(), "H".to_string())
    );
}

#[test]
fn no_bare_prefix_for_the_other_modifiers() {
    assert_eq!(
        facets(&Move::new("sjH").unwrap()),
        (Modifier::Absent, "5".to_string(), "sjH".to_string())
    );
    assert_eq!(
        facets(&Move::new("fH").unwrap()),
        (Modifier::Absent, "5".to_string(), "fH".to_string())
    );
    assert_eq!(
        facets(&Move::new("tH").unwrap()),
        (Modifier::Absent, "5".to_string(), "tH".to_string())
    );
    assert_eq!(
        facets(&Move::new("JH").unwrap()),
        (Modifier::Absent, "5".to_string(), "JH".to_string())
    );
}

#[test]
fn numpad_move_text_is_prefix_motion_button() {
    assert_eq!(Move::new("j.236H").unwrap().to_string(), "j.236H");
    assert_eq!(Move::new(" c.S ").unwrap().to_string(), "c.5S");
    assert_eq!(Move::new("j236H").unwrap().to_string(), "j.236H");
    assert_eq!(Move::new("[4]6A").unwrap().to_string(), "[4]6A");
    assert_eq!(Move::new("tk.41236HS").unwrap().to_string(), "tk.41236HS");
    assert_eq!(Move::new("HS").unwrap().to_string(), "5HS");
}

#[test]
fn numpad_move_getters_and_clone() {
    let m = Move::new("f.6P").unwrap();
    assert_eq!(m.modifier(), Modifier::Far);
    assert_eq!(m.motion(), Motion::new("6").unwrap());
    assert_eq!(m.button(), Button::new("P").unwrap());
    let copy = m.clone();
    assert_eq!(copy, m);
    assert_eq!(m.motion().clone(), m.motion());
    assert_eq!(m.button().clone(), m.button());
}

#[test]
fn error_messages() {
    assert_eq!(CreationError::InvalidMotion.message(), "Invalid motion input.");
    assert_eq!(CreationError::InvalidButton.message(), "Invalid button.");
    assert_eq!(CreationError::InvalidModifier.message(), "Invalid modifier.");
}

#[test]
fn trimmed_text_is_read_as_it_is() {
    assert_eq!(
        facets(&Move::from_trimmed("j.236H").unwrap()),
        (Modifier::Jump, "236".to_string(), "H".to_string())
    );
    assert_eq!(
        facets(&Move::from_trimmed("[4]6A").unwrap()),
        (Modifier::Absent, "[4]6".to_string(), "A".to_string())
    );
    assert_eq!(
        Move::from_trimmed(" 236H").unwrap_err(),
        CreationError::InvalidButton
    );
    assert_eq!(
        Move::from_trimmed("236H ").unwrap_err(),
        CreationError::InvalidButton
    );
    assert_eq!(
        Move::from_trimmed("j .236H").unwrap_err(),
        CreationError::InvalidModifier
    );
}

#[test]
fn numpad_values_are_read_from_str() {
    assert_eq!("j.236H".parse::<Move>().unwrap(), Move::new("j.236H").unwrap());
    assert_eq!("236".parse::<Motion>().unwrap(), Motion::new("236").unwrap());
    assert_eq!("HS".parse::<Button>().unwrap(), Button::new("HS").unwrap());
    assert_eq!("tk".parse::<Modifier>().unwrap(), Modifier::TigerKnee);
    assert_eq!(
        "x".parse::<Modifier>().unwrap_err(),
        CreationError::InvalidModifier
    );
    assert_eq!(
        "2a".parse::<Motion>().unwrap_err(),
        CreationError::InvalidMotion
    );
    assert_eq!(
        "2a".parse::<Button>().unwrap_err(),
        CreationError::InvalidButton
    );
    assert_eq!("2.a".parse::<Move>().unwrap_err(), CreationError::InvalidModifier);
}
