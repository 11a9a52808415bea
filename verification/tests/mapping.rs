use fg_notation::abbreviated as a;
use fg_notation::numpad as n;
use fg_notation::CreationError;

fn named() -> Vec<(a::Motion, &'static str)> {
    vec![
        (a::Motion::N, "5"),
        (a::Motion::U, "8"),
        (a::Motion::D, "2"),
        (a::Motion::B, "4"),
        (a::Motion::F, "6"),
        (a::Motion::DB, "1"),
        (a::Motion::DF, "3"),
        (a::Motion::UB, "7"),
        (a::Motion::UF, "9"),
        (a::Motion::QCF, "236"),
        (a::Motion::QCB, "214"),
        (a::Motion::HCF, "41236"),
        (a::Motion::HCB, "63214"),
        (a::Motion::DP, "623"),
        (a::Motion::RDP, "421"),
        (a::Motion::FullCircle, "41236987"),
        (a::Motion::Double360, "4123698741236987"),
    ]
}

#[test]
fn named_motions_have_their_digits() {
    for (motion, digits) in named() {
        assert_eq!(n::Motion::from_abbreviated(motion).unwrap().to_string(), digits);
    }
}

#[test]
fn digits_have_their_named_motion() {
    for (motion, digits) in named() {
        assert_eq!(a::Motion::from(n::Motion::new(digits).unwrap()), motion);
    }
}

#[test]
fn named_motions_round_trip() {
    for (motion, _) in named() {
        let there = n::Motion::from_abbreviated(motion.clone()).unwrap();
        assert_eq!(a::Motion::from(there), motion);
    }
}

#[test]
fn digits_without_a_name_are_kept() {
    for digits in ["66", "[4]6", "2369", "0", "55", "360", "]["] {
        let there = a::Motion::from(n::Motion::new(digits).unwrap());
        assert_eq!(there, a::Motion::Other(digits.to_string()));
        assert_eq!(n::Motion::from_abbreviated(there).unwrap().to_string(), digits);
    }
}

#[test]
fn other_text_is_read_as_numpad_motion() {
    assert_eq!(
        n::Motion::from_abbreviated(a::Motion::Other("[2]8".to_string()))
            .unwrap()
            .to_string(),
        "[2]8"
    );
    assert_eq!(
        n::Motion::from_abbreviated(a::Motion::Other("".to_string()))
            .unwrap()
            .to_string(),
        "5"
    );
    assert_eq!(
        n::Motion::from_abbreviated(a::Motion::Other("dp".to_string())).unwrap_err(),
        CreationError::InvalidMotion
    );
}

#[test]
fn modifiers_to_numpad() {
    let table = [
        (a::Modifier::Close, n::Modifier::Close),
        (a::Modifier::Far, n::Modifier::Far),
        (a::Modifier::Standing, n::Modifier::Absent),
        (a::Modifier::Crouching, n::Modifier::Absent),
        (a::Modifier::Jump, n::Modifier::Jump),
        (a::Modifier::SuperJump, n::Modifier::SuperJump),
        (a::Modifier::JumpCancel, n::Modifier::JumpCancel),
        (a::Modifier::TigerKnee, n::Modifier::TigerKnee),
        (a::Modifier::Absent, n::Modifier::Absent),
    ];
    for (from, to) in table {
        assert_eq!(n::Modifier::from(from), to);
    }
}

#[test]
fn modifiers_to_abbreviated() {
    let table = [
        (n::Modifier::Jump, a::Modifier::Jump),
        (n::Modifier::SuperJump, a::Modifier::SuperJump),
        (n::Modifier::JumpCancel, a::Modifier::JumpCancel),
        (n::Modifier::Close, a::Modifier::Close),
        (n::Modifier::Far, a::Modifier::Far),
        (n::Modifier::TigerKnee, a::Modifier::TigerKnee),
        (n::Modifier::Absent, a::Modifier::Absent),
    ];
    for (from, to) in table {
        assert_eq!(a::Modifier::from(from), to);
    }
}

#[test]
fn buttons_are_carried_over() {
    assert_eq!(
        a::Button::from(n::Button::new("HS").unwrap()),
        a::Button::new("HS").unwrap()
    );
    assert_eq!(
        n::Button::from(a::Button::new("mk").unwrap()),
        n::Button::new("mk").unwrap()
    );
}

#[test]
fn standing_becomes_the_motion_5() {
    let from = a::Move::new("st.S").unwrap();
    assert_eq!(
        (from.modifier(), from.motion(), from.button().to_string()),
        (a::Modifier::Standing, a::Motion::N, "S".to_string())
    );
    let to = n::Move::from_abbreviated(from).unwrap();
    assert_eq!(
        (to.modifier(), to.motion().to_string(), to.button().to_string()),
        (n::Modifier::Absent, "5".to_string(), "S".to_string())
    );
}

#[test]
fn crouching_becomes_the_motion_2() {
    let from = a::Move::new("cr.MK").unwrap();
    assert_eq!(
        (from.modifier(), from.motion(), from.button().to_string()),
        (a::Modifier::Crouching, a::Motion::N, "MK".to_string())
    );
    let to = n::Move::from_abbreviated(from).unwrap();
    assert_eq!(
        (to.modifier(), to.motion().to_string(), to.button().to_string()),
        (n::Modifier::Absent, "2".to_string(), "MK".to_string())
    );
}

#[test]
fn stance_overrides_any_motion() {
    let to = n::Move::from_abbreviated(a::Move::new("cr.qcf HP").unwrap()).unwrap();
    assert_eq!(to.to_string(), "2HP");
    let to = n::Move::from_abbreviated(a::Move::new("st.wiggle HP").unwrap()).unwrap();
    assert_eq!(to.to_string(), "5HP");
}

#[test]
fn moves_to_numpad() {
    let to = n::Move::from_abbreviated(a::Move::new("qcf H").unwrap()).unwrap();
    assert_eq!(to, n::Move::new("236H").unwrap());
    let to = n::Move::from_abbreviated(a::Move::new("tk.qcf HK").unwrap()).unwrap();
    assert_eq!(to.to_string(), "tk.236HK");
    let to = n::Move::from_abbreviated(a::Move::new("cl.HS").unwrap()).unwrap();
    assert_eq!(to.to_string(), "c.5HS");
    let to = n::Move::from_abbreviated(a::Move::new("j.[2]8 K").unwrap()).unwrap();
    assert_eq!(to.to_string(), "j.[2]8K");
}

#[test]
fn moves_to_abbreviated() {
    let to = a::Move::from(n::Move::new("236H").unwrap());
    assert_eq!(to, a::Move::new("qcf H").unwrap());
    let to = a::Move::from(n::Move::new("c.S").unwrap());
    assert_eq!(
        (to.modifier(), to.motion(), to.button().to_string()),
        (a::Modifier::Close, a::Motion::N, "S".to_string())
    );
    let to = a::Move::from(n::Move::new("j.623P").unwrap());
    assert_eq!(to.to_string(), "j.DPP");
    let to = a::Move::from(n::Move::new("[4]6A").unwrap());
    assert_eq!(to.to_string(), "'[4]6'A");
}

#[test]
fn numpad_moves_round_trip() {
    for text in ["236H", "j.236H", "[4]6A", "c.S", "sj.66K", "tk.41236987P", "f.5HS"] {
        let there = n::Move::new(text).unwrap();
        let back = n::Move::from_abbreviated(a::Move::from(there.clone())).unwrap();
        assert_eq!(back, there);
    }
}

#[test]
fn move_with_unnamed_motion_is_refused() {
    assert_eq!(
        n::Move::from_abbreviated(a::Move::new("wiggle HP").unwrap()).unwrap_err(),
        CreationError::InvalidMotion
    );
    assert_eq!(
        n::Move::from_abbreviated(a::Move::new("j.dp HP").unwrap()).unwrap_err(),
        CreationError::InvalidMotion
    );
}
