use mars_rover_technical_challenge::{Instruction, ParseInstructionError};

#[test]
fn the_three_letters_are_the_three_instructions() {
    assert_eq!(Instruction::try_from('L'), Ok(Instruction::Left));
    assert_eq!(Instruction::try_from('R'), Ok(Instruction::Right));
    assert_eq!(Instruction::try_from('M'), Ok(Instruction::Move));
}

#[test]
fn an_unrecognized_character_is_carried_by_the_error() {
    assert_eq!(
        Instruction::try_from('X'),
        Err(ParseInstructionError::Unrecognized('X'))
    );
    for c in ['l', 'r', 'm', ' ', '\n', '\r', '0', 'N', '\u{0}', '\u{ff2d}', '\u{10ffff}'] {
        assert_eq!(
            Instruction::try_from(c),
            Err(ParseInstructionError::Unrecognized(c))
        );
    }
}

#[test]
fn every_other_character_is_unrecognized() {
    let mut recognized = 0;
    for code in 0..=0x10ffff_u32 {
        if let Some(c) = char::from_u32(code) {
            match Instruction::try_from(c) {
                Ok(_) => recognized += 1,
                Err(e) => assert_eq!(e, ParseInstructionError::Unrecognized(c)),
            }
        }
    }
    assert_eq!(recognized, 3);
}
