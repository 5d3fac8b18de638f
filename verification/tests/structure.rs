//! The instruction filter, the bracket matcher, and the structural
//! check.

use tapelang::brackets::{check_brackets, get_loop_closing_index};
use tapelang::diag::StructuralError;
use tapelang::instr::{filter_source, instruction_of_byte, Instruction};

fn parse(src: &[u8]) -> Vec<Instruction> {
    filter_source(src)
}

#[test]
fn filter_keeps_the_eight_symbols_in_order() {
    let prog = parse(b"+-<>[],.");
    assert_eq!(
        prog,
        vec![
            Instruction::IncrementCell,
            Instruction::DecrementCell,
            Instruction::DecrementPointer,
            Instruction::IncrementPointer,
            Instruction::LoopOpen,
            Instruction::LoopClose,
            Instruction::ReadByte,
            Instruction::WriteByte,
        ]
    );
}

#[test]
fn filter_drops_every_other_byte() {
    let prog = parse(b"say + and - twice: ++ --\n");
    assert_eq!(
        prog,
        vec![
            Instruction::IncrementCell,
            Instruction::DecrementCell,
            Instruction::IncrementCell,
            Instruction::IncrementCell,
            Instruction::DecrementCell,
            Instruction::DecrementCell,
        ]
    );
    assert_eq!(parse(b"no symbols here"), vec![]);
}

#[test]
fn byte_recognition_matches_the_symbols() {
    assert_eq!(instruction_of_byte(b'>'), Some(Instruction::IncrementPointer));
    assert_eq!(instruction_of_byte(b'<'), Some(Instruction::DecrementPointer));
    assert_eq!(instruction_of_byte(b'+'), Some(Instruction::IncrementCell));
    assert_eq!(instruction_of_byte(b'-'), Some(Instruction::DecrementCell));
    assert_eq!(instruction_of_byte(b'['), Some(Instruction::LoopOpen));
    assert_eq!(instruction_of_byte(b']'), Some(Instruction::LoopClose));
    assert_eq!(instruction_of_byte(b','), Some(Instruction::ReadByte));
    assert_eq!(instruction_of_byte(b'.'), Some(Instruction::WriteByte));
    assert_eq!(instruction_of_byte(b'x'), None);
    assert_eq!(instruction_of_byte(b' '), None);
}

#[test]
fn matcher_pairs_a_flat_loop() {
    let prog = parse(b"[]");
    assert_eq!(get_loop_closing_index(&prog, 0), Ok(1));
}

#[test]
fn matcher_pairs_nested_loops_at_their_own_depth() {
    let prog = parse(b"+[>[-]<]");
    assert_eq!(get_loop_closing_index(&prog, 1), Ok(7));
    assert_eq!(get_loop_closing_index(&prog, 3), Ok(5));
}

#[test]
fn matcher_pairs_sibling_loops_left_to_right() {
    let prog = parse(b"[.][.]");
    assert_eq!(get_loop_closing_index(&prog, 0), Ok(2));
    assert_eq!(get_loop_closing_index(&prog, 3), Ok(5));
}

#[test]
fn matcher_fails_on_an_unterminated_loop() {
    let prog = parse(b"[[]");
    assert_eq!(
        get_loop_closing_index(&prog, 0),
        Err(StructuralError::UnterminatedLoop)
    );
    assert_eq!(get_loop_closing_index(&prog, 1), Ok(2));
}

#[test]
fn structural_check_accepts_well_bracketed_programs() {
    assert_eq!(check_brackets(&parse(b"")), Ok(()));
    assert_eq!(check_brackets(&parse(b"+->><<.,")), Ok(()));
    assert_eq!(check_brackets(&parse(b"[[]][]")), Ok(()));
}

#[test]
fn structural_check_rejects_a_stray_close() {
    assert_eq!(
        check_brackets(&parse(b"]")),
        Err(StructuralError::StrayLoopClose)
    );
    assert_eq!(
        check_brackets(&parse(b"[]][")),
        Err(StructuralError::StrayLoopClose)
    );
}

#[test]
fn structural_check_rejects_an_unterminated_open() {
    assert_eq!(
        check_brackets(&parse(b"[")),
        Err(StructuralError::UnterminatedLoop)
    );
    assert_eq!(
        check_brackets(&parse(b"+[[-]")),
        Err(StructuralError::UnterminatedLoop)
    );
}
