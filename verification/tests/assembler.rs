use roboto::desugar::{
    parse_card_dir, parse_cond, parse_instruction, parse_rel_dir, parse_roboto_program,
    resolve_label, Condition, Instruction, RelDir, SenseDir,
};
use roboto::error::{AssemblyError, OperandFault};
use roboto::instruction::Opcode;
use roboto::symbols::SymbolTable;

fn lines(src: &[&str]) -> Vec<String> {
    src.iter().map(|s| s.to_string()).collect()
}

/// A table for a program of `count` instructions in which `loop` is bound to 2.
fn table_with_loop(count: usize) -> SymbolTable {
    let mut src: Vec<String> = Vec::new();
    for i in 0..count {
        if i == 2 {
            src.push("label loop".to_string());
        }
        src.push("Drop 0".to_string());
    }
    SymbolTable::build(&src).unwrap()
}

#[test]
fn end_to_end_program() {
    let input = lines(&["label start", "Flip 2 1 2", "Sense Ahead 0 1 Food", "label end", "Move -1 0"]);
    let table = SymbolTable::build(&input).unwrap();
    assert_eq!(table.lookup("start"), Some(0));
    assert_eq!(table.lookup("end"), Some(2));
    assert_eq!(table.instruction_count(), 3);
    assert_eq!(
        parse_instruction("Flip 2 1 2", &table, 0),
        Ok(Instruction::Flip { p: 2, l1: 1, l2: 2 })
    );
    assert_eq!(
        parse_instruction("Sense Ahead 0 1 Food", &table, 1),
        Ok(Instruction::Sense { sensedir: SenseDir::Ahead, l1: 1, l2: 2, cond: "Food".to_string() })
    );
    assert_eq!(parse_instruction("Move -1 0", &table, 2), Ok(Instruction::Move { l1: 1, l2: 2 }));
    assert_eq!(
        parse_roboto_program(input),
        Ok(lines(&["Flip 2 1 2", "Sense Ahead 1 2 Food", "Move 1 2"]))
    );
}

#[test]
fn unknown_opcode_gives_no_output() {
    assert_eq!(
        parse_roboto_program(lines(&["Jump 1 2"])),
        Err(AssemblyError::UnknownOpcode { token: "Jump".to_string() })
    );
}

#[test]
fn unknown_opcode_after_good_lines() {
    assert_eq!(
        parse_roboto_program(lines(&["Drop 0", "Halt", "Drop 0"])),
        Err(AssemblyError::UnknownOpcode { token: "Halt".to_string() })
    );
}

#[test]
fn opcode_keywords_are_case_sensitive() {
    assert_eq!(
        parse_roboto_program(lines(&["drop 0"])),
        Err(AssemblyError::UnknownOpcode { token: "drop".to_string() })
    );
}

#[test]
fn duplicate_label_is_rejected() {
    let dup = Err(AssemblyError::DuplicateLabel { label: "foo".to_string() });
    assert_eq!(parse_roboto_program(lines(&["label foo", "label foo"])), dup);
    assert_eq!(parse_roboto_program(lines(&["label foo", "Drop 0", "label bar", "Drop 0", "label foo"])), dup);
    assert_eq!(parse_roboto_program(lines(&["Drop 0", "  label   foo  ", "", "label foo", "Jump"])), dup);
}

#[test]
fn duplicate_label_comes_before_any_parsing() {
    assert_eq!(
        parse_roboto_program(lines(&["Jump 1 2", "label a", "label a"])),
        Err(AssemblyError::DuplicateLabel { label: "a".to_string() })
    );
}

#[test]
fn first_duplicate_is_reported() {
    assert_eq!(
        SymbolTable::build(&lines(&["label a", "label b", "label b", "label a"])).err(),
        Some(AssemblyError::DuplicateLabel { label: "b".to_string() })
    );
}

#[test]
fn labels_are_case_sensitive() {
    let table = SymbolTable::build(&lines(&["label a", "Drop 0", "label A", "Drop 0"])).unwrap();
    assert_eq!(table.lookup("a"), Some(0));
    assert_eq!(table.lookup("A"), Some(1));
    assert_eq!(table.lookup("b"), None);
}

#[test]
fn relative_offset_resolves_from_containing_instruction() {
    let table = table_with_loop(9);
    assert_eq!(resolve_label("3", &table, 5), Ok(8));
    assert_eq!(resolve_label("+3", &table, 5), Ok(8));
    assert_eq!(resolve_label("-5", &table, 5), Ok(0));
    assert_eq!(resolve_label("0", &table, 5), Ok(5));
}

#[test]
fn symbolic_label_resolves_to_its_binding() {
    let table = table_with_loop(9);
    assert_eq!(resolve_label("loop", &table, 5), Ok(2));
    assert_eq!(resolve_label("loop", &table, 0), Ok(2));
}

#[test]
fn unknown_reference_is_unresolved() {
    let table = table_with_loop(9);
    assert_eq!(
        resolve_label("nowhere", &table, 5),
        Err(AssemblyError::UnresolvedReference { token: "nowhere".to_string() })
    );
    assert_eq!(
        resolve_label("3x", &table, 5),
        Err(AssemblyError::UnresolvedReference { token: "3x".to_string() })
    );
}

#[test]
fn offset_out_of_the_program_is_unresolved() {
    let table = table_with_loop(9);
    assert_eq!(
        resolve_label("-6", &table, 5),
        Err(AssemblyError::UnresolvedReference { token: "-6".to_string() })
    );
    assert_eq!(
        resolve_label("4", &table, 5),
        Err(AssemblyError::UnresolvedReference { token: "4".to_string() })
    );
    assert_eq!(
        resolve_label("9223372036854775807", &table, 5),
        Err(AssemblyError::UnresolvedReference { token: "9223372036854775807".to_string() })
    );
    assert_eq!(
        resolve_label("-9223372036854775808", &table, 5),
        Err(AssemblyError::UnresolvedReference { token: "-9223372036854775808".to_string() })
    );
}

#[test]
fn number_too_large_for_an_offset_is_a_label() {
    let src = lines(&["label 9223372036854775808", "Drop 9223372036854775808"]);
    assert_eq!(parse_roboto_program(src), Ok(lines(&["Drop 0"])));
}

#[test]
fn label_binds_to_next_instruction() {
    let table = SymbolTable::build(&lines(&["Drop 0", "label start", "Drop 0"])).unwrap();
    assert_eq!(table.lookup("start"), Some(1));
}

#[test]
fn consecutive_labels_share_an_index() {
    let table =
        SymbolTable::build(&lines(&["Drop 0", "Drop 0", "label a", "label b", "", "Drop 0"])).unwrap();
    assert_eq!(table.lookup("a"), Some(2));
    assert_eq!(table.lookup("b"), Some(2));
    assert_eq!(table.instruction_count(), 3);
}

#[test]
fn label_at_end_of_program_cannot_be_a_target() {
    let src = lines(&["Drop end", "label end"]);
    let table = SymbolTable::build(&src).unwrap();
    assert_eq!(table.lookup("end"), Some(1));
    assert_eq!(
        resolve_label("end", &table, 0),
        Err(AssemblyError::UnresolvedReference { token: "end".to_string() })
    );
    assert_eq!(
        parse_roboto_program(src),
        Err(AssemblyError::MalformedOperand {
            opcode: Opcode::Drop,
            slot: 1,
            reason: OperandFault::UnresolvedReference { token: "end".to_string() }
        })
    );
}

#[test]
fn label_line_without_a_name_declares_nothing() {
    let table = SymbolTable::build(&lines(&["label", "Drop 0", "label"])).unwrap();
    assert_eq!(table.instruction_count(), 1);
    assert_eq!(table.lookup("label"), None);
    assert_eq!(parse_roboto_program(lines(&["label", "Drop 0", "label"])), Ok(lines(&["Drop 0"])));
}

#[test]
fn missing_second_target_of_move() {
    let missing = Err(AssemblyError::MalformedOperand {
        opcode: Opcode::Move,
        slot: 2,
        reason: OperandFault::Missing,
    });
    assert_eq!(parse_instruction("Move 5", &table_with_loop(9), 0), missing);
    assert_eq!(parse_instruction("Move 5", &table_with_loop(2), 1), missing);
    assert_eq!(parse_roboto_program(lines(&["Move 5"])), missing.map(|_: Instruction| Vec::new()));
}

#[test]
fn missing_operands_by_opcode() {
    let table = table_with_loop(9);
    let missing = |opcode, slot| {
        Err(AssemblyError::MalformedOperand { opcode, slot, reason: OperandFault::Missing })
    };
    assert_eq!(parse_instruction("Sense", &table, 0), missing(Opcode::Sense, 1));
    assert_eq!(parse_instruction("Sense Here", &table, 0), missing(Opcode::Sense, 2));
    assert_eq!(parse_instruction("Sense Here 1", &table, 0), missing(Opcode::Sense, 3));
    assert_eq!(parse_instruction("Sense Here 1 2", &table, 0), missing(Opcode::Sense, 4));
    assert_eq!(parse_instruction("Mark", &table, 0), missing(Opcode::Mark, 1));
    assert_eq!(parse_instruction("Mark 1", &table, 0), missing(Opcode::Mark, 2));
    assert_eq!(parse_instruction("Unmark 1", &table, 0), missing(Opcode::Unmark, 2));
    assert_eq!(parse_instruction("PickUp", &table, 0), missing(Opcode::PickUp, 1));
    assert_eq!(parse_instruction("Drop", &table, 0), missing(Opcode::Drop, 1));
    assert_eq!(parse_instruction("Turn", &table, 0), missing(Opcode::Turn, 1));
    assert_eq!(parse_instruction("Turn Left", &table, 0), missing(Opcode::Turn, 2));
    assert_eq!(parse_instruction("Flip 2 1", &table, 0), missing(Opcode::Flip, 3));
}

#[test]
fn operands_of_the_wrong_kind() {
    let table = table_with_loop(9);
    let bad = |opcode, slot, reason| Err(AssemblyError::MalformedOperand { opcode, slot, reason });
    assert_eq!(
        parse_instruction("Flip x 1 2", &table, 0),
        bad(Opcode::Flip, 1, OperandFault::NotUnsigned { token: "x".to_string() })
    );
    assert_eq!(
        parse_instruction("Mark -1 2", &table, 0),
        bad(Opcode::Mark, 1, OperandFault::NotUnsigned { token: "-1".to_string() })
    );
    assert_eq!(
        parse_instruction("Sense Left 1 2 Food", &table, 0),
        bad(Opcode::Sense, 1, OperandFault::UnknownDirection { token: "Left".to_string() })
    );
    assert_eq!(
        parse_instruction("Turn Ahead 1", &table, 0),
        bad(Opcode::Turn, 1, OperandFault::UnknownDirection { token: "Ahead".to_string() })
    );
    assert_eq!(
        parse_instruction("PickUp 1 nowhere", &table, 0),
        bad(Opcode::PickUp, 2, OperandFault::UnresolvedReference { token: "nowhere".to_string() })
    );
    assert_eq!(
        parse_instruction("Move -1 0", &table, 0),
        bad(Opcode::Move, 1, OperandFault::UnresolvedReference { token: "-1".to_string() })
    );
    assert_eq!(
        parse_instruction("Flip x y", &table, 0),
        bad(Opcode::Flip, 3, OperandFault::Missing)
    );
}

#[test]
fn every_opcode_parses() {
    let table = table_with_loop(9);
    assert_eq!(
        parse_instruction("Sense RightAhead loop 1 HomeBase", &table, 3),
        Ok(Instruction::Sense {
            sensedir: SenseDir::RightAhead,
            l1: 2,
            l2: 4,
            cond: "HomeBase".to_string()
        })
    );
    assert_eq!(parse_instruction("Mark 3 loop", &table, 3), Ok(Instruction::Mark { m: 3, l: 2 }));
    assert_eq!(parse_instruction("Unmark +4 -3", &table, 3), Ok(Instruction::Unmark { m: 4, l: 0 }));
    assert_eq!(parse_instruction("PickUp 1 2", &table, 3), Ok(Instruction::PickUp { l1: 4, l2: 5 }));
    assert_eq!(parse_instruction("Drop 5", &table, 3), Ok(Instruction::Drop { l: 8 }));
    assert_eq!(
        parse_instruction("Turn Right loop", &table, 3),
        Ok(Instruction::Turn { lr: RelDir::Right, l: 2 })
    );
    assert_eq!(parse_instruction("Move 0 0", &table, 3), Ok(Instruction::Move { l1: 3, l2: 3 }));
    assert_eq!(
        parse_instruction("Flip 007 1 -1", &table, 3),
        Ok(Instruction::Flip { p: 7, l1: 4, l2: 2 })
    );
}

#[test]
fn separators_and_extra_tokens() {
    let table = table_with_loop(9);
    assert_eq!(
        parse_instruction("  \tMove\u{a0}1 \u{3000} 2 \r\n", &table, 0),
        Ok(Instruction::Move { l1: 1, l2: 2 })
    );
    assert_eq!(parse_instruction("Drop 1 2 3", &table, 0), Ok(Instruction::Drop { l: 1 }));
    assert_eq!(
        parse_instruction("", &table, 0),
        Err(AssemblyError::UnknownOpcode { token: String::new() })
    );
    assert_eq!(
        parse_instruction("label x", &table, 0),
        Err(AssemblyError::UnknownOpcode { token: "label".to_string() })
    );
}

#[test]
fn condition_is_kept_as_written() {
    let table = table_with_loop(9);
    let instruction = parse_instruction("Sense Here 1 2 Marker3", &table, 0).unwrap();
    assert_eq!(instruction.to_string(), "Sense Here 1 2 Marker3");
}

#[test]
fn parsed_targets_are_instructions_of_the_program() {
    let table = table_with_loop(4);
    for cur in 0..4 {
        for token in ["-3", "-1", "0", "1", "2", "3", "loop"] {
            let line = format!("Move {} {}", token, token);
            if let Ok(Instruction::Move { l1, l2 }) = parse_instruction(&line, &table, cur) {
                assert!(l1 < 4 && l2 < 4);
            }
        }
    }
}

#[test]
fn canonical_text_round_trips() {
    let table = table_with_loop(12);
    let all = vec![
        Instruction::Sense {
            sensedir: SenseDir::LeftAhead,
            l1: 11,
            l2: 0,
            cond: "FoeWithFood".to_string(),
        },
        Instruction::Sense { sensedir: SenseDir::Here, l1: 1, l2: 2, cond: "Food".to_string() },
        Instruction::Mark { m: 5, l: 10 },
        Instruction::Unmark { m: 0, l: 3 },
        Instruction::PickUp { l1: 4, l2: 5 },
        Instruction::Drop { l: 6 },
        Instruction::Turn { lr: RelDir::Left, l: 7 },
        Instruction::Turn { lr: RelDir::Right, l: 8 },
        Instruction::Move { l1: 9, l2: 10 },
        Instruction::Flip { p: 18446744073709551615, l1: 1, l2: 0 },
    ];
    for instruction in all {
        let text = instruction.to_string();
        let back = parse_instruction(&text, &table, 0).unwrap();
        assert_eq!(back, instruction);
        assert_eq!(back.to_string(), text);
    }
}

#[test]
fn canonical_text_of_each_opcode() {
    assert_eq!(
        Instruction::Sense {
            sensedir: SenseDir::RightAhead,
            l1: 10,
            l2: 200,
            cond: "Foe".to_string()
        }
        .to_string(),
        "Sense RightAhead 10 200 Foe"
    );
    assert_eq!(Instruction::Mark { m: 1, l: 2 }.to_string(), "Mark 1 2");
    assert_eq!(Instruction::Unmark { m: 1, l: 2 }.to_string(), "Unmark 1 2");
    assert_eq!(Instruction::PickUp { l1: 1, l2: 2 }.to_string(), "PickUp 1 2");
    assert_eq!(Instruction::Drop { l: 0 }.to_string(), "Drop 0");
    assert_eq!(Instruction::Turn { lr: RelDir::Left, l: 3 }.to_string(), "Turn Left 3");
    assert_eq!(Instruction::Move { l1: 1234567890, l2: 9 }.to_string(), "Move 1234567890 9");
    assert_eq!(Instruction::Flip { p: 100, l1: 1, l2: 2 }.to_string(), "Flip 100 1 2");
}

#[test]
fn keywords_of_the_small_enums() {
    assert_eq!(SenseDir::Here.to_string(), "Here");
    assert_eq!(SenseDir::Ahead.to_string(), "Ahead");
    assert_eq!(SenseDir::LeftAhead.to_string(), "LeftAhead");
    assert_eq!(SenseDir::RightAhead.to_string(), "RightAhead");
    assert_eq!(RelDir::Left.to_string(), "Left");
    assert_eq!(RelDir::Right.to_string(), "Right");
    assert_eq!(Condition::Friend.to_string(), "Friend");
    assert_eq!(Condition::Foe.to_string(), "Foe");
    assert_eq!(Condition::FriendWithFood.to_string(), "FriendWithFood");
    assert_eq!(Condition::FoeWithFood.to_string(), "FoeWithFood");
    assert_eq!(Condition::Food.to_string(), "Food");
    assert_eq!(Condition::Building.to_string(), "Building");
    assert_eq!(Condition::Transponder(42).to_string(), "Transponder 42");
    assert_eq!(Condition::FoeTransponder.to_string(), "FoeTransponder");
    assert_eq!(Condition::HomeBase.to_string(), "HomeBase");
    assert_eq!(Condition::FoeBase.to_string(), "FoeBase");
    assert_eq!(Opcode::PickUp.to_string(), "PickUp");
    assert_eq!(Opcode::parse("Unmark"), Some(Opcode::Unmark));
    assert_eq!(Opcode::parse("unmark"), None);
}

#[test]
fn keyword_parsers() {
    assert_eq!(parse_cond("Friend"), Some(Condition::Friend));
    assert_eq!(parse_cond("Foe"), Some(Condition::Foe));
    assert_eq!(parse_cond("FriendWithFood"), Some(Condition::FriendWithFood));
    assert_eq!(parse_cond("FoeWithFood"), Some(Condition::FoeWithFood));
    assert_eq!(parse_cond("Food"), Some(Condition::Food));
    assert_eq!(parse_cond("Building"), Some(Condition::Building));
    assert_eq!(parse_cond("FoeTransponder"), Some(Condition::FoeTransponder));
    assert_eq!(parse_cond("HomeBase"), Some(Condition::HomeBase));
    assert_eq!(parse_cond("FoeBase"), Some(Condition::FoeBase));
    assert_eq!(parse_cond("Transponder"), None);
    assert_eq!(parse_cond("food"), None);
    assert_eq!(parse_cond(""), None);
    assert_eq!(parse_card_dir("Here"), Some(SenseDir::Here));
    assert_eq!(parse_card_dir("Ahead"), Some(SenseDir::Ahead));
    assert_eq!(parse_card_dir("LeftAhead"), Some(SenseDir::LeftAhead));
    assert_eq!(parse_card_dir("RightAhead"), Some(SenseDir::RightAhead));
    assert_eq!(parse_card_dir("Left"), None);
    assert_eq!(parse_rel_dir("Left"), Some(RelDir::Left));
    assert_eq!(parse_rel_dir("Right"), Some(RelDir::Right));
    assert_eq!(parse_rel_dir("LeftAhead"), None);
}

#[test]
fn blank_lines_take_no_index() {
    let src = lines(&["", "   ", "Drop 1", "\t", "label x", "Drop x"]);
    assert_eq!(parse_roboto_program(src), Ok(lines(&["Drop 1", "Drop 1"])));
}

#[test]
fn empty_program_assembles_to_nothing() {
    assert_eq!(parse_roboto_program(Vec::new()), Ok(Vec::new()));
}

#[test]
fn error_in_a_later_line_returns_no_partial_output() {
    assert_eq!(
        parse_roboto_program(lines(&["Drop 0", "Move 9"])),
        Err(AssemblyError::MalformedOperand {
            opcode: Opcode::Move,
            slot: 2,
            reason: OperandFault::Missing
        })
    );
}
