//! The assembler: from source lines to canonical instructions whose jump
//! targets are absolute indices.

use vstd::prelude::*;
use vstd::string::*;
pub use crate::error::{AssemblyError, OperandFault};
use crate::error::{ErrorModel, FaultModel};
pub use crate::instruction::{CardDir, Condition, Instruction, Opcode, RelDir, SenseDir};
use crate::instruction::{
    lemma_opcode_keywords, lemma_sense_keywords, lemma_turn_keywords, InstructionModel,
};
use crate::number::{
    decimal, lemma_decimal, lemma_decimal_parses, parse_i64, parse_signed, parse_unsigned,
    parse_usize,
};
use crate::symbols::{
    declared_label, instruction_count, is_instruction_line, lemma_duplicate_label,
    lemma_label_binds_next, lemma_scan_counts, scan, TableModel,
};
pub use crate::symbols::SymbolTable;
use crate::text::{
    all_words, is_word, lemma_tokens_spaced, same_text, split_whitespace, texts, tokens,
};

verus! {

/// The instruction that a jump operand at instruction `cur` leads to. A
/// signed number is an offset from `cur`; any other token is a label. Either
/// way the target must be one of the program's instructions.
pub open spec fn resolve(token: Seq<char>, table: TableModel, cur: nat) -> Option<nat> {
    match parse_signed(token) {
        Some(offset) => if 0 <= cur + offset < table.count {
            Some((cur + offset) as nat)
        } else {
            None
        },
        None => if table.labels.contains_key(token) && table.labels[token] < table.count {
            Some(table.labels[token])
        } else {
            None
        },
    }
}

/// The three ways a jump operand can go: a number is an offset and nothing
/// else, even where a label of that name is declared; a token that is no
/// number is looked up; what is neither a number nor a declared label leads
/// nowhere.
pub proof fn lemma_resolve_cases(token: Seq<char>, table: TableModel, cur: nat)
    ensures
        parse_signed(token) matches Some(offset) ==> resolve(token, table, cur) == (if 0 <= cur
            + offset < table.count {
            Some((cur + offset) as nat)
        } else {
            None
        }),
        parse_signed(token) is None && table.labels.contains_key(token) && table.labels[token]
            < table.count ==> resolve(token, table, cur) == Some(table.labels[token]),
        parse_signed(token) is None && !table.labels.contains_key(token) ==> resolve(
            token,
            table,
            cur,
        ) is None,
        resolve(token, table, cur) matches Some(target) ==> target < table.count,
{
}

/// The error for operand `slot` of `opcode`.
pub open spec fn malformed(opcode: Opcode, slot: int, reason: FaultModel) -> ErrorModel {
    ErrorModel::MalformedOperand { opcode, slot: slot as nat, reason }
}

/// The marker or probability in slot `slot`.
pub open spec fn number_at(toks: Seq<Seq<char>>, opcode: Opcode, slot: int) -> Result<
    nat,
    ErrorModel,
> {
    match parse_unsigned(toks[slot], usize::MAX as nat) {
        Some(v) => Ok(v),
        None => Err(malformed(opcode, slot, FaultModel::NotUnsigned { token: toks[slot] })),
    }
}

/// The jump target in slot `slot`.
pub open spec fn target_at(
    toks: Seq<Seq<char>>,
    table: TableModel,
    cur: nat,
    opcode: Opcode,
    slot: int,
) -> Result<nat, ErrorModel> {
    match resolve(toks[slot], table, cur) {
        Some(v) => Ok(v),
        None => Err(malformed(opcode, slot, FaultModel::UnresolvedReference { token: toks[slot] })),
    }
}

/// The sense direction in slot `slot`.
pub open spec fn sense_dir_at(toks: Seq<Seq<char>>, slot: int) -> Result<SenseDir, ErrorModel> {
    match SenseDir::of_token(toks[slot]) {
        Some(d) => Ok(d),
        None => Err(
            malformed(Opcode::Sense, slot, FaultModel::UnknownDirection { token: toks[slot] }),
        ),
    }
}

/// The turn in slot `slot`.
pub open spec fn turn_at(toks: Seq<Seq<char>>, slot: int) -> Result<RelDir, ErrorModel> {
    match RelDir::of_token(toks[slot]) {
        Some(d) => Ok(d),
        None => Err(
            malformed(Opcode::Turn, slot, FaultModel::UnknownDirection { token: toks[slot] }),
        ),
    }
}

/// The operands of `opcode`, where none is missing, read slot by slot; the
/// first slot that fails gives the error.
pub open spec fn read_operands(
    opcode: Opcode,
    toks: Seq<Seq<char>>,
    table: TableModel,
    cur: nat,
) -> Result<InstructionModel, ErrorModel> {
    let n1 = number_at(toks, opcode, 1);
    let t1 = target_at(toks, table, cur, opcode, 1);
    let t2 = target_at(toks, table, cur, opcode, 2);
    let t3 = target_at(toks, table, cur, opcode, 3);
    match opcode {
        Opcode::Sense => {
            let d = sense_dir_at(toks, 1);
            if d is Err {
                Err(d->Err_0)
            } else if t2 is Err {
                Err(t2->Err_0)
            } else if t3 is Err {
                Err(t3->Err_0)
            } else {
                Ok(
                    InstructionModel::Sense {
                        sensedir: d->Ok_0,
                        l1: t2->Ok_0,
                        l2: t3->Ok_0,
                        cond: toks[4],
                    },
                )
            }
        },
        Opcode::Mark => if n1 is Err {
            Err(n1->Err_0)
        } else if t2 is Err {
            Err(t2->Err_0)
        } else {
            Ok(InstructionModel::Mark { m: n1->Ok_0, l: t2->Ok_0 })
        },
        Opcode::Unmark => if n1 is Err {
            Err(n1->Err_0)
        } else if t2 is Err {
            Err(t2->Err_0)
        } else {
            Ok(InstructionModel::Unmark { m: n1->Ok_0, l: t2->Ok_0 })
        },
        Opcode::PickUp => if t1 is Err {
            Err(t1->Err_0)
        } else if t2 is Err {
            Err(t2->Err_0)
        } else {
            Ok(InstructionModel::PickUp { l1: t1->Ok_0, l2: t2->Ok_0 })
        },
        Opcode::Drop => if t1 is Err {
            Err(t1->Err_0)
        } else {
            Ok(InstructionModel::Drop { l: t1->Ok_0 })
        },
        Opcode::Turn => {
            let d = turn_at(toks, 1);
            if d is Err {
                Err(d->Err_0)
            } else if t2 is Err {
                Err(t2->Err_0)
            } else {
                Ok(InstructionModel::Turn { lr: d->Ok_0, l: t2->Ok_0 })
            }
        },
        Opcode::Move => if t1 is Err {
            Err(t1->Err_0)
        } else if t2 is Err {
            Err(t2->Err_0)
        } else {
            Ok(InstructionModel::Move { l1: t1->Ok_0, l2: t2->Ok_0 })
        },
        Opcode::Flip => if n1 is Err {
            Err(n1->Err_0)
        } else if t2 is Err {
            Err(t2->Err_0)
        } else if t3 is Err {
            Err(t3->Err_0)
        } else {
            Ok(InstructionModel::Flip { p: n1->Ok_0, l1: t2->Ok_0, l2: t3->Ok_0 })
        },
    }
}

/// The operands of `opcode`. A line with fewer operands than the opcode
/// takes fails at the first slot that is missing, whatever the operands
/// before it hold. Tokens after the last slot are not looked at.
pub open spec fn parse_operands(
    opcode: Opcode,
    toks: Seq<Seq<char>>,
    table: TableModel,
    cur: nat,
) -> Result<InstructionModel, ErrorModel> {
    if toks.len() <= opcode.arity() {
        Err(malformed(opcode, toks.len() as int, FaultModel::Missing))
    } else {
        read_operands(opcode, toks, table, cur)
    }
}

/// The instruction that the tokens of one line write, for the instruction
/// at index `cur`.
pub open spec fn parse_tokens(toks: Seq<Seq<char>>, table: TableModel, cur: nat) -> Result<
    InstructionModel,
    ErrorModel,
> {
    if toks.len() == 0 {
        Err(ErrorModel::UnknownOpcode { token: Seq::empty() })
    } else {
        match Opcode::of_token(toks[0]) {
            Some(opcode) => parse_operands(opcode, toks, table, cur),
            None => Err(ErrorModel::UnknownOpcode { token: toks[0] }),
        }
    }
}

/// The second pass: the canonical text of each instruction line, in order,
/// or the first error. An instruction's index is the number of instructions
/// before it.
pub open spec fn emit(lines: Seq<Seq<char>>, table: TableModel) -> Result<
    Seq<Seq<char>>,
    ErrorModel,
>
    decreases lines.len(),
{
    if lines.len() == 0 {
        Ok(Seq::empty())
    } else {
        match emit(lines.drop_last(), table) {
            Ok(code) => {
                let toks = tokens(lines.last());
                if is_instruction_line(toks) {
                    match parse_tokens(toks, table, code.len()) {
                        Ok(instruction) => Ok(code.push(instruction.render())),
                        Err(e) => Err(e),
                    }
                } else {
                    Ok(code)
                }
            },
            Err(e) => Err(e),
        }
    }
}

/// Whether `line` is the canonical text of an instruction that jumps only
/// to instructions of a program of `count` instructions.
pub open spec fn is_resolved_text(line: Seq<char>, count: nat) -> bool {
    exists|instruction: InstructionModel|
        line == #[trigger] instruction.render() && instruction.targets_below(count)
}

/// Both passes: the assembled program, or its first error.
pub open spec fn assemble(lines: Seq<Seq<char>>) -> Result<Seq<Seq<char>>, ErrorModel> {
    match scan(lines) {
        Ok(table) => emit(lines, table),
        Err(e) => Err(e),
    }
}

/// Once the second pass has failed on a prefix, it fails alike on the whole.
pub proof fn lemma_emit_fails_for_good(lines: Seq<Seq<char>>, table: TableModel, k: int)
    requires
        0 <= k <= lines.len(),
        emit(lines.take(k), table) is Err,
    ensures
        emit(lines, table) == emit(lines.take(k), table),
    decreases lines.len(),
{
    if k == lines.len() {
        assert(lines.take(k) =~= lines);
    } else {
        assert(lines.drop_last().take(k) =~= lines.take(k));
        lemma_emit_fails_for_good(lines.drop_last(), table, k);
    }
}

/// The second pass emits one line for each instruction line.
pub proof fn lemma_emit_counts(lines: Seq<Seq<char>>, table: TableModel)
    requires
        emit(lines, table) is Ok,
    ensures
        emit(lines, table)->Ok_0.len() == instruction_count(lines),
    decreases lines.len(),
{
    if lines.len() > 0 {
        lemma_emit_counts(lines.drop_last(), table);
    }
}

/// A label declared directly before an instruction line is bound to the
/// index under which the second pass reads that instruction.
pub proof fn lemma_label_names_next_instruction(lines: Seq<Seq<char>>, k: int)
    requires
        0 <= k < lines.len() - 1,
        declared_label(tokens(lines[k])) is Some,
        is_instruction_line(tokens(lines[k + 1])),
        scan(lines) is Ok,
        emit(lines.take(k + 1), scan(lines)->Ok_0) is Ok,
    ensures
        scan(lines)->Ok_0.labels[declared_label(tokens(lines[k]))->0] == emit(
            lines.take(k + 1),
            scan(lines)->Ok_0,
        )->Ok_0.len(),
{
    lemma_label_binds_next(lines, k);
    lemma_emit_counts(lines.take(k + 1), scan(lines)->Ok_0);
    assert(lines.take(k + 1).drop_last() =~= lines.take(k));
    assert(lines.take(k + 1).last() == lines[k]);
}

/// Every line that the second pass emits is the canonical text of an
/// instruction that jumps only to instructions of the program.
pub proof fn lemma_emitted_lines(lines: Seq<Seq<char>>, table: TableModel, k: int)
    requires
        emit(lines, table) is Ok,
        0 <= k < emit(lines, table)->Ok_0.len(),
    ensures
        is_resolved_text(emit(lines, table)->Ok_0[k], table.count),
    decreases lines.len(),
{
    let prev = emit(lines.drop_last(), table)->Ok_0;
    if k < prev.len() {
        lemma_emitted_lines(lines.drop_last(), table, k);
    } else {
        let toks = tokens(lines.last());
        let instruction = parse_tokens(toks, table, prev.len())->Ok_0;
        lemma_parsed_targets_exist(toks, table, prev.len());
        assert(emit(lines, table)->Ok_0[k] == instruction.render());
    }
}

/// A program that declares one label on two lines is rejected for a
/// duplicate label, whatever else it holds; where no label is declared
/// twice before the second of the two lines, for this label.
pub proof fn lemma_duplicate_label_rejected(lines: Seq<Seq<char>>, i: int, j: int)
    requires
        0 <= i < j < lines.len(),
        declared_label(tokens(lines[i])) is Some,
        declared_label(tokens(lines[i])) == declared_label(tokens(lines[j])),
    ensures
        assemble(lines) is Err,
        assemble(lines)->Err_0 is DuplicateLabel,
        scan(lines.take(j)) is Ok ==> assemble(lines) == Err::<Seq<Seq<char>>, ErrorModel>(
            ErrorModel::DuplicateLabel { label: declared_label(tokens(lines[i]))->0 },
        ),
{
    lemma_duplicate_label(lines, i, j);
}

/// A line with an opcode and too few operands fails at the first slot that
/// is missing: the slot whose number is the number of tokens.
pub proof fn lemma_missing_operand(toks: Seq<Seq<char>>, table: TableModel, cur: nat, opcode: Opcode)
    requires
        0 < toks.len() <= opcode.arity(),
        Opcode::of_token(toks[0]) == Some(opcode),
    ensures
        parse_tokens(toks, table, cur) == Err::<InstructionModel, ErrorModel>(
            ErrorModel::MalformedOperand {
                opcode,
                slot: toks.len(),
                reason: FaultModel::Missing,
            },
        ),
{
}

/// An instruction that parsing accepts jumps only to instructions of the
/// program.
pub proof fn lemma_parsed_targets_exist(toks: Seq<Seq<char>>, table: TableModel, cur: nat)
    requires
        parse_tokens(toks, table, cur) is Ok,
    ensures
        parse_tokens(toks, table, cur)->Ok_0.targets_below(table.count),
{
}

/// Reading the canonical text of an instruction, as the instruction at
/// index 0, gives the instruction back, and so its text again.
pub proof fn lemma_round_trip(instruction: InstructionModel, table: TableModel)
    requires
        instruction.canonical(table.count),
    ensures
        tokens(instruction.render()) == instruction.words(),
        parse_tokens(tokens(instruction.render()), table, 0) == Ok::<InstructionModel, ErrorModel>(
            instruction,
        ),
        parse_tokens(tokens(instruction.render()), table, 0)->Ok_0.render() == instruction.render(),
{
    let words = instruction.words();
    let opcode = instruction.opcode();
    lemma_opcode_keywords(opcode);
    assert(words[0] == opcode.keyword());
    assert forall|k: int| 0 <= k < instruction.targets().len() implies resolve(
        decimal(#[trigger] instruction.targets()[k]),
        table,
        0,
    ) == Some(instruction.targets()[k]) && is_word(decimal(instruction.targets()[k])) by {
        let l = instruction.targets()[k];
        lemma_decimal(l);
        lemma_decimal_parses(l, l);
    }
    match instruction {
        InstructionModel::Sense { sensedir, l1, l2, cond } => {
            lemma_sense_keywords(sensedir);
            assert(instruction.targets()[0] == l1 && instruction.targets()[1] == l2);
        },
        InstructionModel::Mark { m, l } => {
            lemma_decimal(m);
            lemma_decimal_parses(m, usize::MAX as nat);
            assert(instruction.targets()[0] == l);
        },
        InstructionModel::Unmark { m, l } => {
            lemma_decimal(m);
            lemma_decimal_parses(m, usize::MAX as nat);
            assert(instruction.targets()[0] == l);
        },
        InstructionModel::PickUp { l1, l2 } => {
            assert(instruction.targets()[0] == l1 && instruction.targets()[1] == l2);
        },
        InstructionModel::Drop { l } => {
            assert(instruction.targets()[0] == l);
        },
        InstructionModel::Turn { lr, l } => {
            lemma_turn_keywords(lr);
            assert(instruction.targets()[0] == l);
        },
        InstructionModel::Move { l1, l2 } => {
            assert(instruction.targets()[0] == l1 && instruction.targets()[1] == l2);
        },
        InstructionModel::Flip { p, l1, l2 } => {
            lemma_decimal(p);
            lemma_decimal_parses(p, usize::MAX as nat);
            assert(instruction.targets()[0] == l1 && instruction.targets()[1] == l2);
        },
    }
    assert(all_words(words));
    lemma_tokens_spaced(words);
}

/// Reads a condition keyword.
pub fn parse_cond(cond: &str) -> (r: Option<Condition>)
    ensures
        r == Condition::of_token(cond@),
{
    if same_text(cond, "Friend") {
        Some(Condition::Friend)
    } else if same_text(cond, "Foe") {
        Some(Condition::Foe)
    } else if same_text(cond, "FriendWithFood") {
        Some(Condition::FriendWithFood)
    } else if same_text(cond, "FoeWithFood") {
        Some(Condition::FoeWithFood)
    } else if same_text(cond, "Food") {
        Some(Condition::Food)
    } else if same_text(cond, "Building") {
        Some(Condition::Building)
    } else if same_text(cond, "FoeTransponder") {
        Some(Condition::FoeTransponder)
    } else if same_text(cond, "HomeBase") {
        Some(Condition::HomeBase)
    } else if same_text(cond, "FoeBase") {
        Some(Condition::FoeBase)
    } else {
        None
    }
}

/// Reads a sense direction keyword.
pub fn parse_card_dir(dir: &str) -> (r: Option<SenseDir>)
    ensures
        r == SenseDir::of_token(dir@),
{
    if same_text(dir, "Here") {
        Some(SenseDir::Here)
    } else if same_text(dir, "Ahead") {
        Some(SenseDir::Ahead)
    } else if same_text(dir, "LeftAhead") {
        Some(SenseDir::LeftAhead)
    } else if same_text(dir, "RightAhead") {
        Some(SenseDir::RightAhead)
    } else {
        None
    }
}

/// Reads a turn keyword.
pub fn parse_rel_dir(dir: &str) -> (r: Option<RelDir>)
    ensures
        r == RelDir::of_token(dir@),
{
    if same_text(dir, "Right") {
        Some(RelDir::Right)
    } else if same_text(dir, "Left") {
        Some(RelDir::Left)
    } else {
        None
    }
}

/// Resolves a jump operand of the instruction at index `cur_line` to the
/// index of the instruction it leads to.
pub fn resolve_label(label: &str, table: &SymbolTable, cur_line: usize) -> (r: Result<
    usize,
    AssemblyError,
>)
    ensures
        match r {
            Ok(target) => resolve(label@, table@, cur_line as nat) == Some(target as nat),
            Err(e) => resolve(label@, table@, cur_line as nat) is None && e@
                == (ErrorModel::UnresolvedReference { token: label@ }),
        },
{
    let count = table.instruction_count();
    let found = match parse_i64(label) {
        Some(offset) => {
            let target: i128 = cur_line as i128 + offset as i128;
            if 0 <= target && target < count as i128 {
                Some(target as usize)
            } else {
                None
            }
        },
        None => match table.lookup(label) {
            Some(index) => if index < count {
                Some(index)
            } else {
                None
            },
            None => None,
        },
    };
    match found {
        Some(target) => Ok(target),
        None => Err(AssemblyError::UnresolvedReference { token: String::from_str(label) }),
    }
}

/// Whether an outcome and its model say the same.
pub open spec fn same_index(r: Result<usize, AssemblyError>, m: Result<nat, ErrorModel>) -> bool {
    match r {
        Ok(v) => m == Ok::<nat, ErrorModel>(v as nat),
        Err(e) => m == Err::<nat, ErrorModel>(e@),
    }
}

fn number_operand(parts: &Vec<String>, opcode: Opcode, slot: usize) -> (r: Result<
    usize,
    AssemblyError,
>)
    requires
        slot < parts.len(),
    ensures
        same_index(r, number_at(texts(parts@), opcode, slot as int)),
{
    assert(texts(parts@)[slot as int] == parts@[slot as int]@);
    match parse_usize(parts[slot].as_str()) {
        Some(v) => Ok(v),
        None => Err(
            AssemblyError::MalformedOperand {
                opcode,
                slot,
                reason: OperandFault::NotUnsigned { token: parts[slot].clone() },
            },
        ),
    }
}

fn target_operand(
    parts: &Vec<String>,
    table: &SymbolTable,
    cur: usize,
    opcode: Opcode,
    slot: usize,
) -> (r: Result<usize, AssemblyError>)
    requires
        slot < parts.len(),
    ensures
        same_index(r, target_at(texts(parts@), table@, cur as nat, opcode, slot as int)),
{
    assert(texts(parts@)[slot as int] == parts@[slot as int]@);
    match resolve_label(parts[slot].as_str(), table, cur) {
        Ok(v) => Ok(v),
        Err(_) => Err(
            AssemblyError::MalformedOperand {
                opcode,
                slot,
                reason: OperandFault::UnresolvedReference { token: parts[slot].clone() },
            },
        ),
    }
}

fn sense_dir_operand(parts: &Vec<String>, slot: usize) -> (r: Result<SenseDir, AssemblyError>)
    requires
        slot < parts.len(),
    ensures
        match r {
            Ok(d) => sense_dir_at(texts(parts@), slot as int) == Ok::<SenseDir, ErrorModel>(d),
            Err(e) => sense_dir_at(texts(parts@), slot as int) == Err::<SenseDir, ErrorModel>(e@),
        },
{
    let opcode = Opcode::Sense;
    assert(texts(parts@)[slot as int] == parts@[slot as int]@);
    match parse_card_dir(parts[slot].as_str()) {
        Some(d) => Ok(d),
        None => Err(
            AssemblyError::MalformedOperand {
                opcode,
                slot,
                reason: OperandFault::UnknownDirection { token: parts[slot].clone() },
            },
        ),
    }
}

fn turn_operand(parts: &Vec<String>, slot: usize) -> (r: Result<RelDir, AssemblyError>)
    requires
        slot < parts.len(),
    ensures
        match r {
            Ok(d) => turn_at(texts(parts@), slot as int) == Ok::<RelDir, ErrorModel>(d),
            Err(e) => turn_at(texts(parts@), slot as int) == Err::<RelDir, ErrorModel>(e@),
        },
{
    let opcode = Opcode::Turn;
    assert(texts(parts@)[slot as int] == parts@[slot as int]@);
    match parse_rel_dir(parts[slot].as_str()) {
        Some(d) => Ok(d),
        None => Err(
            AssemblyError::MalformedOperand {
                opcode,
                slot,
                reason: OperandFault::UnknownDirection { token: parts[slot].clone() },
            },
        ),
    }
}

/// Whether an outcome and its model say the same.
pub open spec fn same_instruction(
    r: Result<Instruction, AssemblyError>,
    m: Result<InstructionModel, ErrorModel>,
) -> bool {
    match r {
        Ok(instruction) => m == Ok::<InstructionModel, ErrorModel>(instruction@),
        Err(e) => m == Err::<InstructionModel, ErrorModel>(e@),
    }
}

/// Reads the instruction that `parts` write.
fn parse_parts(parts: &Vec<String>, table: &SymbolTable, cur: usize) -> (r: Result<
    Instruction,
    AssemblyError,
>)
    ensures
        same_instruction(r, parse_tokens(texts(parts@), table@, cur as nat)),
{
    if parts.len() == 0 {
        return Err(AssemblyError::UnknownOpcode { token: String::new() });
    }
    assert(texts(parts@)[0] == parts@[0]@);
    let opcode = match Opcode::parse(parts[0].as_str()) {
        Some(opcode) => opcode,
        None => {
            return Err(AssemblyError::UnknownOpcode { token: parts[0].clone() });
        },
    };
    if parts.len() <= opcode.operand_count() {
        return Err(
            AssemblyError::MalformedOperand {
                opcode,
                slot: parts.len(),
                reason: OperandFault::Missing,
            },
        );
    }
    match opcode {
        Opcode::Sense => {
            let sensedir = sense_dir_operand(parts, 1)?;
            let l1 = target_operand(parts, table, cur, opcode, 2)?;
            let l2 = target_operand(parts, table, cur, opcode, 3)?;
            assert(texts(parts@)[4] == parts@[4]@);
            let cond = parts[4].clone();
            Ok(Instruction::Sense { sensedir, l1, l2, cond })
        },
        Opcode::Mark => {
            let m = number_operand(parts, opcode, 1)?;
            let l = target_operand(parts, table, cur, opcode, 2)?;
            Ok(Instruction::Mark { m, l })
        },
        Opcode::Unmark => {
            let m = number_operand(parts, opcode, 1)?;
            let l = target_operand(parts, table, cur, opcode, 2)?;
            Ok(Instruction::Unmark { m, l })
        },
        Opcode::PickUp => {
            let l1 = target_operand(parts, table, cur, opcode, 1)?;
            let l2 = target_operand(parts, table, cur, opcode, 2)?;
            Ok(Instruction::PickUp { l1, l2 })
        },
        Opcode::Drop => {
            let l = target_operand(parts, table, cur, opcode, 1)?;
            Ok(Instruction::Drop { l })
        },
        Opcode::Turn => {
            let lr = turn_operand(parts, 1)?;
            let l = target_operand(parts, table, cur, opcode, 2)?;
            Ok(Instruction::Turn { lr, l })
        },
        Opcode::Move => {
            let l1 = target_operand(parts, table, cur, opcode, 1)?;
            let l2 = target_operand(parts, table, cur, opcode, 2)?;
            Ok(Instruction::Move { l1, l2 })
        },
        Opcode::Flip => {
            let p = number_operand(parts, opcode, 1)?;
            let l1 = target_operand(parts, table, cur, opcode, 2)?;
            let l2 = target_operand(parts, table, cur, opcode, 3)?;
            Ok(Instruction::Flip { p, l1, l2 })
        },
    }
}

/// Reads one instruction line, for the instruction at index `cur_line`.
/// Every jump operand is resolved against `table`.
pub fn parse_instruction(input: &str, table: &SymbolTable, cur_line: usize) -> (r: Result<
    Instruction,
    AssemblyError,
>)
    ensures
        same_instruction(r, parse_tokens(tokens(input@), table@, cur_line as nat)),
        r matches Ok(instruction) ==> instruction@.targets_below(table@.count),
{
    let parts = split_whitespace(input);
    let r = parse_parts(&parts, table, cur_line);
    proof {
        if r is Ok {
            lemma_parsed_targets_exist(tokens(input@), table@, cur_line as nat);
        }
    }
    r
}

/// Assembles a program: the canonical text of each instruction, in order,
/// or the first error, with nothing emitted. On success there is one line
/// for each instruction line of the source, and each is the text of an
/// instruction whose jump targets are instructions of the program.
pub fn parse_roboto_program(input: Vec<String>) -> (r: Result<Vec<String>, AssemblyError>)
    ensures
        match r {
            Ok(code) => assemble(texts(input@)) == Ok::<Seq<Seq<char>>, ErrorModel>(texts(code@)),
            Err(e) => assemble(texts(input@)) == Err::<Seq<Seq<char>>, ErrorModel>(e@),
        },
        r matches Ok(code) ==> {
            &&& code.len() == instruction_count(texts(input@))
            &&& forall|k: int|
                0 <= k < code.len() ==> is_resolved_text((#[trigger] code@[k])@, code.len() as nat)
        },
{
    let table = match SymbolTable::build(&input) {
        Ok(table) => table,
        Err(e) => {
            return Err(e);
        },
    };
    let ghost all = texts(input@);
    let mut code: Vec<String> = Vec::new();
    let mut i: usize = 0;
    assert(all.take(0) =~= Seq::<Seq<char>>::empty());
    assert(texts(code@) =~= Seq::<Seq<char>>::empty());
    while i < input.len()
        invariant
            i <= input.len(),
            all == texts(input@),
            code.len() <= i,
            scan(all) == Ok::<TableModel, ErrorModel>(table@),
            emit(all.take(i as int), table@) == Ok::<Seq<Seq<char>>, ErrorModel>(texts(code@)),
        decreases input.len() - i,
    {
        let parts = split_whitespace(input[i].as_str());
        proof {
            assert(all.take(i + 1).drop_last() =~= all.take(i as int));
            assert(all.take(i + 1).last() == input@[i as int]@);
            reveal_strlit("label");
        }
        if parts.len() > 0 {
            assert(texts(parts@)[0] == parts@[0]@);
            if !same_text(parts[0].as_str(), "label") {
                match parse_parts(&parts, &table, code.len()) {
                    Ok(instruction) => {
                        let ghost before = texts(code@);
                        let line = instruction.to_string();
                        code.push(line);
                        assert(texts(code@) =~= before.push(instruction@.render()));
                    },
                    Err(e) => {
                        proof {
                            lemma_emit_fails_for_good(all, table@, i + 1);
                        }
                        return Err(e);
                    },
                }
            }
        }
        i += 1;
    }
    assert(all.take(input.len() as int) =~= all);
    proof {
        lemma_scan_counts(all);
        lemma_emit_counts(all, table@);
        assert forall|k: int| 0 <= k < code.len() implies is_resolved_text(
            (#[trigger] code@[k])@,
            code.len() as nat,
        ) by {
            lemma_emitted_lines(all, table@, k);
            assert(texts(code@)[k] == code@[k]@);
        }
    }
    Ok(code)
}

} // verus!
