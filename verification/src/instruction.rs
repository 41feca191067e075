//! Instructions, their operands, and their canonical text.

use vstd::prelude::*;
use vstd::string::*;
use crate::number::{decimal, push_decimal};
use crate::text::{is_space, is_word, join_words, same_text, spaced, texts};

verus! {

/// The eight operations of the language.
#[derive(Clone, Copy, Debug, PartialEq, Eq)]
pub enum Opcode {
    Sense,
    Mark,
    Unmark,
    PickUp,
    Drop,
    Turn,
    Move,
    Flip,
}

impl Opcode {
    /// The keyword that starts an instruction line.
    pub open spec fn keyword(self) -> Seq<char> {
        match self {
            Opcode::Sense => "Sense"@,
            Opcode::Mark => "Mark"@,
            Opcode::Unmark => "Unmark"@,
            Opcode::PickUp => "PickUp"@,
            Opcode::Drop => "Drop"@,
            Opcode::Turn => "Turn"@,
            Opcode::Move => "Move"@,
            Opcode::Flip => "Flip"@,
        }
    }

    /// How many operands the opcode takes.
    pub open spec fn arity(self) -> nat {
        match self {
            Opcode::Sense => 4,
            Opcode::Mark => 2,
            Opcode::Unmark => 2,
            Opcode::PickUp => 2,
            Opcode::Drop => 1,
            Opcode::Turn => 2,
            Opcode::Move => 2,
            Opcode::Flip => 3,
        }
    }

    /// The opcode that a token names, if any.
    pub open spec fn of_token(token: Seq<char>) -> Option<Opcode> {
        if token == "Sense"@ {
            Some(Opcode::Sense)
        } else if token == "Mark"@ {
            Some(Opcode::Mark)
        } else if token == "Unmark"@ {
            Some(Opcode::Unmark)
        } else if token == "PickUp"@ {
            Some(Opcode::PickUp)
        } else if token == "Drop"@ {
            Some(Opcode::Drop)
        } else if token == "Turn"@ {
            Some(Opcode::Turn)
        } else if token == "Move"@ {
            Some(Opcode::Move)
        } else if token == "Flip"@ {
            Some(Opcode::Flip)
        } else {
            None
        }
    }

    /// How many operands the opcode takes.
    pub fn operand_count(&self) -> (r: usize)
        ensures
            r == self.arity(),
    {
        match self {
            Opcode::Sense => 4,
            Opcode::Mark => 2,
            Opcode::Unmark => 2,
            Opcode::PickUp => 2,
            Opcode::Drop => 1,
            Opcode::Turn => 2,
            Opcode::Move => 2,
            Opcode::Flip => 3,
        }
    }

    /// The keyword as text.
    pub fn name(&self) -> (r: &'static str)
        ensures
            r@ == self.keyword(),
    {
        match self {
            Opcode::Sense => "Sense",
            Opcode::Mark => "Mark",
            Opcode::Unmark => "Unmark",
            Opcode::PickUp => "PickUp",
            Opcode::Drop => "Drop",
            Opcode::Turn => "Turn",
            Opcode::Move => "Move",
            Opcode::Flip => "Flip",
        }
    }

    /// The keyword as an owned string.
    pub fn to_string(&self) -> (r: String)
        ensures
            r@ == self.keyword(),
    {
        String::from_str(self.name())
    }

    /// Reads an opcode keyword.
    pub fn parse(token: &str) -> (r: Option<Opcode>)
        ensures
            r == Opcode::of_token(token@),
    {
        if same_text(token, "Sense") {
            Some(Opcode::Sense)
        } else if same_text(token, "Mark") {
            Some(Opcode::Mark)
        } else if same_text(token, "Unmark") {
            Some(Opcode::Unmark)
        } else if same_text(token, "PickUp") {
            Some(Opcode::PickUp)
        } else if same_text(token, "Drop") {
            Some(Opcode::Drop)
        } else if same_text(token, "Turn") {
            Some(Opcode::Turn)
        } else if same_text(token, "Move") {
            Some(Opcode::Move)
        } else if same_text(token, "Flip") {
            Some(Opcode::Flip)
        } else {
            None
        }
    }
}

/// A compass direction on the hexagonal grid.
#[derive(Clone, Copy, Debug, PartialEq, Eq)]
pub enum CardDir {
    NorthEast,
    East,
    SouthEast,
    SouthWest,
    West,
    NorthWest,
}

impl CardDir {
    /// The name of this direction.
    pub open spec fn text(self) -> Seq<char> {
        match self {
            CardDir::NorthEast => "NorthEast"@,
            CardDir::East => "East"@,
            CardDir::SouthEast => "SouthEast"@,
            CardDir::SouthWest => "SouthWest"@,
            CardDir::West => "West"@,
            CardDir::NorthWest => "NorthWest"@,
        }
    }

    /// The text of this value.
    pub fn to_string(&self) -> (r: String)
        ensures
            r@ == self.text(),
    {
        match self {
            CardDir::NorthEast => String::from_str("NorthEast"),
            CardDir::East => String::from_str("East"),
            CardDir::SouthEast => String::from_str("SouthEast"),
            CardDir::SouthWest => String::from_str("SouthWest"),
            CardDir::West => String::from_str("West"),
            CardDir::NorthWest => String::from_str("NorthWest"),
        }
    }
}

/// Where an agent senses, relative to its heading.
#[derive(Clone, Copy, Debug, PartialEq, Eq)]
pub enum SenseDir {
    Here,
    Ahead,
    LeftAhead,
    RightAhead,
}

impl SenseDir {
    /// The keyword of this direction, in source and in canonical text alike.
    pub open spec fn text(self) -> Seq<char> {
        match self {
            SenseDir::Here => "Here"@,
            SenseDir::Ahead => "Ahead"@,
            SenseDir::LeftAhead => "LeftAhead"@,
            SenseDir::RightAhead => "RightAhead"@,
        }
    }

    /// The direction that a token names, if any.
    pub open spec fn of_token(token: Seq<char>) -> Option<SenseDir> {
        if token == "Here"@ {
            Some(SenseDir::Here)
        } else if token == "Ahead"@ {
            Some(SenseDir::Ahead)
        } else if token == "LeftAhead"@ {
            Some(SenseDir::LeftAhead)
        } else if token == "RightAhead"@ {
            Some(SenseDir::RightAhead)
        } else {
            None
        }
    }

    /// The text of this value.
    pub fn to_string(&self) -> (r: String)
        ensures
            r@ == self.text(),
    {
        match self {
            SenseDir::Here => String::from_str("Here"),
            SenseDir::Ahead => String::from_str("Ahead"),
            SenseDir::LeftAhead => String::from_str("LeftAhead"),
            SenseDir::RightAhead => String::from_str("RightAhead"),
        }
    }
}

/// A turn by one step.
#[derive(Clone, Copy, Debug, PartialEq, Eq)]
pub enum RelDir {
    Left,
    Right,
}

impl RelDir {
    /// The keyword of this turn, in source and in canonical text alike.
    pub open spec fn text(self) -> Seq<char> {
        match self {
            RelDir::Left => "Left"@,
            RelDir::Right => "Right"@,
        }
    }

    /// The turn that a token names, if any.
    pub open spec fn of_token(token: Seq<char>) -> Option<RelDir> {
        if token == "Right"@ {
            Some(RelDir::Right)
        } else if token == "Left"@ {
            Some(RelDir::Left)
        } else {
            None
        }
    }

    /// The text of this value.
    pub fn to_string(&self) -> (r: String)
        ensures
            r@ == self.text(),
    {
        match self {
            RelDir::Left => String::from_str("Left"),
            RelDir::Right => String::from_str("Right"),
        }
    }
}

/// A side.
#[derive(Clone, Copy, Debug, PartialEq, Eq)]
pub enum Direction {
    Left,
    Right,
}

impl Direction {
    /// The name of this side.
    pub open spec fn text(self) -> Seq<char> {
        match self {
            Direction::Left => "Left"@,
            Direction::Right => "Right"@,
        }
    }

    /// The text of this value.
    pub fn to_string(&self) -> (r: String)
        ensures
            r@ == self.text(),
    {
        match self {
            Direction::Left => String::from_str("Left"),
            Direction::Right => String::from_str("Right"),
        }
    }
}

/// What an agent can sense in a cell.
#[derive(Clone, Copy, Debug, PartialEq, Eq)]
pub enum Condition {
    Friend,
    Foe,
    FriendWithFood,
    FoeWithFood,
    Food,
    Building,
    Transponder(u32),
    FoeTransponder,
    HomeBase,
    FoeBase,
}

impl Condition {
    /// The text of this condition; a transponder condition is followed by
    /// its number.
    pub open spec fn text(self) -> Seq<char> {
        match self {
            Condition::Friend => "Friend"@,
            Condition::Foe => "Foe"@,
            Condition::FriendWithFood => "FriendWithFood"@,
            Condition::FoeWithFood => "FoeWithFood"@,
            Condition::Food => "Food"@,
            Condition::Building => "Building"@,
            Condition::Transponder(num) => spaced(seq!["Transponder"@, decimal(num as nat)]),
            Condition::FoeTransponder => "FoeTransponder"@,
            Condition::HomeBase => "HomeBase"@,
            Condition::FoeBase => "FoeBase"@,
        }
    }

    /// The condition that a single token names, if any. A transponder
    /// condition takes two tokens and is named by none.
    pub open spec fn of_token(token: Seq<char>) -> Option<Condition> {
        if token == "Friend"@ {
            Some(Condition::Friend)
        } else if token == "Foe"@ {
            Some(Condition::Foe)
        } else if token == "FriendWithFood"@ {
            Some(Condition::FriendWithFood)
        } else if token == "FoeWithFood"@ {
            Some(Condition::FoeWithFood)
        } else if token == "Food"@ {
            Some(Condition::Food)
        } else if token == "Building"@ {
            Some(Condition::Building)
        } else if token == "FoeTransponder"@ {
            Some(Condition::FoeTransponder)
        } else if token == "HomeBase"@ {
            Some(Condition::HomeBase)
        } else if token == "FoeBase"@ {
            Some(Condition::FoeBase)
        } else {
            None
        }
    }

    /// The text of this value.
    pub fn to_string(&self) -> (r: String)
        ensures
            r@ == self.text(),
    {
        match self {
            Condition::Friend => String::from_str("Friend"),
            Condition::Foe => String::from_str("Foe"),
            Condition::FriendWithFood => String::from_str("FriendWithFood"),
            Condition::FoeWithFood => String::from_str("FoeWithFood"),
            Condition::Food => String::from_str("Food"),
            Condition::Building => String::from_str("Building"),
            Condition::Transponder(num) => {
                let words = vec![String::from_str("Transponder"), decimal_string(*num as usize)];
                assert(texts(words@) =~= seq!["Transponder"@, decimal(*num as nat)]);
                join_words(&words)
            },
            Condition::FoeTransponder => String::from_str("FoeTransponder"),
            Condition::HomeBase => String::from_str("HomeBase"),
            Condition::FoeBase => String::from_str("FoeBase"),
        }
    }
}

/// The decimal writing of `n`.
pub fn decimal_string(n: usize) -> (r: String)
    ensures
        r@ == decimal(n as nat),
{
    let mut r = String::new();
    push_decimal(&mut r, n);
    assert(Seq::<char>::empty() + decimal(n as nat) =~= decimal(n as nat));
    r
}

/// One instruction whose jump targets are absolute indices. The condition
/// of `Sense` is the token of the source, kept as it stands.
#[derive(Clone, Debug, PartialEq, Eq)]
pub enum Instruction {
    Sense { sensedir: SenseDir, l1: usize, l2: usize, cond: String },
    Mark { m: usize, l: usize },
    Unmark { m: usize, l: usize },
    PickUp { l1: usize, l2: usize },
    Drop { l: usize },
    Turn { lr: RelDir, l: usize },
    Move { l1: usize, l2: usize },
    Flip { p: usize, l1: usize, l2: usize },
}

/// An `Instruction` over mathematical integers, its condition as a character
/// sequence.
pub enum InstructionModel {
    Sense { sensedir: SenseDir, l1: nat, l2: nat, cond: Seq<char> },
    Mark { m: nat, l: nat },
    Unmark { m: nat, l: nat },
    PickUp { l1: nat, l2: nat },
    Drop { l: nat },
    Turn { lr: RelDir, l: nat },
    Move { l1: nat, l2: nat },
    Flip { p: nat, l1: nat, l2: nat },
}

impl InstructionModel {
    /// The operation of this instruction.
    pub open spec fn opcode(self) -> Opcode {
        match self {
            InstructionModel::Sense { .. } => Opcode::Sense,
            InstructionModel::Mark { .. } => Opcode::Mark,
            InstructionModel::Unmark { .. } => Opcode::Unmark,
            InstructionModel::PickUp { .. } => Opcode::PickUp,
            InstructionModel::Drop { .. } => Opcode::Drop,
            InstructionModel::Turn { .. } => Opcode::Turn,
            InstructionModel::Move { .. } => Opcode::Move,
            InstructionModel::Flip { .. } => Opcode::Flip,
        }
    }

    /// The jump targets, in the order of their slots.
    pub open spec fn targets(self) -> Seq<nat> {
        match self {
            InstructionModel::Sense { l1, l2, .. } => seq![l1, l2],
            InstructionModel::Mark { l, .. } => seq![l],
            InstructionModel::Unmark { l, .. } => seq![l],
            InstructionModel::PickUp { l1, l2 } => seq![l1, l2],
            InstructionModel::Drop { l } => seq![l],
            InstructionModel::Turn { l, .. } => seq![l],
            InstructionModel::Move { l1, l2 } => seq![l1, l2],
            InstructionModel::Flip { l1, l2, .. } => seq![l1, l2],
        }
    }

    /// Every jump target is the index of one of `count` instructions.
    pub open spec fn targets_below(self, count: nat) -> bool {
        forall|k: int| 0 <= k < self.targets().len() ==> #[trigger] self.targets()[k] < count
    }

    /// The tokens of the canonical text: the keyword, then the operands in
    /// the order of their slots.
    pub open spec fn words(self) -> Seq<Seq<char>> {
        match self {
            InstructionModel::Sense { sensedir, l1, l2, cond } => seq![
                Opcode::Sense.keyword(),
                sensedir.text(),
                decimal(l1),
                decimal(l2),
                cond,
            ],
            InstructionModel::Mark { m, l } => seq![Opcode::Mark.keyword(), decimal(m), decimal(l)],
            InstructionModel::Unmark { m, l } => seq![
                Opcode::Unmark.keyword(),
                decimal(m),
                decimal(l),
            ],
            InstructionModel::PickUp { l1, l2 } => seq![
                Opcode::PickUp.keyword(),
                decimal(l1),
                decimal(l2),
            ],
            InstructionModel::Drop { l } => seq![Opcode::Drop.keyword(), decimal(l)],
            InstructionModel::Turn { lr, l } => seq![Opcode::Turn.keyword(), lr.text(), decimal(l)],
            InstructionModel::Move { l1, l2 } => seq![
                Opcode::Move.keyword(),
                decimal(l1),
                decimal(l2),
            ],
            InstructionModel::Flip { p, l1, l2 } => seq![
                Opcode::Flip.keyword(),
                decimal(p),
                decimal(l1),
                decimal(l2),
            ],
        }
    }

    /// What canonical text can write and reading gives back, in a program
    /// of `count` instructions: the condition is one word, every jump
    /// target is an instruction of the program and small enough to be
    /// written as an offset, and every number fits an index.
    pub open spec fn canonical(self, count: nat) -> bool {
        &&& self.targets_below(count)
        &&& forall|k: int|
            0 <= k < self.targets().len() ==> #[trigger] self.targets()[k] <= 0x7fff_ffff_ffff_ffff
        &&& match self {
            InstructionModel::Sense { cond, .. } => is_word(cond),
            InstructionModel::Mark { m, .. } => m <= usize::MAX,
            InstructionModel::Unmark { m, .. } => m <= usize::MAX,
            InstructionModel::Flip { p, .. } => p <= usize::MAX,
            _ => true,
        }
    }

    /// The canonical text: the words with one blank between neighbours.
    pub open spec fn render(self) -> Seq<char> {
        spaced(self.words())
    }
}

impl View for Instruction {
    type V = InstructionModel;

    open spec fn view(&self) -> InstructionModel {
        match *self {
            Instruction::Sense { sensedir, l1, l2, cond } => InstructionModel::Sense {
                sensedir,
                l1: l1 as nat,
                l2: l2 as nat,
                cond: cond@,
            },
            Instruction::Mark { m, l } => InstructionModel::Mark { m: m as nat, l: l as nat },
            Instruction::Unmark { m, l } => InstructionModel::Unmark { m: m as nat, l: l as nat },
            Instruction::PickUp { l1, l2 } => InstructionModel::PickUp {
                l1: l1 as nat,
                l2: l2 as nat,
            },
            Instruction::Drop { l } => InstructionModel::Drop { l: l as nat },
            Instruction::Turn { lr, l } => InstructionModel::Turn { lr, l: l as nat },
            Instruction::Move { l1, l2 } => InstructionModel::Move { l1: l1 as nat, l2: l2 as nat },
            Instruction::Flip { p, l1, l2 } => InstructionModel::Flip {
                p: p as nat,
                l1: l1 as nat,
                l2: l2 as nat,
            },
        }
    }
}

impl Instruction {
    /// The words of the canonical text.
    fn to_words(&self) -> (words: Vec<String>)
        ensures
            texts(words@) == self@.words(),
    {
        let words = match self {
            Instruction::Sense { sensedir, l1, l2, cond } => vec![
                Opcode::Sense.to_string(),
                sensedir.to_string(),
                decimal_string(*l1),
                decimal_string(*l2),
                cond.clone(),
            ],
            Instruction::Mark { m, l } => vec![
                Opcode::Mark.to_string(),
                decimal_string(*m),
                decimal_string(*l),
            ],
            Instruction::Unmark { m, l } => vec![
                Opcode::Unmark.to_string(),
                decimal_string(*m),
                decimal_string(*l),
            ],
            Instruction::PickUp { l1, l2 } => vec![
                Opcode::PickUp.to_string(),
                decimal_string(*l1),
                decimal_string(*l2),
            ],
            Instruction::Drop { l } => vec![Opcode::Drop.to_string(), decimal_string(*l)],
            Instruction::Turn { lr, l } => vec![
                Opcode::Turn.to_string(),
                lr.to_string(),
                decimal_string(*l),
            ],
            Instruction::Move { l1, l2 } => vec![
                Opcode::Move.to_string(),
                decimal_string(*l1),
                decimal_string(*l2),
            ],
            Instruction::Flip { p, l1, l2 } => vec![
                Opcode::Flip.to_string(),
                decimal_string(*p),
                decimal_string(*l1),
                decimal_string(*l2),
            ],
        };
        assert(texts(words@) =~= self@.words());
        words
    }

    /// The canonical text of the instruction.
    pub fn to_string(&self) -> (r: String)
        ensures
            r@ == self@.render(),
    {
        let words = self.to_words();
        join_words(&words)
    }
}

/// Each opcode keyword is a word and names its opcode and no other.
pub proof fn lemma_opcode_keywords(opcode: Opcode)
    ensures
        is_word(opcode.keyword()),
        Opcode::of_token(opcode.keyword()) == Some(opcode),
{
    reveal_strlit("Sense");
    reveal_strlit("Mark");
    reveal_strlit("Unmark");
    reveal_strlit("PickUp");
    reveal_strlit("Drop");
    reveal_strlit("Turn");
    reveal_strlit("Move");
    reveal_strlit("Flip");
    assert("Mark"@[0] != "Drop"@[0]);
    assert("Mark"@[0] != "Turn"@[0]);
    assert("Mark"@[1] != "Move"@[1]);
    assert("Mark"@[0] != "Flip"@[0]);
    assert("Drop"@[0] != "Turn"@[0]);
    assert("Drop"@[0] != "Move"@[0]);
    assert("Drop"@[0] != "Flip"@[0]);
    assert("Turn"@[0] != "Move"@[0]);
    assert("Turn"@[0] != "Flip"@[0]);
    assert("Move"@[0] != "Flip"@[0]);
    assert("Unmark"@[0] != "PickUp"@[0]);
    let w = opcode.keyword();
    assert forall|i: int| 0 <= i < w.len() implies !is_space(#[trigger] w[i]) by {
        assert(i == 0 || i == 1 || i == 2 || i == 3 || i == 4 || i == 5);
    }
}

/// Each sense direction keyword is a word and names its direction.
pub proof fn lemma_sense_keywords(d: SenseDir)
    ensures
        is_word(d.text()),
        SenseDir::of_token(d.text()) == Some(d),
{
    reveal_strlit("Here");
    reveal_strlit("Ahead");
    reveal_strlit("LeftAhead");
    reveal_strlit("RightAhead");
    assert("Here"@.len() == 4 && "Ahead"@.len() == 5);
    assert("LeftAhead"@.len() == 9 && "RightAhead"@.len() == 10);
    let w = d.text();
    assert forall|i: int| 0 <= i < w.len() implies !is_space(#[trigger] w[i]) by {
        assert(i == 0 || i == 1 || i == 2 || i == 3 || i == 4 || i == 5 || i == 6 || i == 7 || i
            == 8 || i == 9);
    }
}

/// Each turn keyword is a word and names its turn.
pub proof fn lemma_turn_keywords(d: RelDir)
    ensures
        is_word(d.text()),
        RelDir::of_token(d.text()) == Some(d),
{
    reveal_strlit("Left");
    reveal_strlit("Right");
    let w = d.text();
    assert forall|i: int| 0 <= i < w.len() implies !is_space(#[trigger] w[i]) by {
        assert(i == 0 || i == 1 || i == 2 || i == 3 || i == 4);
    }
}

} // verus!
