//! Why an assembly run failed.

use vstd::prelude::*;
use crate::instruction::Opcode;

verus! {

/// What is wrong with one operand of an instruction. But for a missing
/// operand, the fault holds the token as it stands in the source.
#[derive(Clone, Debug, PartialEq, Eq)]
pub enum OperandFault {
    /// The line ends before this operand.
    Missing,
    /// A marker or a probability that is no unsigned number.
    NotUnsigned { token: String },
    /// A direction that is none of the known keywords.
    UnknownDirection { token: String },
    /// A jump target that is neither an offset nor a label leading to an
    /// instruction of the program.
    UnresolvedReference { token: String },
}

/// An `OperandFault` with its token as a character sequence.
pub enum FaultModel {
    Missing,
    NotUnsigned { token: Seq<char> },
    UnknownDirection { token: Seq<char> },
    UnresolvedReference { token: Seq<char> },
}

impl View for OperandFault {
    type V = FaultModel;

    open spec fn view(&self) -> FaultModel {
        match *self {
            OperandFault::Missing => FaultModel::Missing,
            OperandFault::NotUnsigned { token } => FaultModel::NotUnsigned { token: token@ },
            OperandFault::UnknownDirection { token } => FaultModel::UnknownDirection {
                token: token@,
            },
            OperandFault::UnresolvedReference { token } => FaultModel::UnresolvedReference {
                token: token@,
            },
        }
    }
}

/// The first failure of an assembly run.
#[derive(Clone, Debug, PartialEq, Eq)]
pub enum AssemblyError {
    /// A label was declared a second time.
    DuplicateLabel { label: String },
    /// A line starts with a word that is no opcode.
    UnknownOpcode { token: String },
    /// An operand is missing or of the wrong kind. Slot 1 is the first token
    /// after the opcode.
    MalformedOperand { opcode: Opcode, slot: usize, reason: OperandFault },
    /// A jump operand that names no instruction of the program.
    UnresolvedReference { token: String },
}

/// An `AssemblyError` with its texts as character sequences.
pub enum ErrorModel {
    DuplicateLabel { label: Seq<char> },
    UnknownOpcode { token: Seq<char> },
    MalformedOperand { opcode: Opcode, slot: nat, reason: FaultModel },
    UnresolvedReference { token: Seq<char> },
}

impl View for AssemblyError {
    type V = ErrorModel;

    open spec fn view(&self) -> ErrorModel {
        match *self {
            AssemblyError::DuplicateLabel { label } => ErrorModel::DuplicateLabel { label: label@ },
            AssemblyError::UnknownOpcode { token } => ErrorModel::UnknownOpcode { token: token@ },
            AssemblyError::MalformedOperand { opcode, slot, reason } => ErrorModel::MalformedOperand {
                opcode,
                slot: slot as nat,
                reason: reason@,
            },
            AssemblyError::UnresolvedReference { token } => ErrorModel::UnresolvedReference {
                token: token@,
            },
        }
    }
}

} // verus!
