//! A two-pass assembler for a stack machine with nine instructions.
//!
//! A program is a sequence of lines. A line that begins with `:` defines a
//! label, named by the whole line. Any other line is an instruction: an
//! opcode mnemonic and, after one space, an optional operand, which is a
//! signed sixteen-bit decimal integer or a reference to a label, written as
//! the label's name. Each instruction assembles to one 32-bit word with the
//! opcode's code in the low half and the operand in the high half; a label
//! reference becomes the displacement from the address after the
//! instruction to the label's address. Labels may be referred to before
//! they are defined.
//!
//! The pipeline is [`assemble::compile`]. Its stages are public as well:
//! [`line::parse_line`], [`address::lines_with_addresses`],
//! [`labels::find_labels`], [`resolve::resolve`] and
//! [`encode::encode_instruction`].
//!
//! Where the source format leaves room, the assembler is lenient in three
//! places and strict in two:
//!
//! - an operand that is neither a label reference nor a sixteen-bit integer
//!   is read as no operand, and no operand assembles as zero;
//! - whatever follows a second space on an instruction line is ignored;
//! - a label defined more than once is bound to its last definition;
//! - an opcode outside the instruction set, the empty opcode of a blank line
//!   included, fails the whole assembly with
//!   [`error::AssembleError::UnknownOpcode`];
//! - a reference to a label that is nowhere defined fails it with
//!   [`error::AssembleError::UndefinedLabel`].
//!
//! Addresses and displacements are computed in sixteen-bit wrapping
//! arithmetic, so they are exact for programs of up to 32767 instructions.
//!
//! Every function is verified against a contract stated over the
//! mathematical view of its arguments; [`laws`] holds what follows for
//! whole programs.

pub mod address;
pub mod assemble;
pub mod encode;
pub mod error;
pub mod labels;
pub mod laws;
pub mod line;
pub mod opcode;
pub mod resolve;
pub mod text;
