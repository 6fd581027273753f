//! An interpreter for the whitespace language: a decoder from source text to
//! instructions, a label resolver, and a virtual machine with a stack, a heap
//! and a call stack.
pub mod dump;
pub mod instruction;
pub mod interpreter;
pub mod labels;
pub mod machine;
pub mod parser;
pub mod text;

pub use instruction::{CommandKind, ImpKind, Instruction, ParamKind};
pub use interpreter::{InterpretError, InterpretErrorKind, Interpreter, InterpreterConfig};
pub use parser::{ParseErrorKind, Parser, SourceType};
