//! A small 16-bit instruction set: bit-exact instruction codecs, execution
//! semantics over a simulated processor, and the assembler that turns
//! mnemonic text into instruction words.
//!
//! Every word carries its family in the top four bits: `1100` add, `0111`
//! multiply, `0101` exclusive or, `1110` shift and rotate, `1101` store and
//! push, `1011` load and pop.

pub mod word;
pub mod machine;
pub mod add;
pub mod mul;
pub mod xor;
pub mod shf;
pub mod store;
pub mod load;
pub mod inst;
pub mod text;
pub mod lex;
pub mod assembler;
