//! A small bytecode virtual machine with a textual assembler.
//!
//! Assembly text is turned into a flat stream of machine words by
//! [`generator::Generator`], and that stream is executed by [`vm::VM`] on an
//! operand stack with call frames and a bump-allocated [`heap::Heap`].
//! [`assembly`] defines what a text assembles to and [`machine`] what each
//! instruction does, both as functions on mathematical models, and [`laws`]
//! proves what holds of every run. Around this core stand the beginnings of a language for the
//! machine: two lexers, a parser and a compiler to assembly text
//! ([`liamrs`], [`liamc`]), and the naming of a package's dependencies
//! ([`liampm`]).
//!
//! Every function carries a contract, and every contract is proved.

pub mod assembly;
pub mod fault;
pub mod generator;
pub mod heap;
pub mod laws;
pub mod liamc;
pub mod liampm;
pub mod liamrs;
pub mod machine;
pub mod op;
pub mod text;
pub mod vm;
