//! A single-tape deterministic Turing machine: an unbounded two-sided tape,
//! a read/write head, a transition table with fixed-point halting, and a
//! small textual language for describing transition tables.
pub mod head;
pub mod lexicaliser;
pub mod parser;
pub mod symbol;
pub mod table;
pub mod tape;
pub mod text;
pub mod turing_machine;
