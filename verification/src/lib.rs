//! A dataflow rule engine: a program is a graph of blocks with typed ports,
//! written as JSON, and is run from its start block along the execution
//! edges.
//!
//! A [`logic::Logic`] is the catalog: the kinds of blocks and the connection
//! types that programs may use. An [`executer::Executer`] holds a catalog and
//! the text of a program; `analyze` loads the program and `execute` runs it.
//!
//! How a program runs:
//!
//! - A block of a *normal* kind is evaluated when execution reaches it. Its
//!   outputs are written to the register, where later blocks read them.
//! - A block of a *static* kind is evaluated whenever one of its outputs is
//!   asked for, each time anew; nothing of it is kept. Its handler should
//!   depend on nothing but its input: what else it does happens as often as
//!   its outputs are asked for.
//! - The *start* block is not evaluated. Its outputs are the seed values
//!   that the caller hands to `execute`.
//! - The inputs of a block are gathered in the order of its ports, from the
//!   register, from static blocks, or from the literal of the port.
//!
//! A handler does not print: it returns the lines that it wants printed, and
//! the host prints them after the run.
//!
//! On the wire an edge is stored on both of its ports, in the three fields
//! `connectedBlockId`, `connectedBlockTypeId` and `connectedNodeId`; no other
//! form of edge is read. Numbers that are not integers in the range of `i64`
//! are carried as their decimal text, and so are the values of the type
//! `Float`: the engine hands them on and never computes with them.
//!
//! What is proved of the engine is stated over the mathematical values of
//! its data, in [`evaluate`], [`validate`] and [`executer`], and the laws that
//! hold of every run are in [`laws`].

pub mod block;
pub mod blocks;
pub mod describe;
pub mod error;
pub mod evaluate;
pub mod executer;
pub mod json;
pub mod laws;
pub mod logic;
pub mod register;
pub mod search;
pub mod text;
pub mod types;
pub mod validate;
pub mod wire;
