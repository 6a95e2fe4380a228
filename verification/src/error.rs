//! What can go wrong while a program is loaded or run.

use crate::text::{decimal, decimal_text};
use vstd::prelude::*;
use vstd::string::StringExecFns;

verus! {

/// Why a program was refused when it was loaded.
#[derive(Debug, Clone, Copy, PartialEq, Eq, Structural)]
pub enum Reason {
    /// The text is not JSON; the position is where the parser gave up.
    Syntax { line: usize, column: usize },
    /// The JSON does not have the shape of a program.
    Shape,
    /// Two blocks carry this id.
    DuplicateBlock { block: u32 },
    /// The catalog holds more than one kind of start block.
    SeveralStartKinds,
    /// The program holds more than one start block.
    SeveralStartBlocks,
    /// A block does not have the data ports that its kind declares.
    Ports { block: u32 },
    /// The edge stored on this port does not lead to a port of the other
    /// direction and the same type on another block of the named kind.
    Edge { block: u32, node: u32 },
    /// Following the execution edges from the start block comes back to a
    /// block already visited.
    ExecutionCycle,
}

/// What a program named that the catalog does not hold.
#[derive(Debug, PartialEq, Eq)]
pub enum TypeRef {
    /// A block kind, by id.
    Block(u32),
    /// A connection type, by name.
    Connection(String),
}

/// The mathematical value of a `TypeRef`.
pub enum TypeRefView {
    Block(u32),
    Connection(Seq<char>),
}

impl View for TypeRef {
    type V = TypeRefView;

    open spec fn view(&self) -> TypeRefView {
        match self {
            TypeRef::Block(id) => TypeRefView::Block(*id),
            TypeRef::Connection(name) => TypeRefView::Connection(name@),
        }
    }
}

/// An error of the engine. Every one of them ends the run.
#[derive(Debug, PartialEq, Eq)]
pub enum Error {
    /// The program was refused when it was loaded.
    GraphInvalid(Reason),
    /// The program names a block kind or a connection type that is not registered.
    TypeUnknown(TypeRef),
    /// No block of the program has this id.
    MissingBlock(u32),
    /// A static block did not return a value for this port.
    MissingOutput(u32),
    /// The register holds no value for this block and port: the block that
    /// produces it has not run yet.
    RegisterMiss(u32, u32),
    /// A handler was about to get a value of another type than it declares:
    /// the declared type first, then the type that was found.
    TypeMismatch(String, String),
    /// The handler of this block failed, with its own account of why.
    BlockFailed(u32, String),
    /// Static blocks feed each other more deeply than the engine follows.
    DepthExceeded,
    /// The program has no start block.
    NoStart,
}

/// The mathematical value of a `Error`.
pub enum ErrorView {
    GraphInvalid(Reason),
    TypeUnknown(TypeRefView),
    MissingBlock(u32),
    MissingOutput(u32),
    RegisterMiss(u32, u32),
    TypeMismatch(Seq<char>, Seq<char>),
    BlockFailed(u32, Seq<char>),
    DepthExceeded,
    NoStart,
}

impl View for Error {
    type V = ErrorView;

    open spec fn view(&self) -> ErrorView {
        match self {
            Error::GraphInvalid(reason) => ErrorView::GraphInvalid(*reason),
            Error::TypeUnknown(what) => ErrorView::TypeUnknown(what@),
            Error::MissingBlock(id) => ErrorView::MissingBlock(*id),
            Error::MissingOutput(port) => ErrorView::MissingOutput(*port),
            Error::RegisterMiss(block, port) => ErrorView::RegisterMiss(*block, *port),
            Error::TypeMismatch(expected, found) => ErrorView::TypeMismatch(expected@, found@),
            Error::BlockFailed(block, cause) => ErrorView::BlockFailed(*block, cause@),
            Error::DepthExceeded => ErrorView::DepthExceeded,
            Error::NoStart => ErrorView::NoStart,
        }
    }
}

impl Reason {
    /// Why the program was refused, in words.
    pub open spec fn text(self) -> Seq<char> {
        match self {
            Reason::Syntax { line, column } => "the text is not JSON at line "@ + decimal_text(
                line as nat,
            ) + ", column "@ + decimal_text(column as nat),
            Reason::Shape => "the JSON does not have the shape of a program"@,
            Reason::DuplicateBlock { block } => "two blocks have the id "@ + decimal_text(
                block as nat,
            ),
            Reason::SeveralStartKinds => "the catalog has more than one start kind"@,
            Reason::SeveralStartBlocks => "the program has more than one start block"@,
            Reason::Ports { block } => "the ports of the block "@ + decimal_text(block as nat)
                + " are not those of its kind"@,
            Reason::Edge { block, node } => "the edge on the port "@ + decimal_text(node as nat)
                + " of the block "@ + decimal_text(block as nat) + " does not hold"@,
            Reason::ExecutionCycle => "execution comes back to a block"@,
        }
    }

    /// Why the program was refused, in words.
    pub fn message(&self) -> (r: String)
        ensures
            r@ == self.text(),
    {
        match self {
            Reason::Syntax { line, column } => "the text is not JSON at line ".to_owned().concat(
                decimal(*line as u64).as_str(),
            ).concat(", column ").concat(decimal(*column as u64).as_str()),
            Reason::Shape => "the JSON does not have the shape of a program".to_owned(),
            Reason::DuplicateBlock { block } => "two blocks have the id ".to_owned().concat(
                decimal(*block as u64).as_str(),
            ),
            Reason::SeveralStartKinds => "the catalog has more than one start kind".to_owned(),
            Reason::SeveralStartBlocks => "the program has more than one start block".to_owned(),
            Reason::Ports { block } => "the ports of the block ".to_owned().concat(
                decimal(*block as u64).as_str(),
            ).concat(" are not those of its kind"),
            Reason::Edge { block, node } => "the edge on the port ".to_owned().concat(
                decimal(*node as u64).as_str(),
            ).concat(" of the block ").concat(decimal(*block as u64).as_str()).concat(
                " does not hold",
            ),
            Reason::ExecutionCycle => "execution comes back to a block".to_owned(),
        }
    }
}

impl ErrorView {
    /// The error in words.
    pub open spec fn message(self) -> Seq<char> {
        match self {
            ErrorView::GraphInvalid(reason) => "the program is refused: "@ + reason.text(),
            ErrorView::TypeUnknown(TypeRefView::Block(id)) => "no kind of block has the id "@
                + decimal_text(id as nat),
            ErrorView::TypeUnknown(TypeRefView::Connection(name)) => "no connection type is named "@
                + name,
            ErrorView::MissingBlock(id) => "no block has the id "@ + decimal_text(id as nat),
            ErrorView::MissingOutput(port) => "a static block gave no value for the port "@
                + decimal_text(port as nat),
            ErrorView::RegisterMiss(block, port) => "the register holds no value for the port "@
                + decimal_text(port as nat) + " of the block "@ + decimal_text(block as nat),
            ErrorView::TypeMismatch(expected, found) => "a value of the type "@ + expected
                + " was expected, one of the type "@ + found + " was found"@,
            ErrorView::BlockFailed(block, cause) => "the handler of the block "@ + decimal_text(
                block as nat,
            ) + " failed: "@ + cause,
            ErrorView::DepthExceeded => "static blocks feed each other too deeply"@,
            ErrorView::NoStart => "the program has no start block"@,
        }
    }
}

impl Error {
    /// The error in words.
    pub fn message(&self) -> (r: String)
        ensures
            r@ == self@.message(),
    {
        match self {
            Error::GraphInvalid(reason) => "the program is refused: ".to_owned().concat(
                reason.message().as_str(),
            ),
            Error::TypeUnknown(TypeRef::Block(id)) => "no kind of block has the id ".to_owned().concat(
                decimal(*id as u64).as_str(),
            ),
            Error::TypeUnknown(TypeRef::Connection(name)) => "no connection type is named ".to_owned().concat(
                name.as_str(),
            ),
            Error::MissingBlock(id) => "no block has the id ".to_owned().concat(
                decimal(*id as u64).as_str(),
            ),
            Error::MissingOutput(port) => "a static block gave no value for the port ".to_owned().concat(
                decimal(*port as u64).as_str(),
            ),
            Error::RegisterMiss(block, port) => "the register holds no value for the port ".to_owned().concat(
                decimal(*port as u64).as_str(),
            ).concat(" of the block ").concat(decimal(*block as u64).as_str()),
            Error::TypeMismatch(expected, found) => "a value of the type ".to_owned().concat(
                expected.as_str(),
            ).concat(" was expected, one of the type ").concat(found.as_str()).concat(
                " was found",
            ),
            Error::BlockFailed(block, cause) => "the handler of the block ".to_owned().concat(
                decimal(*block as u64).as_str(),
            ).concat(" failed: ").concat(cause.as_str()),
            Error::DepthExceeded => "static blocks feed each other too deeply".to_owned(),
            Error::NoStart => "the program has no start block".to_owned(),
        }
    }

    /// The error for a handler of block `block` that failed because of `cause`.
    pub fn new(block: u32, cause: String) -> (e: Error)
        ensures
            e@ == ErrorView::BlockFailed(block, cause@),
    {
        Error::BlockFailed(block, cause)
    }
}

} // verus!
