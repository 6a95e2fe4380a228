//! The kinds of blocks that the engine brings along.

pub mod integer;
pub mod string;

use crate::logic::{
    accepts, all_lawful, lawful, outcome_view, well_formed, ExecutionBlock, ExecutionBlockType,
    Logic, Output, OutputView,
};
use crate::register::{registers_view, Register, RegisterView};
use crate::text::{
    insert, inserted, integer_text, integer_to_text, join, lowercase, texts_view, to_lowercase,
    to_uppercase, trim, trimmed, uppercase,
};
use crate::types::{ExecutionType, ValueView};
use vstd::prelude::*;

verus! {

/// A kind of block of the engine's own.
#[derive(Debug, Clone, Copy, PartialEq, Eq, Structural)]
pub enum Builtin {
    /// Where a run begins.
    Start,
    /// Prints its input.
    ConsolePrint,
    /// Hands its input on.
    StaticString,
    /// Joins two texts.
    AddString,
    /// Adds two numbers.
    AddInteger,
    /// Writes a number in decimal.
    IntegerToString,
    /// Does nothing: a place for a remark in the editor.
    Comment,
    /// Prints its input.
    Print,
    IntegerAdd,
    IntegerSubtract,
    IntegerMultiply,
    IntegerDivide,
    IntegerWrite,
    StringAdd,
    StringLength,
    StringTrim,
    StringToLowercase,
    StringToUppercase,
    StringInsert,
}

/// What a kind computes.
#[derive(Debug, Clone, Copy, PartialEq, Eq, Structural)]
pub enum Operation {
    Nothing,
    Print,
    Pass,
    Join,
    Add,
    Subtract,
    Multiply,
    Divide,
    Write,
    Length,
    Trim,
    Lowercase,
    Uppercase,
    Insert,
}

/// One output, of the block `block_id`.
pub open spec fn one_output(block_id: u32, value: ValueView) -> OutputView {
    OutputView {
        registers: seq![RegisterView { block_id: block_id, node_id: 3, value: value }],
        lines: Seq::empty(),
    }
}

/// What an operation returns for the values `input`, for the block `block_id`.
///
/// Arithmetic that leaves the range of the numbers fails, and so does a
/// division by zero. A quotient is rounded towards zero. The length of a
/// text is the number of bytes of its UTF-8 form. A piece is put into a
/// text at a byte, and only where that lies between two characters.
pub open spec fn compute(operation: Operation, input: Seq<ValueView>, block_id: u32) -> Result<
    OutputView,
    Seq<char>,
> {
    match operation {
        Operation::Nothing => Ok(OutputView { registers: Seq::empty(), lines: Seq::empty() }),
        Operation::Print => match input[0] {
            ValueView::String(s) => Ok(OutputView { registers: Seq::empty(), lines: seq![s] }),
            _ => Err("input"@),
        },
        Operation::Pass => match input[0] {
            ValueView::String(s) => Ok(one_output(block_id, ValueView::String(s))),
            _ => Err("input"@),
        },
        Operation::Join => match (input[0], input[1]) {
            (ValueView::String(a), ValueView::String(b)) => Ok(
                one_output(block_id, ValueView::String(a + b)),
            ),
            _ => Err("input"@),
        },
        Operation::Add => match (input[0], input[1]) {
            (ValueView::Integer(a), ValueView::Integer(b)) => match a.checked_add(b) {
                Some(c) => Ok(one_output(block_id, ValueView::Integer(c))),
                None => Err("overflow"@),
            },
            _ => Err("input"@),
        },
        Operation::Subtract => match (input[0], input[1]) {
            (ValueView::Integer(a), ValueView::Integer(b)) => match a.checked_sub(b) {
                Some(c) => Ok(one_output(block_id, ValueView::Integer(c))),
                None => Err("overflow"@),
            },
            _ => Err("input"@),
        },
        Operation::Multiply => match (input[0], input[1]) {
            (ValueView::Integer(a), ValueView::Integer(b)) => match a.checked_mul(b) {
                Some(c) => Ok(one_output(block_id, ValueView::Integer(c))),
                None => Err("overflow"@),
            },
            _ => Err("input"@),
        },
        Operation::Divide => match (input[0], input[1]) {
            (ValueView::Integer(a), ValueView::Integer(b)) => match a.checked_div(b) {
                Some(c) => Ok(one_output(block_id, ValueView::Integer(c))),
                None => if b == 0 {
                    Err("division by zero"@)
                } else {
                    Err("overflow"@)
                },
            },
            _ => Err("input"@),
        },
        Operation::Write => match input[0] {
            ValueView::Integer(a) => Ok(one_output(block_id, ValueView::String(integer_text(a)))),
            _ => Err("input"@),
        },
        Operation::Length => match input[0] {
            ValueView::String(s) => {
                let length = vstd::utf8::encode_utf8(s).len() as usize;
                if length <= i64::MAX {
                    Ok(one_output(block_id, ValueView::Integer(length as i64)))
                } else {
                    Err("overflow"@)
                }
            },
            _ => Err("input"@),
        },
        Operation::Trim => match input[0] {
            ValueView::String(s) => Ok(one_output(block_id, ValueView::String(trimmed(s)))),
            _ => Err("input"@),
        },
        Operation::Lowercase => match input[0] {
            ValueView::String(s) => Ok(one_output(block_id, ValueView::String(lowercase(s)))),
            _ => Err("input"@),
        },
        Operation::Uppercase => match input[0] {
            ValueView::String(s) => Ok(one_output(block_id, ValueView::String(uppercase(s)))),
            _ => Err("input"@),
        },
        Operation::Insert => match (input[0], input[1], input[2]) {
            (ValueView::String(s), ValueView::Integer(i), ValueView::String(piece)) => {
                let at = insert_at(s, i);
                if vstd::utf8::is_char_boundary(vstd::utf8::encode_utf8(s), at as int) {
                    Ok(one_output(block_id, ValueView::String(inserted(s, at, piece))))
                } else {
                    Err("boundary"@)
                }
            },
            _ => Err("input"@),
        },
    }
}

/// The byte at which a piece is put into `text` for the index `index`: the
/// index itself, or the end of the text where the index is negative or lies
/// behind the end.
pub open spec fn insert_at(text: Seq<char>, index: i64) -> usize {
    let length = vstd::utf8::encode_utf8(text).len() as usize;
    if index < 0 || index > length {
        length
    } else {
        index as usize
    }
}

/// The values of the entries in `input`, in order.
pub open spec fn values_of(input: Seq<RegisterView>) -> Seq<ValueView> {
    Seq::new(input.len(), |i: int| input[i].value)
}

impl Operation {
    /// The types of the values that the operation takes.
    pub open spec fn takes(self) -> Seq<Seq<char>> {
        match self {
            Operation::Nothing => Seq::empty(),
            Operation::Print => seq!["String"@],
            Operation::Pass => seq!["String"@],
            Operation::Join => seq!["String"@, "String"@],
            Operation::Add => seq!["Integer"@, "Integer"@],
            Operation::Subtract => seq!["Integer"@, "Integer"@],
            Operation::Multiply => seq!["Integer"@, "Integer"@],
            Operation::Divide => seq!["Integer"@, "Integer"@],
            Operation::Write => seq!["Integer"@],
            Operation::Length => seq!["String"@],
            Operation::Trim => seq!["String"@],
            Operation::Lowercase => seq!["String"@],
            Operation::Uppercase => seq!["String"@],
            Operation::Insert => seq!["String"@, "Integer"@, "String"@],
        }
    }

    /// The types of the values that the operation gives.
    pub open spec fn gives(self) -> Seq<Seq<char>> {
        match self {
            Operation::Nothing => Seq::empty(),
            Operation::Print => Seq::empty(),
            Operation::Pass => seq!["String"@],
            Operation::Join => seq!["String"@],
            Operation::Add => seq!["Integer"@],
            Operation::Subtract => seq!["Integer"@],
            Operation::Multiply => seq!["Integer"@],
            Operation::Divide => seq!["Integer"@],
            Operation::Write => seq!["String"@],
            Operation::Length => seq!["Integer"@],
            Operation::Trim => seq!["String"@],
            Operation::Lowercase => seq!["String"@],
            Operation::Uppercase => seq!["String"@],
            Operation::Insert => seq!["String"@],
        }
    }
}

impl Builtin {
    /// What the kind computes.
    pub open spec fn operation(self) -> Operation {
        match self {
            Builtin::Start => Operation::Nothing,
            Builtin::ConsolePrint => Operation::Print,
            Builtin::StaticString => Operation::Pass,
            Builtin::AddString => Operation::Join,
            Builtin::AddInteger => Operation::Add,
            Builtin::IntegerToString => Operation::Write,
            Builtin::Comment => Operation::Nothing,
            Builtin::Print => Operation::Print,
            Builtin::IntegerAdd => Operation::Add,
            Builtin::IntegerSubtract => Operation::Subtract,
            Builtin::IntegerMultiply => Operation::Multiply,
            Builtin::IntegerDivide => Operation::Divide,
            Builtin::IntegerWrite => Operation::Write,
            Builtin::StringAdd => Operation::Join,
            Builtin::StringLength => Operation::Length,
            Builtin::StringTrim => Operation::Trim,
            Builtin::StringToLowercase => Operation::Lowercase,
            Builtin::StringToUppercase => Operation::Uppercase,
            Builtin::StringInsert => Operation::Insert,
        }
    }

    /// What the kind computes.
    pub fn get_operation(&self) -> (r: Operation)
        ensures
            r == self.operation(),
    {
        match self {
            Builtin::Start => Operation::Nothing,
            Builtin::ConsolePrint => Operation::Print,
            Builtin::StaticString => Operation::Pass,
            Builtin::AddString => Operation::Join,
            Builtin::AddInteger => Operation::Add,
            Builtin::IntegerToString => Operation::Write,
            Builtin::Comment => Operation::Nothing,
            Builtin::Print => Operation::Print,
            Builtin::IntegerAdd => Operation::Add,
            Builtin::IntegerSubtract => Operation::Subtract,
            Builtin::IntegerMultiply => Operation::Multiply,
            Builtin::IntegerDivide => Operation::Divide,
            Builtin::IntegerWrite => Operation::Write,
            Builtin::StringAdd => Operation::Join,
            Builtin::StringLength => Operation::Length,
            Builtin::StringTrim => Operation::Trim,
            Builtin::StringToLowercase => Operation::Lowercase,
            Builtin::StringToUppercase => Operation::Uppercase,
            Builtin::StringInsert => Operation::Insert,
        }
    }
}

fn no_types() -> (r: Vec<String>)
    ensures
        texts_view(r@) == Seq::<Seq<char>>::empty(),
{
    let r: Vec<String> = Vec::new();
    assert(texts_view(r@) =~= Seq::<Seq<char>>::empty());
    r
}

fn one_type(a: &str) -> (r: Vec<String>)
    ensures
        texts_view(r@) == seq![a@],
{
    let mut r: Vec<String> = Vec::new();
    r.push(a.to_owned());
    assert(texts_view(r@) =~= seq![a@]);
    r
}

fn two_types(a: &str, b: &str) -> (r: Vec<String>)
    ensures
        texts_view(r@) == seq![a@, b@],
{
    let mut r: Vec<String> = Vec::new();
    r.push(a.to_owned());
    r.push(b.to_owned());
    assert(texts_view(r@) =~= seq![a@, b@]);
    r
}

fn three_types(a: &str, b: &str, c: &str) -> (r: Vec<String>)
    ensures
        texts_view(r@) == seq![a@, b@, c@],
{
    let mut r: Vec<String> = Vec::new();
    r.push(a.to_owned());
    r.push(b.to_owned());
    r.push(c.to_owned());
    assert(texts_view(r@) =~= seq![a@, b@, c@]);
    r
}

/// What a handler returns that has one output and prints nothing.
fn give(block_id: u32, value: ExecutionType) -> (r: Result<Output, String>)
    ensures
        outcome_view(r) == Ok::<OutputView, Seq<char>>(one_output(block_id, value@)),
{
    let mut registers: Vec<Register> = Vec::new();
    registers.push(Register { block_id, node_id: 3, value });
    let lines: Vec<String> = Vec::new();
    let out = Output { registers, lines };
    assert(out@.registers =~= one_output(block_id, value@).registers);
    assert(out@.lines =~= one_output(block_id, value@).lines);
    Ok(out)
}

/// What a handler returns that fails because of `cause`.
fn fail(cause: &str) -> (r: Result<Output, String>)
    ensures
        outcome_view(r) == Err::<OutputView, Seq<char>>(cause@),
{
    Err(cause.to_owned())
}

impl Operation {
    /// The types of the values that the operation takes.
    pub fn get_takes(&self) -> (r: Vec<String>)
        ensures
            texts_view(r@) == self.takes(),
    {
        match self {
            Operation::Nothing => no_types(),
            Operation::Print => one_type("String"),
            Operation::Pass => one_type("String"),
            Operation::Join => two_types("String", "String"),
            Operation::Add => two_types("Integer", "Integer"),
            Operation::Subtract => two_types("Integer", "Integer"),
            Operation::Multiply => two_types("Integer", "Integer"),
            Operation::Divide => two_types("Integer", "Integer"),
            Operation::Write => one_type("Integer"),
            Operation::Length => one_type("String"),
            Operation::Trim => one_type("String"),
            Operation::Lowercase => one_type("String"),
            Operation::Uppercase => one_type("String"),
            Operation::Insert => three_types("String", "Integer", "String"),
        }
    }

    /// The types of the values that the operation gives.
    pub fn get_gives(&self) -> (r: Vec<String>)
        ensures
            texts_view(r@) == self.gives(),
    {
        match self {
            Operation::Nothing => no_types(),
            Operation::Print => no_types(),
            Operation::Pass => one_type("String"),
            Operation::Join => one_type("String"),
            Operation::Add => one_type("Integer"),
            Operation::Subtract => one_type("Integer"),
            Operation::Multiply => one_type("Integer"),
            Operation::Divide => one_type("Integer"),
            Operation::Write => one_type("String"),
            Operation::Length => one_type("Integer"),
            Operation::Trim => one_type("String"),
            Operation::Lowercase => one_type("String"),
            Operation::Uppercase => one_type("String"),
            Operation::Insert => one_type("String"),
        }
    }

    /// Computes the operation on `input`, for the block `block_id`.
    pub fn apply(&self, input: &Vec<Register>, block_id: u32) -> (r: Result<Output, String>)
        requires
            input@.len() == self.takes().len(),
        ensures
            outcome_view(r) == compute(*self, values_of(registers_view(input@)), block_id),
    {
        let ghost values = values_of(registers_view(input@));
        assert(forall|i: int| 0 <= i < input@.len() ==> values[i] == input@[i].value@);
        match self {
            Operation::Nothing => {
                let out = Output { registers: Vec::new(), lines: Vec::new() };
                assert(out@.registers =~= Seq::<RegisterView>::empty());
                assert(out@.lines =~= Seq::<Seq<char>>::empty());
                Ok(out)
            },
            Operation::Print => match input[0].value.get_string() {
                Some(s) => {
                    let ghost text = s@;
                    let mut lines: Vec<String> = Vec::new();
                    lines.push(s);
                    let out = Output { registers: Vec::new(), lines };
                    assert(out@.registers =~= Seq::<RegisterView>::empty());
                    assert(out@.lines =~= seq![text]);
                    Ok(out)
                },
                None => fail("input"),
            },
            Operation::Pass => match input[0].value.get_string() {
                Some(s) => give(block_id, ExecutionType::String(s)),
                None => fail("input"),
            },
            Operation::Join => match (input[0].value.get_string(), input[1].value.get_string()) {
                (Some(a), Some(b)) => give(
                    block_id,
                    ExecutionType::String(join(a.as_str(), b.as_str())),
                ),
                _ => fail("input"),
            },
            Operation::Add => match (input[0].value.get_integer(), input[1].value.get_integer()) {
                (Some(a), Some(b)) => match a.checked_add(b) {
                    Some(c) => give(block_id, ExecutionType::Integer(c)),
                    None => fail("overflow"),
                },
                _ => fail("input"),
            },
            Operation::Subtract => match (
                input[0].value.get_integer(),
                input[1].value.get_integer(),
            ) {
                (Some(a), Some(b)) => match a.checked_sub(b) {
                    Some(c) => give(block_id, ExecutionType::Integer(c)),
                    None => fail("overflow"),
                },
                _ => fail("input"),
            },
            Operation::Multiply => match (
                input[0].value.get_integer(),
                input[1].value.get_integer(),
            ) {
                (Some(a), Some(b)) => match a.checked_mul(b) {
                    Some(c) => give(block_id, ExecutionType::Integer(c)),
                    None => fail("overflow"),
                },
                _ => fail("input"),
            },
            Operation::Divide => match (
                input[0].value.get_integer(),
                input[1].value.get_integer(),
            ) {
                (Some(a), Some(b)) => match a.checked_div(b) {
                    Some(c) => give(block_id, ExecutionType::Integer(c)),
                    None => if b == 0 {
                        fail("division by zero")
                    } else {
                        fail("overflow")
                    },
                },
                _ => fail("input"),
            },
            Operation::Write => match input[0].value.get_integer() {
                Some(a) => give(block_id, ExecutionType::String(integer_to_text(a))),
                None => fail("input"),
            },
            Operation::Length => match input[0].value.get_string() {
                Some(s) => {
                    let length: u64 = s.as_str().len() as u64;
                    if length <= 0x7fff_ffff_ffff_ffff {
                        give(block_id, ExecutionType::Integer(length as i64))
                    } else {
                        fail("overflow")
                    }
                },
                None => fail("input"),
            },
            Operation::Trim => match input[0].value.get_string() {
                Some(s) => give(block_id, ExecutionType::String(trim(s.as_str()))),
                None => fail("input"),
            },
            Operation::Lowercase => match input[0].value.get_string() {
                Some(s) => give(block_id, ExecutionType::String(to_lowercase(s.as_str()))),
                None => fail("input"),
            },
            Operation::Uppercase => match input[0].value.get_string() {
                Some(s) => give(block_id, ExecutionType::String(to_uppercase(s.as_str()))),
                None => fail("input"),
            },
            Operation::Insert => match (
                input[0].value.get_string(),
                input[1].value.get_integer(),
                input[2].value.get_string(),
            ) {
                (Some(s), Some(i), Some(piece)) => {
                    let length = s.as_str().len();
                    let at: usize = if i < 0 || i as u64 > length as u64 {
                        length
                    } else {
                        i as usize
                    };
                    if s.as_str().is_char_boundary(at) {
                        give(
                            block_id,
                            ExecutionType::String(insert(s.as_str(), at, piece.as_str())),
                        )
                    } else {
                        fail("boundary")
                    }
                },
                _ => fail("input"),
            },
        }
    }
}

/// What an operation gives is what it says it gives: one value for each
/// declared output, of the declared type, under the port of that output.
pub proof fn lemma_compute_is_well_formed(operation: Operation, input: Seq<ValueView>, block_id: u32)
    ensures
        compute(operation, input, block_id) matches Ok(out) ==> well_formed(
            operation.gives(),
            block_id,
            out.registers,
        ),
{
}

impl ExecutionBlock for Builtin {
    open spec fn modelled(&self) -> bool {
        true
    }

    open spec fn id(&self) -> u32 {
        match self {
            Builtin::Start => 1,
            Builtin::ConsolePrint => 2,
            Builtin::StaticString => 3,
            Builtin::AddString => 4,
            Builtin::AddInteger => 5,
            Builtin::IntegerToString => 6,
            Builtin::Comment => 60000,
            Builtin::Print => 60001,
            Builtin::IntegerAdd => 64001,
            Builtin::IntegerSubtract => 64002,
            Builtin::IntegerMultiply => 64003,
            Builtin::IntegerDivide => 64004,
            Builtin::IntegerWrite => 64005,
            Builtin::StringAdd => 68001,
            Builtin::StringLength => 68002,
            Builtin::StringTrim => 68003,
            Builtin::StringToLowercase => 68004,
            Builtin::StringToUppercase => 68005,
            Builtin::StringInsert => 68006,
        }
    }

    open spec fn name(&self) -> Seq<char> {
        match self {
            Builtin::Start => "Start"@,
            Builtin::ConsolePrint => "ConsolePrint"@,
            Builtin::StaticString => "StaticString"@,
            Builtin::AddString => "AddString"@,
            Builtin::AddInteger => "AddInteger"@,
            Builtin::IntegerToString => "IntegerToString"@,
            Builtin::Comment => "Comment"@,
            Builtin::Print => "ConsolePrint"@,
            Builtin::IntegerAdd => "IntegerAdd"@,
            Builtin::IntegerSubtract => "IntegerSubtract"@,
            Builtin::IntegerMultiply => "IntegerMultiply"@,
            Builtin::IntegerDivide => "IntegerDivide"@,
            Builtin::IntegerWrite => "IntegerToString"@,
            Builtin::StringAdd => "StringAdd"@,
            Builtin::StringLength => "StringLength"@,
            Builtin::StringTrim => "StringTrim"@,
            Builtin::StringToLowercase => "StringToLowercase"@,
            Builtin::StringToUppercase => "StringToUppercase"@,
            Builtin::StringInsert => "StringInsert"@,
        }
    }

    open spec fn category(&self) -> ExecutionBlockType {
        match self {
            Builtin::Start => ExecutionBlockType::Start,
            Builtin::ConsolePrint => ExecutionBlockType::Normal,
            Builtin::Print => ExecutionBlockType::Normal,
            _ => ExecutionBlockType::Static,
        }
    }

    open spec fn inputs(&self) -> Seq<Seq<char>> {
        self.operation().takes()
    }

    open spec fn outputs(&self) -> Seq<Seq<char>> {
        self.operation().gives()
    }

    open spec fn outcome(&self, input: Seq<RegisterView>, block_id: u32) -> Result<
        OutputView,
        Seq<char>,
    > {
        compute(self.operation(), values_of(input), block_id)
    }

    fn get_id(&self) -> (r: u32) {
        match self {
            Builtin::Start => 1,
            Builtin::ConsolePrint => 2,
            Builtin::StaticString => 3,
            Builtin::AddString => 4,
            Builtin::AddInteger => 5,
            Builtin::IntegerToString => 6,
            Builtin::Comment => 60000,
            Builtin::Print => 60001,
            Builtin::IntegerAdd => 64001,
            Builtin::IntegerSubtract => 64002,
            Builtin::IntegerMultiply => 64003,
            Builtin::IntegerDivide => 64004,
            Builtin::IntegerWrite => 64005,
            Builtin::StringAdd => 68001,
            Builtin::StringLength => 68002,
            Builtin::StringTrim => 68003,
            Builtin::StringToLowercase => 68004,
            Builtin::StringToUppercase => 68005,
            Builtin::StringInsert => 68006,
        }
    }

    fn get_name(&self) -> (r: String) {
        match self {
            Builtin::Start => "Start".to_owned(),
            Builtin::ConsolePrint => "ConsolePrint".to_owned(),
            Builtin::StaticString => "StaticString".to_owned(),
            Builtin::AddString => "AddString".to_owned(),
            Builtin::AddInteger => "AddInteger".to_owned(),
            Builtin::IntegerToString => "IntegerToString".to_owned(),
            Builtin::Comment => "Comment".to_owned(),
            Builtin::Print => "ConsolePrint".to_owned(),
            Builtin::IntegerAdd => "IntegerAdd".to_owned(),
            Builtin::IntegerSubtract => "IntegerSubtract".to_owned(),
            Builtin::IntegerMultiply => "IntegerMultiply".to_owned(),
            Builtin::IntegerDivide => "IntegerDivide".to_owned(),
            Builtin::IntegerWrite => "IntegerToString".to_owned(),
            Builtin::StringAdd => "StringAdd".to_owned(),
            Builtin::StringLength => "StringLength".to_owned(),
            Builtin::StringTrim => "StringTrim".to_owned(),
            Builtin::StringToLowercase => "StringToLowercase".to_owned(),
            Builtin::StringToUppercase => "StringToUppercase".to_owned(),
            Builtin::StringInsert => "StringInsert".to_owned(),
        }
    }

    fn get_type(&self) -> (r: ExecutionBlockType) {
        match self {
            Builtin::Start => ExecutionBlockType::Start,
            Builtin::ConsolePrint => ExecutionBlockType::Normal,
            Builtin::Print => ExecutionBlockType::Normal,
            _ => ExecutionBlockType::Static,
        }
    }

    fn get_inputs(&self) -> (r: Vec<String>) {
        self.get_operation().get_takes()
    }

    fn get_outputs(&self) -> (r: Vec<String>) {
        self.get_operation().get_gives()
    }

    fn execute(&self, input: Vec<Register>, block_id: u32) -> (r: Result<Output, String>) {
        self.get_operation().apply(&input, block_id)
    }
}

/// The kinds that `add_blocks` registers, in order.
pub open spec fn kinds() -> Seq<Builtin> {
    seq![Builtin::Comment, Builtin::Print] + integer::kinds() + string::kinds()
}

/// The kinds of the default catalog, in order.
pub open spec fn default_kinds() -> Seq<Builtin> {
    seq![
        Builtin::Start,
        Builtin::ConsolePrint,
        Builtin::StaticString,
        Builtin::AddString,
        Builtin::AddInteger,
        Builtin::IntegerToString,
    ]
}

/// Registers the kinds of this module and of the modules below it.
pub fn add_blocks(logic: &mut Logic<Builtin>)
    ensures
        final(logic).blocks@ == old(logic).blocks@ + kinds(),
        final(logic).types == old(logic).types,
{
    logic.add_block(Builtin::Comment);
    logic.add_block(Builtin::Print);
    integer::add_blocks(logic);
    string::add_blocks(logic);
    assert(logic.blocks@ =~= old(logic).blocks@ + kinds());
}

impl Default for Logic<Builtin> {
    /// The default catalog: the four connection types, and the kinds
    /// `Start`, `ConsolePrint`, `StaticString`, `AddString`, `AddInteger`
    /// and `IntegerToString`, with the ids 1 to 6.
    fn default() -> (r: Logic<Builtin>)
        ensures
            r.blocks@ == default_kinds(),
            r.types_view() == Logic::<Builtin>::empty_types(),
    {
        let mut logic = Logic::empty();
        logic.add_block(Builtin::Start);
        logic.add_block(Builtin::ConsolePrint);
        logic.add_block(Builtin::StaticString);
        logic.add_block(Builtin::AddString);
        logic.add_block(Builtin::AddInteger);
        logic.add_block(Builtin::IntegerToString);
        assert(logic.blocks@ =~= default_kinds());
        logic
    }
}

/// Every kind of the engine's own is described and keeps to the rule for
/// handlers.
pub proof fn lemma_builtin_is_lawful(kind: Builtin)
    ensures
        lawful(kind),
{
    assert forall|input: Seq<RegisterView>, block_id: u32|
        accepts(kind.inputs(), input) implies (#[trigger] kind.outcome(input, block_id) matches Ok(
        out,
    ) ==> well_formed(kind.outputs(), block_id, out.registers)) by {
        lemma_compute_is_well_formed(kind.operation(), values_of(input), block_id);
    }
}

/// A catalog of kinds of the engine's own is lawful.
pub proof fn lemma_builtins_are_lawful(kinds: Seq<Builtin>)
    ensures
        all_lawful(kinds),
{
    assert forall|i: int| 0 <= i < kinds.len() implies lawful(#[trigger] kinds[i]) by {
        lemma_builtin_is_lawful(kinds[i]);
    }
}

/// The kind `Start` as a type of its own, for a catalog that a host puts together from single kinds.
#[derive(Debug, Clone, Copy, PartialEq, Eq, Structural)]
pub struct Start {}

impl ExecutionBlock for Start {
    open spec fn modelled(&self) -> bool {
        true
    }

    open spec fn id(&self) -> u32 {
        Builtin::Start.id()
    }

    open spec fn name(&self) -> Seq<char> {
        Builtin::Start.name()
    }

    open spec fn category(&self) -> ExecutionBlockType {
        Builtin::Start.category()
    }

    open spec fn inputs(&self) -> Seq<Seq<char>> {
        Builtin::Start.inputs()
    }

    open spec fn outputs(&self) -> Seq<Seq<char>> {
        Builtin::Start.outputs()
    }

    open spec fn outcome(&self, input: Seq<RegisterView>, block_id: u32) -> Result<
        OutputView,
        Seq<char>,
    > {
        Builtin::Start.outcome(input, block_id)
    }

    fn get_id(&self) -> (r: u32) {
        Builtin::Start.get_id()
    }

    fn get_name(&self) -> (r: String) {
        Builtin::Start.get_name()
    }

    fn get_type(&self) -> (r: ExecutionBlockType) {
        Builtin::Start.get_type()
    }

    fn get_inputs(&self) -> (r: Vec<String>) {
        Builtin::Start.get_inputs()
    }

    fn get_outputs(&self) -> (r: Vec<String>) {
        Builtin::Start.get_outputs()
    }

    fn execute(&self, input: Vec<Register>, block_id: u32) -> (r: Result<Output, String>) {
        Builtin::Start.execute(input, block_id)
    }
}

/// The kind `ConsolePrint` as a type of its own.
#[derive(Debug, Clone, Copy, PartialEq, Eq, Structural)]
pub struct ConsoleLog {}

impl ExecutionBlock for ConsoleLog {
    open spec fn modelled(&self) -> bool {
        true
    }

    open spec fn id(&self) -> u32 {
        Builtin::ConsolePrint.id()
    }

    open spec fn name(&self) -> Seq<char> {
        Builtin::ConsolePrint.name()
    }

    open spec fn category(&self) -> ExecutionBlockType {
        Builtin::ConsolePrint.category()
    }

    open spec fn inputs(&self) -> Seq<Seq<char>> {
        Builtin::ConsolePrint.inputs()
    }

    open spec fn outputs(&self) -> Seq<Seq<char>> {
        Builtin::ConsolePrint.outputs()
    }

    open spec fn outcome(&self, input: Seq<RegisterView>, block_id: u32) -> Result<
        OutputView,
        Seq<char>,
    > {
        Builtin::ConsolePrint.outcome(input, block_id)
    }

    fn get_id(&self) -> (r: u32) {
        Builtin::ConsolePrint.get_id()
    }

    fn get_name(&self) -> (r: String) {
        Builtin::ConsolePrint.get_name()
    }

    fn get_type(&self) -> (r: ExecutionBlockType) {
        Builtin::ConsolePrint.get_type()
    }

    fn get_inputs(&self) -> (r: Vec<String>) {
        Builtin::ConsolePrint.get_inputs()
    }

    fn get_outputs(&self) -> (r: Vec<String>) {
        Builtin::ConsolePrint.get_outputs()
    }

    fn execute(&self, input: Vec<Register>, block_id: u32) -> (r: Result<Output, String>) {
        Builtin::ConsolePrint.execute(input, block_id)
    }
}

/// The kind `StaticString` as a type of its own.
#[derive(Debug, Clone, Copy, PartialEq, Eq, Structural)]
pub struct StaticString {}

impl ExecutionBlock for StaticString {
    open spec fn modelled(&self) -> bool {
        true
    }

    open spec fn id(&self) -> u32 {
        Builtin::StaticString.id()
    }

    open spec fn name(&self) -> Seq<char> {
        Builtin::StaticString.name()
    }

    open spec fn category(&self) -> ExecutionBlockType {
        Builtin::StaticString.category()
    }

    open spec fn inputs(&self) -> Seq<Seq<char>> {
        Builtin::StaticString.inputs()
    }

    open spec fn outputs(&self) -> Seq<Seq<char>> {
        Builtin::StaticString.outputs()
    }

    open spec fn outcome(&self, input: Seq<RegisterView>, block_id: u32) -> Result<
        OutputView,
        Seq<char>,
    > {
        Builtin::StaticString.outcome(input, block_id)
    }

    fn get_id(&self) -> (r: u32) {
        Builtin::StaticString.get_id()
    }

    fn get_name(&self) -> (r: String) {
        Builtin::StaticString.get_name()
    }

    fn get_type(&self) -> (r: ExecutionBlockType) {
        Builtin::StaticString.get_type()
    }

    fn get_inputs(&self) -> (r: Vec<String>) {
        Builtin::StaticString.get_inputs()
    }

    fn get_outputs(&self) -> (r: Vec<String>) {
        Builtin::StaticString.get_outputs()
    }

    fn execute(&self, input: Vec<Register>, block_id: u32) -> (r: Result<Output, String>) {
        Builtin::StaticString.execute(input, block_id)
    }
}

/// The kinds that are types of their own are described and keep to the
/// rule for handlers, as the kinds that they stand for do.
pub proof fn lemma_single_kinds_are_lawful()
    ensures
        lawful(Start {  }),
        lawful(ConsoleLog {  }),
        lawful(StaticString {  }),
{
    lemma_builtin_is_lawful(Builtin::Start);
    lemma_builtin_is_lawful(Builtin::ConsolePrint);
    lemma_builtin_is_lawful(Builtin::StaticString);
    assert forall|input: Seq<RegisterView>, block_id: u32|
        accepts((Start {  }).inputs(), input) implies (#[trigger] (Start {  }).outcome(
        input,
        block_id,
    ) matches Ok(out) ==> well_formed((Start {  }).outputs(), block_id, out.registers)) by {
        assert((Start {  }).outcome(input, block_id) == Builtin::Start.outcome(input, block_id));
    }
    assert forall|input: Seq<RegisterView>, block_id: u32|
        accepts((ConsoleLog {  }).inputs(), input) implies (#[trigger] (ConsoleLog {  }).outcome(
        input,
        block_id,
    ) matches Ok(out) ==> well_formed((ConsoleLog {  }).outputs(), block_id, out.registers)) by {
        assert((ConsoleLog {  }).outcome(input, block_id) == Builtin::ConsolePrint.outcome(
            input,
            block_id,
        ));
    }
    assert forall|input: Seq<RegisterView>, block_id: u32|
        accepts((StaticString {  }).inputs(), input) implies (#[trigger] (
        StaticString {  }).outcome(input, block_id) matches Ok(out) ==> well_formed(
            (StaticString {  }).outputs(),
            block_id,
            out.registers,
        )) by {
        assert((StaticString {  }).outcome(input, block_id) == Builtin::StaticString.outcome(
            input,
            block_id,
        ));
    }
}

} // verus!
