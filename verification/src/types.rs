//! The values that flow along the data edges. A value also stands for its
//! connection type: a catalog registers one value of each type it accepts.

use crate::json::{parse, parsed, Json, JsonView};
use crate::text::{integer_text, integer_to_text, parse_integer, parsed_integer, same_text};
use vstd::prelude::*;

verus! {

/// The connection type of the execution edges. It carries no data.
#[derive(Debug, Clone, Copy, PartialEq, Eq, Structural)]
pub struct Execution {}

/// A connection type, without a value.
#[derive(Debug, Clone, Copy, PartialEq, Eq, Structural)]
pub enum ConnectionType {
    Execution,
    String,
    Integer,
    Float,
    Unknown,
    /// A type that a host has added.
    Other,
}

/// A connection type that a host has added: its name, the colour in which
/// an editor draws it, and the literal that an editor offers for a port of
/// it, if it can be edited.
#[derive(Debug, PartialEq, Eq)]
pub struct HostType {
    pub name: String,
    pub color: String,
    pub edit_default: Option<String>,
}

/// The mathematical value of a `HostType`.
pub struct HostTypeView {
    pub name: Seq<char>,
    pub color: Seq<char>,
    pub edit_default: Option<Seq<char>>,
}

/// The view of a text that may be absent.
pub open spec fn optional_text(text: Option<String>) -> Option<Seq<char>> {
    match text {
        Some(t) => Some(t@),
        None => None,
    }
}

impl View for HostType {
    type V = HostTypeView;

    open spec fn view(&self) -> HostTypeView {
        HostTypeView {
            name: self.name@,
            color: self.color@,
            edit_default: optional_text(self.edit_default),
        }
    }
}

impl HostType {
    /// An independent copy of the type.
    pub fn duplicate(&self) -> (r: HostType)
        ensures
            r@ == self@,
    {
        HostType {
            name: self.name.clone(),
            color: self.color.clone(),
            edit_default: match &self.edit_default {
                Some(t) => Some(t.clone()),
                None => None,
            },
        }
    }

    /// Whether `other` is the same type: of the same name, colour and literal.
    pub fn same(&self, other: &HostType) -> (r: bool)
        ensures
            r == (self@ == other@),
    {
        let literal = match (&self.edit_default, &other.edit_default) {
            (Some(a), Some(b)) => *a == *b,
            (None, None) => true,
            _ => false,
        };
        self.name == other.name && self.color == other.color && literal
    }
}

/// A value on an edge. A `Float` is carried as the decimal text of the
/// number: the engine hands it on and never computes with it. `Unknown` is
/// the absent value. An `Other` is a value of a type that a host has added:
/// the type, and the value as a text that only the host reads.
#[derive(Debug, PartialEq, Eq)]
pub enum ExecutionType {
    Execution,
    String(String),
    Integer(i64),
    Float(String),
    Unknown,
    Other(HostType, String),
}

/// The mathematical value of an `ExecutionType`.
pub enum ValueView {
    Execution,
    String(Seq<char>),
    Integer(i64),
    Float(Seq<char>),
    Unknown,
    Other(HostTypeView, Seq<char>),
}

impl View for ExecutionType {
    type V = ValueView;

    open spec fn view(&self) -> ValueView {
        match self {
            ExecutionType::Execution => ValueView::Execution,
            ExecutionType::String(s) => ValueView::String(s@),
            ExecutionType::Integer(i) => ValueView::Integer(*i),
            ExecutionType::Float(t) => ValueView::Float(t@),
            ExecutionType::Unknown => ValueView::Unknown,
            ExecutionType::Other(host, text) => ValueView::Other(host@, text@),
        }
    }
}

/// Whether `name` is the name of one of the types of the engine's own.
pub open spec fn is_own_name(name: Seq<char>) -> bool {
    name == "Execution"@ || name == "String"@ || name == "Integer"@ || name == "Float"@ || name
        == "Unknown"@
}

/// Whether `name` is the name of one of the types of the engine's own.
pub fn is_own(name: &str) -> (r: bool)
    ensures
        r == is_own_name(name@),
{
    same_text(name, "Execution") || same_text(name, "String") || same_text(name, "Integer")
        || same_text(name, "Float") || same_text(name, "Unknown")
}

impl ValueView {
    /// The name of the connection type that the value belongs to.
    pub open spec fn name(self) -> Seq<char> {
        match self {
            ValueView::Execution => "Execution"@,
            ValueView::String(_) => "String"@,
            ValueView::Integer(_) => "Integer"@,
            ValueView::Float(_) => "Float"@,
            ValueView::Unknown => "Unknown"@,
            ValueView::Other(host, _) => host.name,
        }
    }

    /// Whether the value, if it is of a type that a host has added, is of a
    /// type that is not named like one of the engine's own.
    pub open spec fn well_named(self) -> bool {
        self matches ValueView::Other(host, _) ==> !is_own_name(host.name)
    }

    /// The connection type that the value belongs to.
    pub open spec fn connection_type(self) -> ConnectionType {
        match self {
            ValueView::Execution => ConnectionType::Execution,
            ValueView::String(_) => ConnectionType::String,
            ValueView::Integer(_) => ConnectionType::Integer,
            ValueView::Float(_) => ConnectionType::Float,
            ValueView::Unknown => ConnectionType::Unknown,
            ValueView::Other(_, _) => ConnectionType::Other,
        }
    }

    /// Whether two values belong to the same connection type: to the same
    /// type of the engine's own, or to the same type that a host has added.
    pub open spec fn same_type(self, other: ValueView) -> bool {
        self.connection_type() == other.connection_type() && (self is Other ==> self->Other_0
            == other->Other_0)
    }

    /// The colour in which an editor draws the type.
    pub open spec fn color(self) -> Seq<char> {
        match self {
            ValueView::Execution => "dark"@,
            ValueView::String(_) => "green"@,
            ValueView::Integer(_) => "lightgreen"@,
            ValueView::Float(_) => "darkgreen"@,
            ValueView::Unknown => "blue"@,
            ValueView::Other(host, _) => host.color,
        }
    }

    /// The literal that an editor offers for a port that has no edge, if the
    /// type can be edited.
    pub open spec fn edit_default(self) -> Option<Seq<char>> {
        match self {
            ValueView::Execution => None,
            ValueView::String(_) => Some("Text"@),
            ValueView::Integer(_) => Some("0"@),
            ValueView::Float(_) => Some("0.0"@),
            ValueView::Unknown => None,
            ValueView::Other(host, _) => host.edit_default,
        }
    }

    /// Whether one output of this type may feed several inputs: any but an
    /// execution output may.
    pub open spec fn multi_output(self) -> bool {
        !(self is Execution)
    }

    /// The JSON literal that stands for the value.
    pub open spec fn to_json(self) -> JsonView {
        match self {
            ValueView::Execution => JsonView::Null,
            ValueView::String(s) => JsonView::Text(s),
            ValueView::Integer(i) => JsonView::Integer(i),
            ValueView::Float(t) => JsonView::Decimal(t),
            ValueView::Unknown => JsonView::Null,
            ValueView::Other(_, text) => JsonView::Text(text),
        }
    }

    /// The value that a JSON literal stands for on a port of the type of `self`.
    ///
    /// A `String` takes a JSON string and is empty otherwise. An `Integer`
    /// takes an integer number, or a string that parses as one, and is 0
    /// otherwise. A `Float` takes any number, or a string that holds a JSON
    /// number, and is 0.0 otherwise. A type that a host has added takes a
    /// JSON string as the text of the value, and otherwise has the text of
    /// `self`. The other two types hold nothing.
    pub open spec fn lift(self, json: JsonView) -> ValueView {
        match self {
            ValueView::Execution => ValueView::Execution,
            ValueView::String(_) => match json {
                JsonView::Text(s) => ValueView::String(s),
                _ => ValueView::String(Seq::empty()),
            },
            ValueView::Integer(_) => match json {
                JsonView::Integer(i) => ValueView::Integer(i),
                JsonView::Text(s) => match parsed_integer(s) {
                    Some(i) => ValueView::Integer(i),
                    None => ValueView::Integer(0),
                },
                _ => ValueView::Integer(0),
            },
            ValueView::Float(_) => match json {
                JsonView::Decimal(t) => ValueView::Float(t),
                JsonView::Integer(i) => ValueView::Float(integer_text(i)),
                JsonView::Text(s) => match parsed(s) {
                    Ok(JsonView::Decimal(t)) => ValueView::Float(t),
                    Ok(JsonView::Integer(i)) => ValueView::Float(integer_text(i)),
                    _ => ValueView::Float("0.0"@),
                },
                _ => ValueView::Float("0.0"@),
            },
            ValueView::Unknown => ValueView::Unknown,
            ValueView::Other(host, text) => match json {
                JsonView::Text(given) => ValueView::Other(host, given),
                _ => ValueView::Other(host, text),
            },
        }
    }
}

impl Execution {
    pub fn new() -> (r: Execution)
        ensures
            r == (Execution {  }),
    {
        Execution {  }
    }

    /// The value that stands for the execution type in a catalog.
    pub fn get_type(&self) -> (r: ExecutionType)
        ensures
            r@ == ValueView::Execution,
    {
        ExecutionType::Execution
    }
}

impl ExecutionType {
    /// The name of the connection type that the value belongs to.
    pub fn get_name(&self) -> (r: String)
        ensures
            r@ == self@.name(),
    {
        match self {
            ExecutionType::Execution => "Execution".to_owned(),
            ExecutionType::String(_) => "String".to_owned(),
            ExecutionType::Integer(_) => "Integer".to_owned(),
            ExecutionType::Float(_) => "Float".to_owned(),
            ExecutionType::Unknown => "Unknown".to_owned(),
            ExecutionType::Other(host, _) => host.name.clone(),
        }
    }

    /// The colour in which an editor draws the type.
    pub fn get_color(&self) -> (r: String)
        ensures
            r@ == self@.color(),
    {
        match self {
            ExecutionType::Execution => "dark".to_owned(),
            ExecutionType::String(_) => "green".to_owned(),
            ExecutionType::Integer(_) => "lightgreen".to_owned(),
            ExecutionType::Float(_) => "darkgreen".to_owned(),
            ExecutionType::Unknown => "blue".to_owned(),
            ExecutionType::Other(host, _) => host.color.clone(),
        }
    }

    /// The literal that an editor offers for a port that has no edge, if the
    /// type can be edited.
    pub fn get_edit_default(&self) -> (r: Option<String>)
        ensures
            match r {
                Some(s) => self@.edit_default() == Some(s@),
                None => self@.edit_default() is None,
            },
    {
        match self {
            ExecutionType::Execution => None,
            ExecutionType::String(_) => Some("Text".to_owned()),
            ExecutionType::Integer(_) => Some("0".to_owned()),
            ExecutionType::Float(_) => Some("0.0".to_owned()),
            ExecutionType::Unknown => None,
            ExecutionType::Other(host, _) => match &host.edit_default {
                Some(t) => Some(t.clone()),
                None => None,
            },
        }
    }

    /// Whether one output of this type may feed several inputs.
    pub fn get_multi_output(&self) -> (r: bool)
        ensures
            r == self@.multi_output(),
    {
        match self {
            ExecutionType::Execution => false,
            _ => true,
        }
    }

    /// The text, if the value is a `String`.
    pub fn get_string(&self) -> (r: Option<String>)
        ensures
            match r {
                Some(s) => self@ == ValueView::String(s@),
                None => !(self@ is String),
            },
    {
        match self {
            ExecutionType::String(s) => Some(s.clone()),
            _ => None,
        }
    }

    /// The number, if the value is an `Integer`.
    pub fn get_integer(&self) -> (r: Option<i64>)
        ensures
            match r {
                Some(i) => self@ == ValueView::Integer(i),
                None => !(self@ is Integer),
            },
    {
        match self {
            ExecutionType::Integer(i) => Some(*i),
            _ => None,
        }
    }

    /// The decimal text of the number, if the value is a `Float`.
    pub fn get_float(&self) -> (r: Option<String>)
        ensures
            match r {
                Some(t) => self@ == ValueView::Float(t@),
                None => !(self@ is Float),
            },
    {
        match self {
            ExecutionType::Float(t) => Some(t.clone()),
            _ => None,
        }
    }

    /// The type and the text of the value, if the value is of a type that a
    /// host has added.
    pub fn get_other(&self) -> (r: Option<(HostType, String)>)
        ensures
            match r {
                Some(pair) => self@ == ValueView::Other(pair.0@, pair.1@),
                None => !(self@ is Other),
            },
    {
        match self {
            ExecutionType::Other(host, text) => Some((host.duplicate(), text.clone())),
            _ => None,
        }
    }

    /// Whether the value, if it is of a type that a host has added, is of a
    /// type that is not named like one of the engine's own.
    pub fn is_well_named(&self) -> (r: bool)
        ensures
            r == self@.well_named(),
    {
        match self {
            ExecutionType::Other(host, _) => !is_own(host.name.as_str()),
            _ => true,
        }
    }

    /// The connection type that the value belongs to.
    pub fn get_connection_type(&self) -> (r: ConnectionType)
        ensures
            r == self@.connection_type(),
    {
        match self {
            ExecutionType::Execution => ConnectionType::Execution,
            ExecutionType::String(_) => ConnectionType::String,
            ExecutionType::Integer(_) => ConnectionType::Integer,
            ExecutionType::Float(_) => ConnectionType::Float,
            ExecutionType::Unknown => ConnectionType::Unknown,
            ExecutionType::Other(_, _) => ConnectionType::Other,
        }
    }

    /// Whether `other` belongs to the same connection type.
    pub fn same_type(&self, other: &ExecutionType) -> (r: bool)
        ensures
            r == self@.same_type(other@),
    {
        match (self, other) {
            (ExecutionType::Other(a, _), ExecutionType::Other(b, _)) => a.same(b),
            _ => self.get_connection_type() == other.get_connection_type(),
        }
    }

    /// An independent copy of the value.
    pub fn duplicate(&self) -> (r: ExecutionType)
        ensures
            r@ == self@,
    {
        match self {
            ExecutionType::Execution => ExecutionType::Execution,
            ExecutionType::String(s) => ExecutionType::String(s.clone()),
            ExecutionType::Integer(i) => ExecutionType::Integer(*i),
            ExecutionType::Float(t) => ExecutionType::Float(t.clone()),
            ExecutionType::Unknown => ExecutionType::Unknown,
            ExecutionType::Other(host, text) => ExecutionType::Other(host.duplicate(), text.clone()),
        }
    }

    /// The JSON literal that stands for the value.
    pub fn to_json(&self) -> (r: Json)
        ensures
            r@ == self@.to_json(),
    {
        match self {
            ExecutionType::Execution => Json::Null,
            ExecutionType::String(s) => Json::Text(s.clone()),
            ExecutionType::Integer(i) => Json::Integer(*i),
            ExecutionType::Float(t) => Json::Decimal(t.clone()),
            ExecutionType::Unknown => Json::Null,
            ExecutionType::Other(_, text) => Json::Text(text.clone()),
        }
    }

    /// The value that `json` stands for on a port of the type of `self`.
    pub fn from_json(&self, json: &Json) -> (r: ExecutionType)
        ensures
            r@ == self@.lift(json@),
    {
        match self {
            ExecutionType::Execution => ExecutionType::Execution,
            ExecutionType::String(_) => match json {
                Json::Text(s) => ExecutionType::String(s.clone()),
                _ => ExecutionType::String(String::new()),
            },
            ExecutionType::Integer(_) => match json {
                Json::Integer(i) => ExecutionType::Integer(*i),
                Json::Text(s) => match parse_integer(s.as_str()) {
                    Some(i) => ExecutionType::Integer(i),
                    None => ExecutionType::Integer(0),
                },
                _ => ExecutionType::Integer(0),
            },
            ExecutionType::Float(_) => match json {
                Json::Decimal(t) => ExecutionType::Float(t.clone()),
                Json::Integer(i) => ExecutionType::Float(integer_to_text(*i)),
                Json::Text(s) => match parse(s.as_str()) {
                    Ok(Json::Decimal(t)) => ExecutionType::Float(t),
                    Ok(Json::Integer(i)) => ExecutionType::Float(integer_to_text(i)),
                    _ => ExecutionType::Float("0.0".to_owned()),
                },
                _ => ExecutionType::Float("0.0".to_owned()),
            },
            ExecutionType::Unknown => ExecutionType::Unknown,
            ExecutionType::Other(host, text) => match json {
                Json::Text(given) => ExecutionType::Other(host.duplicate(), given.clone()),
                _ => ExecutionType::Other(host.duplicate(), text.clone()),
            },
        }
    }
}

/// A value survives the way through its JSON literal and back, on a port
/// of its own type.
pub proof fn lemma_value_round_trip(port: ValueView, value: ValueView)
    requires
        port.same_type(value),
    ensures
        port.lift(value.to_json()) == value,
{
}

/// Two values of the same connection type are of types of one name. Two
/// values of types of one name are of the same connection type, as long as
/// no type that a host has added is named like one of the engine's own, and
/// not both values are of types that a host has added.
pub proof fn lemma_same_type_by_name(a: ValueView, b: ValueView)
    requires
        a.well_named(),
        b.well_named(),
    ensures
        a.same_type(b) ==> a.name() == b.name(),
        a.name() == b.name() && !(a is Other && b is Other) ==> a.same_type(b),
{
    reveal_strlit("Execution");
    reveal_strlit("String");
    reveal_strlit("Integer");
    reveal_strlit("Float");
    reveal_strlit("Unknown");
    assert("Execution"@.len() == 9);
    assert("String"@.len() == 6);
    assert("Integer"@.len() == 7);
    assert("Float"@.len() == 5);
    assert("Unknown"@.len() == 7);
    assert("Unknown"@[0] == 'U');
    assert("Integer"@[0] == 'I');
}

} // verus!
