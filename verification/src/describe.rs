//! The description of a catalog for an editor: its rules, its connection
//! types, and its kinds of blocks with their ports.

use crate::json::{Json, JsonView};
use crate::logic::{all_described, described, ExecutionBlock, ExecutionBlockType, Logic, MAX_PORTS};
use crate::text::texts_view;
use crate::types::{ExecutionType, ValueView};
use vstd::prelude::*;

verus! {

/// The description of a port, without a name.
pub open spec fn port_json(id: int, io: Seq<char>, name: Seq<char>) -> JsonView {
    JsonView::Object(
        seq![
            ("id"@, JsonView::Integer(id as i64)),
            ("io"@, JsonView::Text(io)),
            ("type"@, JsonView::Text(name)),
        ],
    )
}

/// The description of an execution port, which has a name.
pub open spec fn named_port_json(id: int, io: Seq<char>, name: Seq<char>) -> JsonView {
    JsonView::Object(
        seq![
            ("id"@, JsonView::Integer(id as i64)),
            ("io"@, JsonView::Text(io)),
            ("type"@, JsonView::Text("Execution"@)),
            ("name"@, JsonView::Text(name)),
        ],
    )
}

/// The execution ports of a kind: a start kind has the output `Next` at 0, a
/// normal kind the input `Run` at 0 and the output `Next` at 1, and a
/// static kind has none.
pub open spec fn execution_ports(category: ExecutionBlockType) -> Seq<JsonView> {
    match category {
        ExecutionBlockType::Start => seq![named_port_json(0, "output"@, "Next"@)],
        ExecutionBlockType::Normal => seq![
            named_port_json(0, "input"@, "Run"@),
            named_port_json(1, "output"@, "Next"@),
        ],
        ExecutionBlockType::Static => Seq::empty(),
    }
}

/// The data ports for the first `upto` positions: at each position the
/// input, if one is declared there, under an even id from 2 on, and then
/// the output, if one is declared there, under the odd id that follows.
pub open spec fn data_ports(inputs: Seq<Seq<char>>, outputs: Seq<Seq<char>>, upto: nat) -> Seq<
    JsonView,
>
    decreases upto,
{
    if upto == 0 {
        Seq::empty()
    } else {
        let at = upto - 1;
        let before = data_ports(inputs, outputs, at as nat);
        let with_input = if at < inputs.len() {
            before.push(port_json(2 + 2 * at, "input"@, inputs[at]))
        } else {
            before
        };
        if at < outputs.len() {
            with_input.push(port_json(3 + 2 * at, "output"@, outputs[at]))
        } else {
            with_input
        }
    }
}

/// The larger of two lengths.
pub open spec fn larger(a: nat, b: nat) -> nat {
    if a >= b {
        a
    } else {
        b
    }
}

/// The description of a kind of block.
pub open spec fn kind_json<B: ExecutionBlock>(kind: B) -> JsonView {
    JsonView::Object(
        seq![
            ("id"@, JsonView::Integer(kind.id() as i64)),
            ("name"@, JsonView::Text(kind.name())),
            (
                "nodes"@,
                JsonView::Array(
                    execution_ports(kind.category()) + data_ports(
                        kind.inputs(),
                        kind.outputs(),
                        larger(kind.inputs().len(), kind.outputs().len()),
                    ),
                ),
            ),
        ],
    )
}

/// The description of a connection type.
pub open spec fn connection_json(t: ValueView) -> JsonView {
    JsonView::Object(
        seq![
            ("type"@, JsonView::Text(t.name())),
            ("color"@, JsonView::Text(t.color())),
            ("valueEdit"@, JsonView::Bool(t.edit_default() is Some)),
            (
                "valueDefault"@,
                JsonView::Text(
                    match t.edit_default() {
                        Some(text) => text,
                        None => Seq::empty(),
                    },
                ),
            ),
            ("valueCheck"@, JsonView::Text(Seq::empty())),
        ],
    )
}

/// The rules that an editor holds its user to.
pub open spec fn rules_json() -> JsonView {
    JsonView::Object(
        seq![
            ("strictInputOutput"@, JsonView::Bool(true)),
            ("strictDifferentBlock"@, JsonView::Bool(true)),
            ("strictConnections"@, JsonView::Bool(true)),
        ],
    )
}

/// The description of a catalog.
pub open spec fn catalog_json<B: ExecutionBlock>(kinds: Seq<B>, types: Seq<ValueView>) -> JsonView {
    JsonView::Object(
        seq![
            ("rules"@, rules_json()),
            ("connections"@, JsonView::Array(Seq::new(types.len(), |i: int| connection_json(types[i])))),
            ("blocks"@, JsonView::Array(Seq::new(kinds.len(), |i: int| kind_json(kinds[i])))),
        ],
    )
}

/// An object of the fields `fields`.
fn object(fields: Vec<(String, Json)>) -> (r: Json)
    ensures
        r@ == JsonView::Object(Seq::new(fields@.len(), |i: int| (fields@[i].0@, fields@[i].1@))),
{
    let ghost want = Seq::new(fields@.len(), |i: int| (fields@[i].0@, fields@[i].1@));
    let r = Json::Object(fields);
    assert(r@->Object_0 =~= want);
    r
}

/// An array of the items `items`.
fn array(items: Vec<Json>) -> (r: Json)
    ensures
        r@ == JsonView::Array(Seq::new(items@.len(), |i: int| items@[i]@)),
{
    let ghost want = Seq::new(items@.len(), |i: int| items@[i]@);
    let r = Json::Array(items);
    assert(r@->Array_0 =~= want);
    r
}

fn text(value: &str) -> (r: Json)
    ensures
        r@ == JsonView::Text(value@),
{
    Json::Text(value.to_owned())
}

fn field(name: &str, value: Json) -> (r: (String, Json))
    ensures
        r.0@ == name@,
        r.1 == value,
{
    (name.to_owned(), value)
}

fn port_to_json(id: i64, io: &str, name: &str) -> (r: Json)
    ensures
        r@ == port_json(id as int, io@, name@),
{
    let mut fields: Vec<(String, Json)> = Vec::new();
    fields.push(field("id", Json::Integer(id)));
    fields.push(field("io", text(io)));
    fields.push(field("type", text(name)));
    let r = object(fields);
    assert(r@->Object_0 =~= port_json(id as int, io@, name@)->Object_0);
    r
}

fn named_port_to_json(id: i64, io: &str, name: &str) -> (r: Json)
    ensures
        r@ == named_port_json(id as int, io@, name@),
{
    let mut fields: Vec<(String, Json)> = Vec::new();
    fields.push(field("id", Json::Integer(id)));
    fields.push(field("io", text(io)));
    fields.push(field("type", text("Execution")));
    fields.push(field("name", text(name)));
    let r = object(fields);
    assert(r@->Object_0 =~= named_port_json(id as int, io@, name@)->Object_0);
    r
}

/// The views of the documents in `items`, in order.
pub open spec fn items_view(items: Seq<Json>) -> Seq<JsonView> {
    Seq::new(items.len(), |i: int| items[i]@)
}

/// The description of the kind `kind`.
pub fn get_json<B: ExecutionBlock>(kind: &B) -> (r: Json)
    ensures
        described(*kind) ==> r@ == kind_json(*kind),
{
    let mut nodes: Vec<Json> = Vec::new();
    match kind.get_type() {
        ExecutionBlockType::Start => {
            nodes.push(named_port_to_json(0, "output", "Next"));
        },
        ExecutionBlockType::Normal => {
            nodes.push(named_port_to_json(0, "input", "Run"));
            nodes.push(named_port_to_json(1, "output", "Next"));
        },
        ExecutionBlockType::Static => {},
    }
    let ghost fixed = items_view(nodes@);
    assert(described(*kind) ==> fixed =~= execution_ports(kind.category()));
    let inputs = kind.get_inputs();
    let outputs = kind.get_outputs();
    let ghost taken = texts_view(inputs@);
    let ghost given = texts_view(outputs@);
    let mut at: usize = 0;
    while (at < inputs.len() || at < outputs.len()) && at < MAX_PORTS
        invariant
            taken == texts_view(inputs@),
            given == texts_view(outputs@),
            at <= larger(taken.len(), given.len()),
            at <= MAX_PORTS,
            items_view(nodes@) == fixed + data_ports(taken, given, at as nat),
        decreases larger(taken.len(), given.len()) - at,
    {
        let ghost before = items_view(nodes@);
        let id: i64 = 2 + 2 * (at as i64);
        if at < inputs.len() {
            nodes.push(port_to_json(id, "input", inputs[at].as_str()));
        }
        let ghost middle = items_view(nodes@);
        if at < outputs.len() {
            nodes.push(port_to_json(id + 1, "output", outputs[at].as_str()));
        }
        proof {
            let grown = data_ports(taken, given, (at + 1) as nat);
            assert(middle =~= if at < taken.len() {
                before.push(port_json(2 + 2 * at, "input"@, taken[at as int]))
            } else {
                before
            });
            let earlier = data_ports(taken, given, at as nat);
            let with_input = if at < taken.len() {
                earlier.push(port_json(2 + 2 * at, "input"@, taken[at as int]))
            } else {
                earlier
            };
            assert(middle =~= fixed + with_input);
            assert(items_view(nodes@) =~= if at < given.len() {
                middle.push(port_json(3 + 2 * at, "output"@, given[at as int]))
            } else {
                middle
            });
            assert(items_view(nodes@) =~= fixed + grown);
        }
        at += 1;
    }
    let list = array(nodes);
    let mut fields: Vec<(String, Json)> = Vec::new();
    fields.push(field("id", Json::Integer(kind.get_id() as i64)));
    fields.push(field("name", Json::Text(kind.get_name())));
    fields.push(field("nodes", list));
    let r = object(fields);
    proof {
        if described(*kind) {
            assert(r@->Object_0 =~= kind_json(*kind)->Object_0);
        }
    }
    r
}

/// The description of the connection type that `typ` stands for.
pub fn connection_to_json(typ: &ExecutionType) -> (r: Json)
    ensures
        r@ == connection_json(typ@),
{
    let edit = typ.get_edit_default();
    let editable = edit.is_some();
    let offered = match edit {
        Some(default) => default,
        None => String::new(),
    };
    let mut fields: Vec<(String, Json)> = Vec::new();
    fields.push(field("type", Json::Text(typ.get_name())));
    fields.push(field("color", Json::Text(typ.get_color())));
    fields.push(field("valueEdit", Json::Bool(editable)));
    fields.push(field("valueDefault", Json::Text(offered)));
    fields.push(field("valueCheck", Json::Text(String::new())));
    let r = object(fields);
    assert(r@->Object_0 =~= connection_json(typ@)->Object_0);
    r
}

impl<B: ExecutionBlock> Logic<B> {
    /// The descriptions of the registered connection types, in order.
    pub fn get_connection_json(&self) -> (r: Vec<Json>)
        ensures
            items_view(r@) == Seq::new(
                self.types_view().len(),
                |i: int| connection_json(self.types_view()[i]),
            ),
    {
        let ghost types = self.types_view();
        let mut cons: Vec<Json> = Vec::new();
        let mut i: usize = 0;
        while i < self.types.len()
            invariant
                i <= self.types@.len(),
                cons@.len() == i,
                types == self.types_view(),
                forall|j: int| 0 <= j < i ==> cons@[j]@ == connection_json(types[j]),
            decreases self.types@.len() - i,
        {
            assert(types[i as int] == self.types@[i as int]@);
            cons.push(connection_to_json(&self.types[i]));
            i += 1;
        }
        assert(items_view(cons@) =~= Seq::new(types.len(), |i: int| connection_json(types[i])));
        cons
    }

    /// The description of the catalog: the rules, the connection types and
    /// the kinds of blocks.
    pub fn get_json(&self) -> (r: Json)
        ensures
            all_described(self.blocks@) ==> r@ == catalog_json(self.blocks@, self.types_view()),
    {
        let mut rules: Vec<(String, Json)> = Vec::new();
        rules.push(field("strictInputOutput", Json::Bool(true)));
        rules.push(field("strictDifferentBlock", Json::Bool(true)));
        rules.push(field("strictConnections", Json::Bool(true)));
        let rules = object(rules);
        assert(rules@->Object_0 =~= rules_json()->Object_0);
        let mut blocks: Vec<Json> = Vec::new();
        let mut i: usize = 0;
        while i < self.blocks.len()
            invariant
                i <= self.blocks@.len(),
                blocks@.len() == i,
                all_described(self.blocks@) ==> forall|j: int|
                    0 <= j < i ==> blocks@[j]@ == kind_json(self.blocks@[j]),
            decreases self.blocks@.len() - i,
        {
            blocks.push(get_json(&self.blocks[i]));
            i += 1;
        }
        let blocks = array(blocks);
        let connections = array(self.get_connection_json());
        let ghost want = catalog_json(self.blocks@, self.types_view())->Object_0;
        assert(all_described(self.blocks@) ==> blocks@->Array_0 =~= want[2].1->Array_0);
        assert(connections@->Array_0 =~= want[1].1->Array_0);
        let mut fields: Vec<(String, Json)> = Vec::new();
        fields.push(field("rules", rules));
        fields.push(field("connections", connections));
        fields.push(field("blocks", blocks));
        let r = object(fields);
        assert(all_described(self.blocks@) ==> r@->Object_0 =~= want);
        r
    }
}

} // verus!
