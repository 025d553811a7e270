//! What holds of the codec as a whole: what the writer writes is the
//! rendering of an element tree, and reading that tree gives back what was
//! written.

use vstd::prelude::*;
use crate::decimal::{bounded_value, digits_value, int_text, lemma_int_text_round_trip};
use crate::error::Failure;
use crate::markup::Markup;
use crate::messages::{
    call_markup, decode_call, decode_params, decode_response,
    fault_datum, fault_of, param_markup, param_outcomes, params_markup, response_markup,
    CallModel, FaultModel, ReplyModel,
};
use crate::reader::{
    any_element, any_text, decode_member, decode_typed, decode_value, first_where, gather,
    is_element_named, lemma_first_where, literal_text, member_outcomes, named, value_outcomes,
};
use crate::de::{
    bool_of, char_of, enum_of, field_absent, i32_of, i64_of, option_of, struct_of, tuple_of,
    u32_of, u64_of, unit_of,
};
use crate::ser::{key_text, variant_datum};
use crate::value::{distinct_names, named_member, Datum};
use crate::writer::{leaf, member_markup, typed_markup, value_markup};

verus! {

/// Where every child is read and none fails, gathering gives what was read.
pub proof fn lemma_gather_all<T>(outcomes: Seq<Option<Result<T, Failure>>>, items: Seq<T>)
    requires
        outcomes.len() == items.len(),
        forall|i: int|
            0 <= i < items.len() ==> #[trigger] outcomes[i] == Some(
                Ok::<T, Failure>(items[i]),
            ),
    ensures
        gather(outcomes) == Ok::<Seq<T>, Failure>(items),
    decreases outcomes.len(),
{
    if outcomes.len() == 0 {
        assert(items =~= Seq::empty());
    } else {
        let front = outcomes.drop_last();
        let read = items.drop_last();
        assert forall|i: int| 0 <= i < read.len() implies #[trigger] front[i] == Some(
            Ok::<T, Failure>(read[i]),
        ) by {
            assert(front[i] == outcomes[i]);
        }
        lemma_gather_all(front, read);
        assert(outcomes.last() == outcomes[outcomes.len() - 1]);
        assert(read.push(items.last()) =~= items);
    }
}

/// The text that a leaf element holds is the text it was made of.
pub proof fn lemma_leaf_text(name: Seq<char>, text: Seq<char>)
    ensures
        literal_text(leaf(name, text)) == text,
        leaf(name, text) is Element,
        is_element_named(leaf(name, text), name),
{
    let children = leaf(name, text)->children;
    if text.len() == 0 {
        lemma_first_where(children, any_text(), 0);
        assert(text =~= Seq::empty());
    } else {
        lemma_first_where(children, any_text(), 0);
    }
}

/// The tag names of the protocol are pairwise different.
proof fn lemma_tags_differ()
    ensures
        "i4"@ != "int"@,
        "boolean"@ != "i4"@,
        "boolean"@ != "int"@,
        "string"@ != "i4"@,
        "string"@ != "int"@,
        "string"@ != "boolean"@,
        "double"@ != "i4"@,
        "double"@ != "int"@,
        "double"@ != "boolean"@,
        "double"@ != "string"@,
        "dateTime.iso8601"@ != "i4"@,
        "dateTime.iso8601"@ != "int"@,
        "dateTime.iso8601"@ != "boolean"@,
        "dateTime.iso8601"@ != "string"@,
        "dateTime.iso8601"@ != "double"@,
        "base64"@ != "i4"@,
        "base64"@ != "int"@,
        "base64"@ != "boolean"@,
        "base64"@ != "string"@,
        "base64"@ != "double"@,
        "base64"@ != "dateTime.iso8601"@,
        "array"@ != "i4"@,
        "array"@ != "int"@,
        "array"@ != "boolean"@,
        "array"@ != "string"@,
        "array"@ != "double"@,
        "array"@ != "dateTime.iso8601"@,
        "array"@ != "base64"@,
        "struct"@ != "i4"@,
        "struct"@ != "int"@,
        "struct"@ != "boolean"@,
        "struct"@ != "string"@,
        "struct"@ != "double"@,
        "struct"@ != "dateTime.iso8601"@,
        "struct"@ != "base64"@,
        "struct"@ != "array"@,
        "name"@ != "value"@,
        "methodName"@ != "params"@,
        "params"@ != "fault"@,
{
    reveal_strlit("i4");
    reveal_strlit("int");
    reveal_strlit("boolean");
    reveal_strlit("string");
    reveal_strlit("double");
    reveal_strlit("dateTime.iso8601");
    reveal_strlit("base64");
    reveal_strlit("array");
    reveal_strlit("struct");
    reveal_strlit("name");
    reveal_strlit("value");
    reveal_strlit("methodName");
    reveal_strlit("params");
    reveal_strlit("fault");
    assert("i4"@.len() == 2);
    assert("int"@.len() == 3);
    assert("boolean"@.len() == 7);
    assert("string"@.len() == 6);
    assert("double"@.len() == 6);
    assert("string"@[0] == 's');
    assert("double"@[0] == 'd');
    assert("dateTime.iso8601"@.len() == 16);
    assert("base64"@.len() == 6);
    assert("base64"@[0] == 'b');
    assert("array"@.len() == 5);
    assert("struct"@.len() == 6);
    assert("struct"@[1] == 't');
    assert("string"@[1] == 't');
    assert("struct"@[3] == 'u');
    assert("string"@[3] == 'i');
    assert("double"@[1] == 'o');
    assert("base64"@[1] == 'a');
    assert("name"@.len() == 4);
    assert("value"@.len() == 5);
    assert("methodName"@.len() == 10);
    assert("params"@.len() == 6);
    assert("fault"@.len() == 5);
}

/// The boolean literals read as the numbers one and zero.
proof fn lemma_boolean_literals()
    ensures
        bounded_value("1"@, 0, u8::MAX as int) == Some(1int),
        bounded_value("0"@, 0, u8::MAX as int) == Some(0int),
{
    reveal_strlit("1");
    reveal_strlit("0");
    assert("1"@ =~= seq!['1']);
    assert("0"@ =~= seq!['0']);
    assert(seq!['1'].drop_last() =~= Seq::<char>::empty());
    assert(seq!['0'].drop_last() =~= Seq::<char>::empty());
    assert(digits_value(Seq::<char>::empty()) == 0);
    assert(digits_value(seq!['1']) == 1);
    assert(digits_value(seq!['0']) == 0);
}

/// Reading the `<value>` element that the writer writes for a valid value
/// gives back that value.
pub proof fn law_value_round_trip(datum: Datum)
    requires
        datum.valid(),
    ensures
        decode_value(value_markup(datum)) == Ok::<Datum, Failure>(datum),
    decreases datum, 1int,
{
    let typed = typed_markup(datum);
    let children = seq![typed];
    law_typed_round_trip(datum);
    lemma_first_where(children, any_element(), 0);
}

/// Reading the `<member>` element that the writer writes for a named valid
/// value gives back the name and the value.
pub proof fn law_member_round_trip(name: Seq<char>, datum: Datum)
    requires
        datum.valid(),
    ensures
        decode_member(member_markup(name, datum)) == Ok::<(Seq<char>, Datum), Failure>(
            (name, datum),
        ),
    decreases datum, 2int,
{
    lemma_tags_differ();
    let children = seq![leaf("name"@, name), value_markup(datum)];
    lemma_leaf_text("name"@, name);
    law_value_round_trip(datum);
    lemma_first_where(children, named("name"@), 0);
    lemma_first_where(children, named("value"@), 1);
}

/// Reading the typed element that the writer writes for a valid value gives
/// back that value.
pub proof fn law_typed_round_trip(datum: Datum)
    requires
        datum.valid(),
    ensures
        decode_typed(typed_markup(datum)) == Ok::<Datum, Failure>(datum),
        typed_markup(datum) is Element,
    decreases datum, 0int,
{
    lemma_tags_differ();
    match datum {
        Datum::Int(v) => {
            lemma_leaf_text("i4"@, int_text(v as int));
            lemma_int_text_round_trip(v as int);
        },
        Datum::Bool(v) => {
            lemma_boolean_literals();
            lemma_leaf_text("boolean"@, "1"@);
            lemma_leaf_text("boolean"@, "0"@);
        },
        Datum::Text(text) => {
            lemma_leaf_text("string"@, text);
        },
        Datum::Double(text) => {
            lemma_leaf_text("double"@, text);
        },
        Datum::DateTime(instant) => {
            lemma_leaf_text("dateTime.iso8601"@, instant.wire_text());
            instant.lemma_round_trip();
        },
        Datum::Bytes(bytes) => {
            lemma_leaf_text("base64"@, crate::binary::base64_text(bytes));
        },
        Datum::Array(items) => {
            let data = typed_markup(datum)->children[0];
            let nodes = data->children;
            lemma_first_where(typed_markup(datum)->children, named("data"@), 0);
            let outcomes = value_outcomes(nodes);
            assert forall|i: int| 0 <= i < items.len() implies #[trigger] outcomes[i] == Some(
                Ok::<Datum, Failure>(items[i]),
            ) by {
                law_value_round_trip(items[i]);
            }
            lemma_gather_all(outcomes, items);
        },
        Datum::Struct(members) => {
            let nodes = typed_markup(datum)->children;
            let outcomes = member_outcomes(nodes);
            assert forall|i: int| 0 <= i < members.len() implies #[trigger] outcomes[i] == Some(
                Ok::<(Seq<char>, Datum), Failure>(members[i]),
            ) by {
                law_member_round_trip(members[i].0, members[i].1);
            }
            lemma_gather_all(outcomes, members);
        },
    }
}

/// A child that was passed over leaves what is gathered unchanged,
/// wherever it stands.
pub proof fn lemma_gather_skip<T>(outcomes: Seq<Option<Result<T, Failure>>>, k: int)
    requires
        0 <= k <= outcomes.len(),
    ensures
        gather(outcomes.insert(k, None)) == gather(outcomes),
    decreases outcomes.len(),
{
    let more = outcomes.insert(k, None);
    if k == outcomes.len() {
        assert(more.drop_last() =~= outcomes);
    } else {
        assert(more.drop_last() =~= outcomes.drop_last().insert(k, None));
        assert(more.last() == outcomes.last());
        lemma_gather_skip(outcomes.drop_last(), k);
    }
}

/// The items of an array are the `<value>` elements below `<data>`: a node
/// of another kind or name among them, such as white space or a comment,
/// changes nothing.
pub proof fn law_array_passes_over_strays(nodes: Seq<Markup>, k: int, stray: Markup)
    requires
        0 <= k <= nodes.len(),
        !is_element_named(stray, "value"@),
    ensures
        gather(value_outcomes(nodes.insert(k, stray))) == gather(value_outcomes(nodes)),
{
    assert(value_outcomes(nodes.insert(k, stray)) =~= value_outcomes(nodes).insert(k, None));
    lemma_gather_skip(value_outcomes(nodes), k);
}

/// The members of a struct are its `<member>` elements: a node of another
/// kind or name among them changes nothing.
pub proof fn law_struct_passes_over_strays(nodes: Seq<Markup>, k: int, stray: Markup)
    requires
        0 <= k <= nodes.len(),
        !is_element_named(stray, "member"@),
    ensures
        gather(member_outcomes(nodes.insert(k, stray))) == gather(member_outcomes(nodes)),
{
    assert(member_outcomes(nodes.insert(k, stray)) =~= member_outcomes(nodes).insert(k, None));
    lemma_gather_skip(member_outcomes(nodes), k);
}

/// What stands in a `<value>` before its typed element, such as white
/// space, does not change the value.
pub proof fn law_value_passes_over_text(before: Seq<Markup>, typed: Markup, after: Seq<Markup>)
    requires
        typed is Element,
        forall|j: int| 0 <= j < before.len() ==> !((#[trigger] before[j]) is Element),
    ensures
        decode_value(Markup::Element { name: "value"@, children: before.push(typed) + after })
            == decode_typed(typed),
{
    let children = before.push(typed) + after;
    lemma_first_where(children, any_element(), before.len() as int);
}

/// Whether every parameter is valid.
pub open spec fn all_valid(params: Seq<Datum>) -> bool {
    forall|i: int| 0 <= i < params.len() ==> (#[trigger] params[i]).valid()
}

/// Reading the `<params>` element that the writer writes for valid
/// parameters, below any element, gives back the parameters.
pub proof fn law_params_round_trip(name: Seq<char>, before: Seq<Markup>, params: Seq<Datum>)
    requires
        all_valid(params),
        forall|j: int| 0 <= j < before.len() ==> !is_element_named(#[trigger] before[j], "params"@),
    ensures
        decode_params(Markup::Element { name, children: before.push(params_markup(params)) })
            == Ok::<Seq<Datum>, Failure>(params),
{
    let children = before.push(params_markup(params));
    lemma_first_where(children, named("params"@), before.len() as int);
    let nodes = params_markup(params)->children;
    let outcomes = param_outcomes(nodes);
    assert forall|i: int| 0 <= i < params.len() implies #[trigger] outcomes[i] == Some(
        Ok::<Datum, Failure>(params[i]),
    ) by {
        law_value_round_trip(params[i]);
        lemma_first_where(param_markup(params[i])->children, named("value"@), 0);
    }
    lemma_gather_all(outcomes, params);
}

/// Reading the document that the writer writes for a call with valid
/// parameters gives back that call.
pub proof fn law_call_round_trip(call: CallModel)
    requires
        all_valid(call.params),
    ensures
        decode_call(seq![call_markup(call)]) == Ok::<CallModel, Failure>(call),
{
    lemma_tags_differ();
    let document = seq![call_markup(call)];
    lemma_first_where(document, named("methodCall"@), 0);
    let children = call_markup(call)->children;
    lemma_leaf_text("methodName"@, call.name);
    lemma_first_where(children, named("methodName"@), 0);
    let before = seq![leaf("methodName"@, call.name)];
    assert(before.push(params_markup(call.params)) =~= children);
    law_params_round_trip("methodCall"@, before, call.params);
}

/// A fault is what the struct that carries it stands for.
pub proof fn law_fault_shape(fault: FaultModel)
    ensures
        fault_of(fault_datum(fault)) == Some(fault),
{
}

/// Whether a response survives the wire: the parameters of a success are
/// valid; every fault does.
pub open spec fn reply_valid(reply: ReplyModel) -> bool {
    match reply {
        ReplyModel::Success(params) => all_valid(params),
        ReplyModel::Failure(_) => true,
    }
}

/// Reading the document that the writer writes for a valid response gives
/// back that response.
pub proof fn law_response_round_trip(reply: ReplyModel)
    requires
        reply_valid(reply),
    ensures
        decode_response(seq![response_markup(reply)]) == Ok::<ReplyModel, Failure>(reply),
{
    lemma_tags_differ();
    let document = seq![response_markup(reply)];
    lemma_first_where(document, named("methodResponse"@), 0);
    let children = response_markup(reply)->children;
    match reply {
        ReplyModel::Success(params) => {
            lemma_first_where(children, named("fault"@), 1);
            assert(Seq::<Markup>::empty().push(params_markup(params)) =~= children);
            law_params_round_trip("methodResponse"@, Seq::empty(), params);
        },
        ReplyModel::Failure(fault) => {
            lemma_first_where(children, named("fault"@), 0);
            let inner = children[0]->children;
            lemma_first_where(inner, named("value"@), 0);
            let members = fault_datum(fault)->Struct_0;
            assert forall|i: int| 0 <= i < members.len() implies (#[trigger] members[i]).1.valid() by {
                if i == 0 {
                    assert(members[0].1 == Datum::Int(fault.code));
                } else {
                    assert(members[1].1 == Datum::Text(fault.message));
                }
            }
            law_value_round_trip(fault_datum(fault));
            law_fault_shape(fault);
        },
    }
}

/// An integer too wide for the wire's integer goes out as the string of
/// its decimal text, and the decoder reads that string as the integer.
pub proof fn law_wide_integers(small: u32, signed: i64, large: u64)
    ensures
        u32_of(Datum::Text(int_text(small as int))) == Ok::<u32, Failure>(small),
        i64_of(Datum::Text(int_text(signed as int))) == Ok::<i64, Failure>(signed),
        u64_of(Datum::Text(int_text(large as int))) == Ok::<u64, Failure>(large),
{
    lemma_int_text_round_trip(small as int);
    lemma_int_text_round_trip(signed as int);
    lemma_int_text_round_trip(large as int);
}

/// A 32-bit signed integer goes out as an integer and comes back as itself.
pub proof fn law_plain_integer(v: i32)
    ensures
        i32_of(Datum::Int(v)) == Ok::<i32, Failure>(v),
{
}

/// An option goes out as an array of none or one, and comes back as it was.
pub proof fn law_option(content: Datum)
    ensures
        option_of(Datum::Array(Seq::empty())) == Ok::<Option<Datum>, Failure>(None),
        option_of(Datum::Array(seq![content])) == Ok::<Option<Datum>, Failure>(Some(content)),
{
}

/// A variant goes out as a struct of one member, and comes back as its name
/// and content; the content of a variant without content is the unit.
pub proof fn law_variant(variant: Seq<char>, content: Datum)
    ensures
        enum_of(variant_datum(variant, content)) == Ok::<(Seq<char>, Datum), Failure>(
            (variant, content),
        ),
        unit_of(Datum::Struct(Seq::empty())) == Ok::<(), Failure>(()),
{
}

/// A tuple goes out as an array, and an array gives its items to a tuple
/// of its own length and to no other.
pub proof fn law_tuple(items: Seq<Datum>, arity: usize)
    requires
        items.len() <= usize::MAX,
    ensures
        arity == items.len() ==> tuple_of(Datum::Array(items), arity) == Ok::<
            Seq<Datum>,
            Failure,
        >(items),
        arity != items.len() ==> tuple_of(Datum::Array(items), arity) == Err::<
            Seq<Datum>,
            Failure,
        >(Failure::InvalidLength { arity, length: items.len() as usize }),
{
}

/// A struct whose fields have different names goes out as a struct of one
/// member for each field, and gives each field its own value back.
pub proof fn law_named_fields(members: Seq<(Seq<char>, Datum)>)
    requires
        distinct_names(members),
    ensures
        struct_of(Datum::Struct(members), Seq::new(members.len(), |i: int| members[i].0)) == Ok::<
            Seq<Datum>,
            Failure,
        >(Seq::new(members.len(), |i: int| members[i].1)),
{
    let fields = Seq::new(members.len(), |i: int| members[i].0);
    assert forall|i: int| 0 <= i < members.len() implies first_where(
        members,
        named_member(#[trigger] fields[i]),
    ) == i by {
        lemma_first_where(members, named_member(fields[i]), i);
    }
    lemma_first_where(fields, field_absent(members), fields.len() as int);
    assert(struct_of(Datum::Struct(members), fields)->Ok_0 =~= Seq::new(
        members.len(),
        |i: int| members[i].1,
    ));
}

/// A boolean or an integer that served as a map key comes back from the
/// member name it became, and so does a character from its string.
pub proof fn law_keys(flag: bool, number: i32, letter: char)
    ensures
        key_text(Datum::Bool(flag)) matches Some(name) && bool_of(Datum::Text(name)) == Ok::<
            bool,
            Failure,
        >(flag),
        key_text(Datum::Int(number)) matches Some(name) && i32_of(Datum::Text(name)) == Ok::<
            i32,
            Failure,
        >(number),
        char_of(Datum::Text(seq![letter])) == Ok::<char, Failure>(letter),
{
    lemma_int_text_round_trip(number as int);
    reveal_strlit("true");
    reveal_strlit("false");
    assert("true"@.len() == 4);
    assert("false"@.len() == 5);
}

} // verus!
