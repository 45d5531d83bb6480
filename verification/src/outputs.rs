//! Values of variables as text.

use crate::call::called;
use crate::instance::keys_of;
use crate::model_description::{variable_ids, ScalarVariable, VariableId};
use crate::text::{lemma_name_le_antisymmetric, name_le};
use crate::values::{lemma_to_map, to_map, VariableValues};
use itertools::Itertools;
use std::fmt::Display;
use vstd::prelude::*;

verus! {

/// The text for one variable.
pub open spec fn output_text(name: Seq<char>, value: Seq<char>) -> Seq<char> {
    name + ": "@ + value + " | "@
}

/// The text for some variables, in the order given.
pub open spec fn listing(values: Map<VariableId, Seq<char>>, order: Seq<VariableId>) -> Seq<char>
    decreases order.len(),
{
    if order.len() == 0 {
        Seq::empty()
    } else {
        listing(values, order.drop_last()) + output_text(order.last().name, values[order.last()])
    }
}

/// Whether a list holds each of the variables once, in the order of their names.
pub open spec fn is_name_order(variables: Set<VariableId>, order: Seq<VariableId>) -> bool {
    &&& order.no_duplicates()
    &&& order.to_set() == variables
    &&& forall|i: int, j: int|
        0 <= i < j < order.len() ==> name_le((#[trigger] order[i]).name, (#[trigger] order[j]).name)
}

/// Whether no two of the variables have the same name.
pub open spec fn distinct_names(variables: Set<VariableId>) -> bool {
    forall|a: VariableId, b: VariableId| #[trigger]
        variables.contains(a) && #[trigger] variables.contains(b) && a.name == b.name ==> a == b
}

/// Whether a text lists the values of all variables in the order of their names.
pub open spec fn is_listing(values: Map<VariableId, Seq<char>>, text: Seq<char>) -> bool {
    exists|order: Seq<VariableId>|
        #![trigger is_name_order(values.dom(), order)]
        is_name_order(values.dom(), order) && text == listing(values, order)
}

/// Calls `itertools::Itertools::sorted_by_key` with the names of the variables
/// as the keys.
///
/// Claims that the result holds the same variables, ordered by name as strings
/// are ordered.
#[verifier::external_body]
fn sorted_by_name<'a>(signals: Vec<&'a ScalarVariable>) -> (sorted: Vec<&'a ScalarVariable>)
    ensures
        sorted@.to_multiset() == signals@.to_multiset(),
        forall|i: int, j: int|
            0 <= i < j < sorted@.len() ==> name_le(
                (#[trigger] sorted@[i]).name@,
                (#[trigger] sorted@[j]).name@,
            ),
{
    signals.into_iter().sorted_by_key(|signal| &signal.name).collect()
}

/// Formats a value with `std::fmt::Display` and a precision, which is the number
/// of decimals for real numbers.
///
/// Claims nothing of the text: it is up to the type of the value. A precision that
/// does not fit in 16 bits is left out, as formatting panics on it.
#[verifier::external_body]
fn rendered<T: Display>(value: &T, precision: usize) -> (text: String)
    requires
        precision <= u16::MAX,
{
    format!("{:.*}", precision, value)
}

/// Whether a value can come out as a text when it is formatted with a precision.
/// What that text is, is up to the type of the value.
pub closed spec fn is_rendering<T: Display>(
    value: &T,
    precision: usize,
    text: Seq<char>,
) -> bool {
    exists|rendering: String|
        #[trigger] call_ensures(rendered::<T>, (value, precision), rendering) && rendering@ == text
}

/// Whether texts are renderings of values with a precision of three, variable by
/// variable.
pub open spec fn are_renderings<T: Display>(
    values: Map<VariableId, T>,
    texts: Map<VariableId, Seq<char>>,
) -> bool {
    &&& texts.dom() == values.dom()
    &&& forall|id: VariableId|
        values.dom().contains(id) ==> is_rendering(&values[id], 3, #[trigger] texts[id])
}

/// Sorting a list of different variables leaves each of them in it once.
proof fn lemma_sorted_is_name_order(
    signals: Seq<&ScalarVariable>,
    sorted: Seq<&ScalarVariable>,
)
    requires
        variable_ids(signals).no_duplicates(),
        sorted.to_multiset() == signals.to_multiset(),
        forall|i: int, j: int|
            0 <= i < j < sorted.len() ==> name_le(
                (#[trigger] sorted[i]).name@,
                (#[trigger] sorted[j]).name@,
            ),
    ensures
        is_name_order(variable_ids(signals).to_set(), variable_ids(sorted)),
{
    let before = variable_ids(signals);
    let after = variable_ids(sorted);
    broadcast use vstd::seq_lib::group_to_multiset_ensures;

    assert(signals.no_duplicates()) by {
        assert forall|i: int, j: int|
            0 <= i < signals.len() && 0 <= j < signals.len() && i != j implies signals[i]
            != signals[j] by {
            assert(before[i] != before[j]);
        }
    }
    signals.lemma_multiset_has_no_duplicates();
    sorted.lemma_multiset_has_no_duplicates_conv();
    assert forall|i: int| 0 <= i < sorted.len() implies signals.contains(#[trigger] sorted[i]) by {
        assert(sorted.contains(sorted[i]));
        assert(sorted.to_multiset().count(sorted[i]) > 0);
    }
    assert forall|i: int| 0 <= i < signals.len() implies sorted.contains(#[trigger] signals[i]) by {
        assert(signals.contains(signals[i]));
        assert(signals.to_multiset().count(signals[i]) > 0);
    }
    assert forall|i: int, j: int| 0 <= i < after.len() && 0 <= j < after.len() && i != j implies
        after[i] != after[j] by {
        assert(signals.contains(sorted[i]) && signals.contains(sorted[j]));
        let p = choose|p: int| 0 <= p < signals.len() && signals[p] == sorted[i];
        let q = choose|q: int| 0 <= q < signals.len() && signals[q] == sorted[j];
        assert(sorted[i] != sorted[j]);
        assert(before[p] != before[q]);
    }
    assert forall|id: VariableId| after.to_set().contains(id) <==> #[trigger]
        before.to_set().contains(id) by {
        if after.contains(id) {
            let i = choose|i: int| 0 <= i < after.len() && after[i] == id;
            assert(signals.contains(sorted[i]));
            let p = choose|p: int| 0 <= p < signals.len() && signals[p] == sorted[i];
            assert(before[p] == id);
        }
        if before.contains(id) {
            let p = choose|p: int| 0 <= p < before.len() && before[p] == id;
            assert(sorted.contains(signals[p]));
            let i = choose|i: int| 0 <= i < sorted.len() && sorted[i] == signals[p];
            assert(after[i] == id);
        }
    }
    assert(after.to_set() =~= before.to_set());
    assert forall|i: int, j: int| 0 <= i < j < after.len() implies name_le(
        (#[trigger] after[i]).name,
        (#[trigger] after[j]).name,
    ) by {
        assert(name_le(sorted[i].name@, sorted[j].name@));
    }
}

/// Lists values that are text already, in the order of the names of their variables.
pub fn texts_to_string(outputs: &VariableValues<'_, String>) -> (text: String)
    ensures
        is_listing(outputs@.map_values(|value: String| value@), text@),
{
    let ghost entries = outputs.spec_entries();
    let ghost values = outputs@.map_values(|value: String| value@);
    let len: usize = outputs.len();
    let mut signals: Vec<&ScalarVariable> = Vec::new();
    let mut i: usize = 0;
    while i < len
        invariant
            i <= len,
            len == entries.len(),
            entries == outputs.spec_entries(),
            variable_ids(signals@) == keys_of(entries).take(i as int),
        decreases len - i,
    {
        let ghost before = signals@;
        let (signal, _): (&ScalarVariable, &String) = outputs.entry(i);
        signals.push(signal);
        assert(variable_ids(signals@) == variable_ids(before).push(signal@));
        i = i + 1;
    }
    assert(variable_ids(signals@) == keys_of(entries));
    let ghost unsorted = signals@;
    let sorted: Vec<&ScalarVariable> = sorted_by_name(signals);
    let ghost order = variable_ids(sorted@);
    proof {
        lemma_sorted_is_name_order(unsorted, sorted@);
        lemma_to_map(entries);
        assert forall|id: VariableId| keys_of(entries).to_set().contains(id) <==> #[trigger]
            values.dom().contains(id) by {
            if keys_of(entries).contains(id) {
                let p = choose|p: int| 0 <= p < entries.len() && keys_of(entries)[p] == id;
                assert(entries[p].0 == id);
            }
            if to_map(entries).dom().contains(id) {
                let p = choose|p: int| 0 <= p < entries.len() && (#[trigger] entries[p]).0 == id;
                assert(keys_of(entries)[p] == id);
            }
        }
        assert(keys_of(entries).to_set() =~= values.dom());
    }

    let mut text = String::new();
    let mut k: usize = 0;
    assert(order.take(0) == Seq::<VariableId>::empty());
    while k < sorted.len()
        invariant
            k <= sorted@.len(),
            order == variable_ids(sorted@),
            is_name_order(values.dom(), order),
            values == outputs@.map_values(|value: String| value@),
            text@ == listing(values, order.take(k as int)),
        decreases sorted.len() - k,
    {
        let signal: &ScalarVariable = sorted[k];
        proof {
            assert(order[k as int] == signal@);
            assert(order.to_set().contains(order[k as int]));
            assert(order.take(k + 1).drop_last() == order.take(k as int));
        }
        match outputs.get(signal) {
            Some(value) => {
                let ghost before = text@;
                text.append(signal.name.as_str());
                text.append(": ");
                text.append(value.as_str());
                text.append(" | ");
                assert(text@ == before + output_text(signal.name@, value@));
            },
            None => {
                assert(false);
            },
        }
        k = k + 1;
    }
    assert(order.take(order.len() as int) == order);
    text
}

/// Lists values in the order of the names of their variables.
pub fn outputs_to_string<T: Display>(outputs: &VariableValues<'_, T>) -> (text: String)
    ensures
        exists|values: Map<VariableId, Seq<char>>| #[trigger]
            is_listing(values, text@) && are_renderings(outputs@, values),
{
    let ghost entries = outputs.spec_entries();
    let len: usize = outputs.len();
    let mut texts: VariableValues<'_, String> = VariableValues::new();
    let mut i: usize = 0;
    assert(entries.take(0) == Seq::<(VariableId, T)>::empty());
    assert(texts@.map_values(|text: String| text@).dom() == to_map(entries.take(0)).dom());
    while i < len
        invariant
            i <= len,
            len == entries.len(),
            entries == outputs.spec_entries(),
            are_renderings(
                to_map(entries.take(i as int)),
                texts@.map_values(|text: String| text@),
            ),
        decreases len - i,
    {
        let (signal, value): (&ScalarVariable, &T) = outputs.entry(i);
        assert(entries.take(i + 1).drop_last() == entries.take(i as int));
        let text: String = called(rendered::<T>, value, 3);
        assert(is_rendering(value, 3, text@));
        let ghost before = texts@.map_values(|text: String| text@);
        let ghost rendering = text@;
        texts.insert(signal, text);
        assert(texts@.map_values(|text: String| text@) == before.insert(signal@, rendering));
        i = i + 1;
    }
    assert(entries.take(len as int) == entries);
    texts_to_string(&texts)
}

/// Where the texts of the variables start in a listing, and where it ends.
proof fn lemma_listing_is_cut(values: Map<VariableId, Seq<char>>, order: Seq<VariableId>) -> (at:
    Seq<int>)
    ensures
        at.len() == order.len() + 1,
        at[0] == 0,
        at[order.len() as int] == listing(values, order).len(),
        forall|i: int|
            #![trigger order[i]]
            0 <= i < order.len() ==> {
                &&& at[i + 1] == at[i] + order[i].name.len() + values[order[i]].len() + 5
                &&& 0 <= at[i] && at[i + 1] <= listing(values, order).len()
                &&& listing(values, order).subrange(at[i], at[i + 1]) == order[i].name + seq![
                    ':',
                    ' ',
                ] + values[order[i]] + seq![' ', '|', ' ']
            },
    decreases order.len(),
{
    let text = listing(values, order);
    if order.len() == 0 {
        seq![0int]
    } else {
        let front = order.drop_last();
        let before = listing(values, front);
        let at = lemma_listing_is_cut(values, front);
        let result = at.push(text.len() as int);
        reveal_strlit(": ");
        reveal_strlit(" | ");
        assert(": "@ == seq![':', ' ']);
        assert(" | "@ == seq![' ', '|', ' ']);
        assert forall|i: int|
            #![trigger order[i]]
            0 <= i < order.len() implies ({
            &&& result[i + 1] == result[i] + order[i].name.len() + values[order[i]].len() + 5
            &&& 0 <= result[i] && result[i + 1] <= text.len()
            &&& text.subrange(result[i], result[i + 1]) == order[i].name + seq![':', ' ']
                + values[order[i]] + seq![' ', '|', ' ']
        }) by {
            if i < front.len() {
                assert(front[i] == order[i]);
                assert(text.subrange(result[i], result[i + 1]) == before.subrange(
                    at[i],
                    at[i + 1],
                ));
            } else {
                assert(text.subrange(result[i], result[i + 1]) == output_text(
                    order[i].name,
                    values[order[i]],
                ));
            }
        }
        result
    }
}

/// A listing falls into one piece for each variable, whatever the values are, in
/// the order of the names: the name, a colon, the value and a bar.
pub proof fn law_listing_shows_each_variable(values: Map<VariableId, Seq<char>>, text: Seq<char>)
    requires
        is_listing(values, text),
    ensures
        exists|order: Seq<VariableId>, at: Seq<int>|
            #![trigger order.no_duplicates(), at.len()]
            {
                &&& order.no_duplicates()
                &&& order.to_set() == values.dom()
                &&& forall|i: int, j: int|
                    0 <= i < j < order.len() ==> name_le(
                        (#[trigger] order[i]).name,
                        (#[trigger] order[j]).name,
                    )
                &&& at.len() == order.len() + 1
                &&& at[0] == 0
                &&& at[order.len() as int] == text.len()
                &&& forall|i: int|
                    #![trigger order[i]]
                    0 <= i < order.len() ==> {
                        &&& at[i + 1] == at[i] + order[i].name.len() + values[order[i]].len() + 5
                        &&& 0 <= at[i] && at[i + 1] <= text.len()
                        &&& text.subrange(at[i], at[i + 1]) == order[i].name + seq![':', ' ']
                            + values[order[i]] + seq![' ', '|', ' ']
                    }
            },
        forall|id: VariableId| #[trigger]
            values.dom().contains(id) ==> exists|start: int, end: int|
                0 <= start <= end <= text.len() && #[trigger] text.subrange(start, end) == id.name
                    + seq![':', ' '] + values[id] + seq![' ', '|', ' '],
{
    let order = choose|order: Seq<VariableId>|
        #![trigger is_name_order(values.dom(), order)]
        is_name_order(values.dom(), order) && text == listing(values, order);
    let at = lemma_listing_is_cut(values, order);
    assert(order.no_duplicates() && at.len() == order.len() + 1);
    assert forall|id: VariableId| #[trigger] values.dom().contains(id) implies exists|
        start: int,
        end: int,
    |
        0 <= start <= end <= text.len() && #[trigger] text.subrange(start, end) == id.name + seq![
            ':',
            ' ',
        ] + values[id] + seq![' ', '|', ' '] by {
        assert(order.to_set().contains(id));
        let i = choose|i: int| 0 <= i < order.len() && order[i] == id;
        assert(text.subrange(at[i], at[i + 1]) == id.name + seq![':', ' '] + values[id] + seq![
            ' ',
            '|',
            ' ',
        ]);
    }
}

/// Texts are listed in one piece for each variable, whatever the texts are.
pub proof fn law_texts_are_all_listed(outputs: &VariableValues<'_, String>, text: String)
    requires
        call_ensures(texts_to_string, (outputs,), text),
    ensures
        exists|order: Seq<VariableId>, at: Seq<int>|
            #![trigger order.no_duplicates(), at.len()]
            {
                &&& order.no_duplicates()
                &&& order.to_set() == outputs@.dom()
                &&& forall|i: int, j: int|
                    0 <= i < j < order.len() ==> name_le(
                        (#[trigger] order[i]).name,
                        (#[trigger] order[j]).name,
                    )
                &&& at.len() == order.len() + 1
                &&& at[0] == 0
                &&& at[order.len() as int] == text@.len()
                &&& forall|i: int|
                    #![trigger order[i]]
                    0 <= i < order.len() ==> {
                        &&& at[i + 1] == at[i] + order[i].name.len() + outputs@[order[i]]@.len() + 5
                        &&& 0 <= at[i] && at[i + 1] <= text@.len()
                        &&& text@.subrange(at[i], at[i + 1]) == order[i].name + seq![':', ' ']
                            + outputs@[order[i]]@ + seq![' ', '|', ' ']
                    }
            },
{
    let values = outputs@.map_values(|value: String| value@);
    law_listing_shows_each_variable(values, text@);
    let (order, at) = choose|order: Seq<VariableId>, at: Seq<int>|
        #![trigger order.no_duplicates(), at.len()]
        {
            &&& order.no_duplicates()
                &&& order.to_set() == values.dom()
                &&& forall|i: int, j: int|
                    0 <= i < j < order.len() ==> name_le(
                        (#[trigger] order[i]).name,
                        (#[trigger] order[j]).name,
                    )
                &&& at.len() == order.len() + 1
                &&& at[0] == 0
                &&& at[order.len() as int] == text@.len()
                &&& forall|i: int|
                    #![trigger order[i]]
                    0 <= i < order.len() ==> {
                        &&& at[i + 1] == at[i] + order[i].name.len() + values[order[i]].len() + 5
                        &&& 0 <= at[i] && at[i + 1] <= text@.len()
                        &&& text@.subrange(at[i], at[i + 1]) == order[i].name + seq![':', ' ']
                            + values[order[i]] + seq![' ', '|', ' ']
                    }
        };
    assert(values.dom() == outputs@.dom());
    assert forall|i: int| 0 <= i < order.len() implies values[#[trigger] order[i]]
        == outputs@[order[i]]@ by {
        assert(order.to_set().contains(order[i]));
    }
    assert(order.no_duplicates() && at.len() == order.len() + 1);
}

/// Values are listed in one piece for each variable, whatever the values are, and
/// each piece shows the value of its variable with a precision of three.
pub proof fn law_outputs_are_all_listed<T: Display>(outputs: &VariableValues<'_, T>, text: String)
    requires
        call_ensures(outputs_to_string::<T>, (outputs,), text),
    ensures
        exists|values: Map<VariableId, Seq<char>>, order: Seq<VariableId>, at: Seq<int>|
            #![trigger values.dom(), order.no_duplicates(), at.len()]
            {
                &&& values.dom() == outputs@.dom()
                &&& forall|id: VariableId|
                    outputs@.dom().contains(id) ==> is_rendering(
                        &outputs@[id],
                        3,
                        #[trigger] values[id],
                    )
                &&& order.no_duplicates()
                &&& order.to_set() == outputs@.dom()
                &&& forall|i: int, j: int|
                    0 <= i < j < order.len() ==> name_le(
                        (#[trigger] order[i]).name,
                        (#[trigger] order[j]).name,
                    )
                &&& at.len() == order.len() + 1
                &&& at[0] == 0
                &&& at[order.len() as int] == text@.len()
                &&& forall|i: int|
                    #![trigger order[i]]
                    0 <= i < order.len() ==> {
                        &&& at[i + 1] == at[i] + order[i].name.len() + values[order[i]].len() + 5
                        &&& 0 <= at[i] && at[i + 1] <= text@.len()
                        &&& text@.subrange(at[i], at[i + 1]) == order[i].name + seq![':', ' ']
                            + values[order[i]] + seq![' ', '|', ' ']
                    }
            },
{
    let values = choose|values: Map<VariableId, Seq<char>>| #[trigger]
        is_listing(values, text@) && are_renderings(outputs@, values);
    law_listing_shows_each_variable(values, text@);
    let (order, at) = choose|order: Seq<VariableId>, at: Seq<int>|
        #![trigger order.no_duplicates(), at.len()]
        {
            &&& order.no_duplicates()
                &&& order.to_set() == values.dom()
                &&& forall|i: int, j: int|
                    0 <= i < j < order.len() ==> name_le(
                        (#[trigger] order[i]).name,
                        (#[trigger] order[j]).name,
                    )
                &&& at.len() == order.len() + 1
                &&& at[0] == 0
                &&& at[order.len() as int] == text@.len()
                &&& forall|i: int|
                    #![trigger order[i]]
                    0 <= i < order.len() ==> {
                        &&& at[i + 1] == at[i] + order[i].name.len() + values[order[i]].len() + 5
                        &&& 0 <= at[i] && at[i + 1] <= text@.len()
                        &&& text@.subrange(at[i], at[i + 1]) == order[i].name + seq![':', ' ']
                            + values[order[i]] + seq![' ', '|', ' ']
                    }
        };
    assert(values.dom() == outputs@.dom());
    assert(order.no_duplicates() && at.len() == order.len() + 1);
}

/// A rendering is a result of formatting just that value with that precision.
proof fn law_rendering_is_a_result<T: Display>(value: &T, precision: usize, text: Seq<char>)
    ensures
        is_rendering(value, precision, text) <==> exists|rendering: String| #[trigger]
            call_ensures(rendered::<T>, (value, precision), rendering) && rendering@ == text,
{
}

/// Variables with different names have one order of names only, so that the
/// text that lists their values depends on nothing but the values.
pub proof fn law_listing_is_unique(
    values: Map<VariableId, Seq<char>>,
    first: Seq<char>,
    second: Seq<char>,
)
    requires
        distinct_names(values.dom()),
        is_listing(values, first),
        is_listing(values, second),
    ensures
        first == second,
{
    let a = choose|order: Seq<VariableId>|
        #![trigger is_name_order(values.dom(), order)]
        is_name_order(values.dom(), order) && first == listing(values, order);
    let b = choose|order: Seq<VariableId>|
        #![trigger is_name_order(values.dom(), order)]
        is_name_order(values.dom(), order) && second == listing(values, order);
    lemma_name_order_is_unique(values.dom(), a, b);
}

/// Variables with different names have one order of names only.
proof fn lemma_name_order_is_unique(
    variables: Set<VariableId>,
    a: Seq<VariableId>,
    b: Seq<VariableId>,
)
    requires
        distinct_names(variables),
        is_name_order(variables, a),
        is_name_order(variables, b),
    ensures
        a == b,
    decreases a.len(),
{
    if a.len() == 0 {
        if b.len() > 0 {
            assert(b.to_set().contains(b[0]));
            assert(a.to_set().contains(b[0]));
        }
        assert(a == b);
    } else {
        assert(a.to_set().contains(a[0]));
        assert(b.to_set().contains(a[0]));
        let j = choose|j: int| 0 <= j < b.len() && b[j] == a[0];
        assert(b.to_set().contains(b[0]));
        assert(a.to_set().contains(b[0]));
        let i = choose|i: int| 0 <= i < a.len() && a[i] == b[0];
        if i > 0 && j > 0 {
            lemma_name_le_antisymmetric(a[0].name, b[0].name);
        }
        assert(a[0] == b[0]);
        let rest = variables.remove(a[0]);
        lemma_rest_of_name_order(variables, a);
        lemma_rest_of_name_order(variables, b);
        lemma_name_order_is_unique(rest, a.drop_first(), b.drop_first());
        assert(a == seq![a[0]] + a.drop_first());
        assert(b == seq![b[0]] + b.drop_first());
    }
}

proof fn lemma_rest_of_name_order(variables: Set<VariableId>, order: Seq<VariableId>)
    requires
        order.len() > 0,
        is_name_order(variables, order),
    ensures
        is_name_order(variables.remove(order[0]), order.drop_first()),
{
    let rest = order.drop_first();
    assert forall|id: VariableId| rest.to_set().contains(id) <==> #[trigger] variables.remove(
        order[0],
    ).contains(id) by {
        if rest.contains(id) {
            let i = choose|i: int| 0 <= i < rest.len() && rest[i] == id;
            assert(order[i + 1] == id);
            assert(order.to_set().contains(id));
        }
        if variables.contains(id) && id != order[0] {
            assert(order.to_set().contains(id));
            let i = choose|i: int| 0 <= i < order.len() && order[i] == id;
            assert(rest[i - 1] == id);
        }
    }
    assert(rest.to_set() =~= variables.remove(order[0]));
}

} // verus!
