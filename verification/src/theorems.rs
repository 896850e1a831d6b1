//! What holds of every reconstruction, proved from the definitions in
//! `accumulate`.

use crate::accumulate::{
    arrival_order, call_arguments, call_name, carries, choice_of, choices_of, completed,
    fragments, group, joined, latest, reconstruction, summary, Text,
};
use crate::chat_completion_delta::{recorded, ChatCompletionDeltaView, ItemView};
use crate::chat_completion_request::wire_item;
use crate::error::{ErrorView, InternalError};
use crate::forward::{forwarded, sentinel, Ending, SourceEventView};
use crate::wire::wire_update;
use crate::{ChoiceDeltaView, ChoiceView, FunctionCallView};
use vstd::prelude::*;

verus! {

/// Whether a text is present.
pub open spec fn present() -> spec_fn(Text) -> bool {
    |part: Text| part.is_some()
}

/// The texts of `parts` that are present, in order.
pub open spec fn present_texts(parts: Seq<Text>) -> Seq<Seq<char>> {
    parts.filter(present()).map_values(|part: Text| part.unwrap())
}

/// Joining is concatenation: the join of `parts` is absent when no part is
/// present, and else is the present texts put end to end in order.
pub proof fn theorem_joined_is_concatenation(parts: Seq<Text>)
    ensures
        joined(parts) == if present_texts(parts).len() == 0 {
            None::<Seq<char>>
        } else {
            Some(present_texts(parts).flatten())
        },
    decreases parts.len(),
{
    let unwrap = |part: Text| part.unwrap();
    if parts.len() == 0 {
        reveal(Seq::filter);
        assert(parts.filter(present()) =~= Seq::empty());
    } else {
        let before = parts.drop_last();
        let part = parts.last();
        theorem_joined_is_concatenation(before);
        assert(before.push(part) =~= parts);
        before.lemma_filter_push(part, present());
        if part.is_some() {
            let kept = before.filter(present());
            assert(kept.push(part).map_values(unwrap) =~= kept.map_values(unwrap).push(
                part.unwrap(),
            ));
            kept.map_values(unwrap).lemma_flatten_push(part.unwrap());
            if kept.len() == 0 {
                assert(kept.map_values(unwrap) =~= Seq::<Seq<char>>::empty());
                assert(Seq::<Seq<char>>::empty().flatten() =~= Seq::<char>::empty());
                assert(Seq::<char>::empty() + part.unwrap() =~= part.unwrap());
            }
        }
    }
}

/// The latest text is the last one present: absent when no part is
/// present, and else the last of the present texts.
pub proof fn theorem_latest_is_last_present(parts: Seq<Text>)
    ensures
        latest(parts) == if present_texts(parts).len() == 0 {
            None::<Seq<char>>
        } else {
            Some(present_texts(parts).last())
        },
    decreases parts.len(),
{
    if parts.len() == 0 {
        reveal(Seq::filter);
        assert(parts.filter(present()) =~= Seq::empty());
    } else {
        let before = parts.drop_last();
        let part = parts.last();
        theorem_latest_is_last_present(before);
        assert(before.push(part) =~= parts);
        before.lemma_filter_push(part, present());
    }
}

/// A group holds only fragments of its own index, and filtering it again
/// by that index changes nothing.
pub proof fn lemma_group_is_own(all: Seq<ChoiceDeltaView>, index: i64)
    ensures
        forall|i: int| 0 <= i < group(all, index).len() ==> group(all, index)[i].index == index,
        group(group(all, index), index) == group(all, index),
        group(all, index).len() <= all.len(),
    decreases all.len(),
{
    reveal(Seq::filter);
    if all.len() > 0 {
        let before = all.drop_last();
        lemma_group_is_own(before, index);
        assert(before.push(all.last()) =~= all);
        before.lemma_filter_push(all.last(), carries(index));
        if all.last().index == index {
            group(before, index).lemma_filter_push(all.last(), carries(index));
        }
    } else {
        assert(group(all, index) =~= all);
    }
}

/// When every fragment carries `index`, the group of `index` is everything.
pub proof fn lemma_group_of_single_index(all: Seq<ChoiceDeltaView>, index: i64)
    requires
        forall|i: int| 0 <= i < all.len() ==> all[i].index == index,
    ensures
        group(all, index) == all,
    decreases all.len(),
{
    reveal(Seq::filter);
    if all.len() > 0 {
        let before = all.drop_last();
        lemma_group_of_single_index(before, index);
        assert(before.push(all.last()) =~= all);
        before.lemma_filter_push(all.last(), carries(index));
    } else {
        assert(group(all, index) =~= all);
    }
}

/// The order of arrival lists exactly the indices that occur, each once.
pub proof fn lemma_arrival_order(all: Seq<ChoiceDeltaView>)
    ensures
        arrival_order(all).no_duplicates(),
        forall|index: i64| #[trigger]
            arrival_order(all).contains(index) <==> exists|i: int|
                0 <= i < all.len() && all[i].index == index,
    decreases all.len(),
{
    if all.len() > 0 {
        let before = all.drop_last();
        let last = all.last().index;
        lemma_arrival_order(before);
        let order = arrival_order(all);
        let earlier = arrival_order(before);
        assert forall|index: i64| #[trigger]
            order.contains(index) <==> exists|i: int|
                0 <= i < all.len() && all[i].index == index by {
            if order.contains(index) {
                if earlier.contains(index) {
                    let i = choose|i: int| 0 <= i < before.len() && before[i].index == index;
                    assert(all[i].index == index);
                } else {
                    let k = choose|k: int| 0 <= k < order.len() && order[k] == index;
                    assert(earlier.contains(last) || order == earlier.push(last));
                    if k < earlier.len() {
                        assert(earlier[k] == index);
                    }
                    assert(index == last);
                    assert(all[all.len() - 1].index == index);
                }
            }
            if exists|i: int| 0 <= i < all.len() && all[i].index == index {
                let i = choose|i: int| 0 <= i < all.len() && all[i].index == index;
                if i < before.len() {
                    assert(before[i].index == index);
                    assert(earlier.contains(index));
                    let k = choose|k: int| 0 <= k < earlier.len() && earlier[k] == index;
                    assert(order[k] == index);
                } else {
                    assert(index == last);
                    if earlier.contains(last) {
                        assert(order.contains(index));
                    } else {
                        assert(order[order.len() - 1] == last);
                    }
                }
            }
        }
    }
}

/// A successful reconstruction of the indices `order` has one choice per
/// index, in the same order, and each is the choice of its own group.
pub proof fn lemma_choices_of_each(all: Seq<ChoiceDeltaView>, order: Seq<i64>)
    requires
        choices_of(all, order).is_ok(),
    ensures
        choices_of(all, order).unwrap().len() == order.len(),
        forall|k: int|
            0 <= k < order.len() ==> choice_of(all, order[k]) == Ok::<ChoiceView, InternalError>(
                #[trigger] choices_of(all, order).unwrap()[k],
            ),
        forall|k: int|
            0 <= k < order.len() ==> (#[trigger] choices_of(all, order).unwrap()[k]).index
                == order[k],
    decreases order.len(),
{
    if order.len() > 0 {
        lemma_choices_of_each(all, order.drop_last());
    }
}

/// No reconstruction of fragments fails for want of updates.
pub proof fn lemma_choices_of_error(all: Seq<ChoiceDeltaView>, order: Seq<i64>)
    ensures
        choices_of(all, order) matches Err(e) ==> e is IncompleteReconstruction,
    decreases order.len(),
{
    if order.len() > 0 {
        lemma_choices_of_error(all, order.drop_last());
    }
}

/// Reconstruction fails with `NoDeltasReceived` on the empty history, and
/// on no other.
pub proof fn theorem_empty_history(history: Seq<ChatCompletionDeltaView>)
    ensures
        history.len() == 0 <==> reconstruction(history) == Err::<Seq<ChoiceView>, InternalError>(
            InternalError::NoDeltasReceived,
        ),
{
    lemma_choices_of_error(fragments(history), arrival_order(fragments(history)));
}

/// A reconstructed choice depends on the fragments of its own index alone:
/// two streams that agree on the fragments carrying `index`, however those
/// are interleaved with others, give the same choice for it.
pub proof fn theorem_choice_from_own_fragments(
    all: Seq<ChoiceDeltaView>,
    other: Seq<ChoiceDeltaView>,
    index: i64,
)
    requires
        group(all, index) == group(other, index),
    ensures
        choice_of(all, index) == choice_of(other, index),
        choice_of(all, index) == choice_of(group(all, index), index),
{
    lemma_group_is_own(all, index);
}

/// A history that reconstructs has exactly one choice for each index that
/// occurs in it, and none else; each is built from its own group.
pub proof fn theorem_one_choice_per_index(history: Seq<ChatCompletionDeltaView>)
    requires
        reconstruction(history).is_ok(),
    ensures
        ({
            let all = fragments(history);
            let choices = reconstruction(history).unwrap();
            &&& forall|j: int, k: int|
                0 <= j < k < choices.len() ==> choices[j].index != choices[k].index
            &&& forall|k: int|
                0 <= k < choices.len() ==> Ok::<ChoiceView, InternalError>(#[trigger] choices[k])
                    == choice_of(group(all, choices[k].index), choices[k].index)
            &&& forall|i: int|
                0 <= i < all.len() ==> exists|k: int|
                    0 <= k < choices.len() && choices[k].index == (#[trigger] all[i]).index
            &&& forall|k: int|
                0 <= k < choices.len() ==> exists|i: int|
                    0 <= i < all.len() && all[i].index == (#[trigger] choices[k]).index
        }),
{
    let all = fragments(history);
    let order = arrival_order(all);
    let choices = reconstruction(history).unwrap();
    lemma_arrival_order(all);
    lemma_choices_of_each(all, order);
    assert forall|k: int| 0 <= k < choices.len() implies Ok::<ChoiceView, InternalError>(
        #[trigger] choices[k],
    ) == choice_of(group(all, choices[k].index), choices[k].index) by {
        theorem_choice_from_own_fragments(all, all, order[k]);
    }
    assert forall|i: int| 0 <= i < all.len() implies exists|k: int|
        0 <= k < choices.len() && choices[k].index == (#[trigger] all[i]).index by {
        assert(order.contains(all[i].index));
        let k = choose|k: int| 0 <= k < order.len() && order[k] == all[i].index;
        assert(choices[k].index == all[i].index);
    }
    assert forall|k: int| 0 <= k < choices.len() implies exists|i: int|
        0 <= i < all.len() && all[i].index == (#[trigger] choices[k]).index by {
        assert(order.contains(order[k]));
    }
}

/// When every fragment of a history carries the same index, the history
/// reconstructs to the single choice that all its fragments make, or fails
/// with what that choice lacks.
pub proof fn theorem_single_index(history: Seq<ChatCompletionDeltaView>, index: i64)
    requires
        fragments(history).len() > 0,
        forall|i: int|
            0 <= i < fragments(history).len() ==> (#[trigger] fragments(history)[i]).index
                == index,
    ensures
        reconstruction(history) == match completed(index, summary(fragments(history))) {
            Ok(choice) => Ok::<Seq<ChoiceView>, InternalError>(seq![choice]),
            Err(e) => Err(e),
        },
{
    let all = fragments(history);
    let order = arrival_order(all);
    lemma_arrival_order(all);
    lemma_group_of_single_index(all, index);
    assert(order.contains(all[0].index));
    assert(order.len() == 1) by {
        assert forall|k: int| 0 <= k < order.len() implies order[k] == index by {
            assert(order.contains(order[k]));
        }
        if order.len() > 1 {
            assert(order[0] == order[1]);
        }
    }
    assert(order[0] == index) by {
        assert(order.contains(order[0]));
    }
    assert(history.len() > 0) by {
        if history.len() == 0 {
            assert(history.map_values(|update: ChatCompletionDeltaView| update.choices)
                =~= Seq::empty());
        }
    }
    assert(order.drop_last() =~= Seq::empty());
    assert(choices_of(all, order.drop_last()) == Ok::<Seq<ChoiceView>, InternalError>(
        Seq::empty(),
    ));
    assert(Seq::<ChoiceView>::empty().push(choice_of(all, index).unwrap()) =~= seq![
        choice_of(all, index).unwrap(),
    ]);
}

/// When every fragment of a history carries the same index and the
/// history reconstructs, the content of its single choice is the
/// concatenation, in arrival order, of the content of every fragment that
/// has any, and is absent when none has.
pub proof fn theorem_single_index_content(history: Seq<ChatCompletionDeltaView>, index: i64)
    requires
        reconstruction(history).is_ok(),
        fragments(history).len() > 0,
        forall|i: int|
            0 <= i < fragments(history).len() ==> (#[trigger] fragments(history)[i]).index
                == index,
    ensures
        ({
            let contents = fragments(history).map_values(|f: ChoiceDeltaView| f.delta.content);
            let choices = reconstruction(history).unwrap();
            &&& choices.len() == 1
            &&& choices[0].index == index
            &&& choices[0].message.content == if present_texts(contents).len() == 0 {
                None::<Seq<char>>
            } else {
                Some(present_texts(contents).flatten())
            }
        }),
{
    theorem_single_index(history, index);
    theorem_joined_is_concatenation(
        fragments(history).map_values(|f: ChoiceDeltaView| f.delta.content),
    );
}

/// When the fragments of a history carry two distinct indices, both of
/// which occur, the history reconstructs to exactly two choices, one per
/// index, and each is what its own fragments alone reconstruct to.
pub proof fn theorem_two_indices(history: Seq<ChatCompletionDeltaView>, a: i64, b: i64)
    requires
        reconstruction(history).is_ok(),
        a != b,
        forall|i: int|
            0 <= i < fragments(history).len() ==> (#[trigger] fragments(history)[i]).index == a
                || fragments(history)[i].index == b,
        exists|i: int| 0 <= i < fragments(history).len() && fragments(history)[i].index == a,
        exists|i: int| 0 <= i < fragments(history).len() && fragments(history)[i].index == b,
    ensures
        ({
            let all = fragments(history);
            let choices = reconstruction(history).unwrap();
            &&& choices.len() == 2
            &&& (choices[0].index == a && choices[1].index == b) || (choices[0].index == b
                && choices[1].index == a)
            &&& forall|k: int|
                0 <= k < 2 ==> Ok::<ChoiceView, InternalError>(#[trigger] choices[k]) == choice_of(
                    group(all, choices[k].index),
                    choices[k].index,
                )
        }),
{
    let all = fragments(history);
    let order = arrival_order(all);
    let choices = reconstruction(history).unwrap();
    lemma_arrival_order(all);
    lemma_choices_of_each(all, order);
    theorem_one_choice_per_index(history);
    assert(order.contains(a));
    assert(order.contains(b));
    assert forall|k: int| 0 <= k < order.len() implies order[k] == a || order[k] == b by {
        assert(order.contains(order[k]));
        let i = choose|i: int| 0 <= i < all.len() && all[i].index == order[k];
        assert(all[i].index == a || all[i].index == b);
    }
    // Both indices have a place in the order, and not the same one.
    let i = choose|i: int| 0 <= i < order.len() && order[i] == a;
    let j = choose|j: int| 0 <= j < order.len() && order[j] == b;
    assert(i != j);
    // Of three places, two would hold the same index.
    if order.len() > 2 {
        assert(order[0] == order[1] || order[0] == order[2] || order[1] == order[2]);
    }
}

/// A group that reveals a role, one function name and three pieces of
/// arguments, with whatever fragments in between, reconstructs to a single
/// function call of that name whose arguments are the three pieces put
/// end to end in arrival order.
pub proof fn theorem_function_call_arguments(
    all: Seq<ChoiceDeltaView>,
    index: i64,
    name: Seq<char>,
    first: Seq<char>,
    second: Seq<char>,
    third: Seq<char>,
)
    requires
        summary(group(all, index)).role.is_some(),
        present_texts(group(all, index).map_values(|f: ChoiceDeltaView| call_name(f))) == seq![
            name,
        ],
        present_texts(group(all, index).map_values(|f: ChoiceDeltaView| call_arguments(f)))
            == seq![first, second, third],
    ensures
        choice_of(all, index).is_ok(),
        choice_of(all, index).unwrap().message.function_call == Some(
            FunctionCallView { name, arguments: first + second + third },
        ),
{
    let names = group(all, index).map_values(|f: ChoiceDeltaView| call_name(f));
    let pieces = group(all, index).map_values(|f: ChoiceDeltaView| call_arguments(f));
    theorem_latest_is_last_present(names);
    theorem_joined_is_concatenation(pieces);
    let texts = seq![first, second, third];
    assert(texts.flatten() =~= first + second + third) by {
        assert(texts.drop_last().drop_last() =~= seq![first]);
        assert(texts.drop_last() =~= seq![first].push(second));
        assert(texts =~= seq![first].push(second).push(third));
        seq![first].lemma_flatten_singleton();
        seq![first].lemma_flatten_push(second);
        seq![first].push(second).lemma_flatten_push(third);
    }
}

/// The history after receiving `items` one after another.
pub open spec fn received(history: Seq<ChatCompletionDeltaView>, items: Seq<ItemView>) -> Seq<
    ChatCompletionDeltaView,
>
    decreases items.len(),
{
    if items.len() == 0 {
        history
    } else {
        received(recorded(history, Some(items.first())), items.drop_first())
    }
}

/// A history only grows: whatever items are received, what was recorded
/// before stays, in its place.
pub proof fn theorem_history_only_grows(
    history: Seq<ChatCompletionDeltaView>,
    items: Seq<ItemView>,
)
    ensures
        history.is_prefix_of(received(history, items)),
    decreases items.len(),
{
    if items.len() > 0 {
        let next = recorded(history, Some(items.first()));
        theorem_history_only_grows(next, items.drop_first());
        assert(history.is_prefix_of(next));
        assert(history =~= received(next, items.drop_first()).subrange(0, history.len() as int));
    }
}

/// The message events that carry `payloads`, in order.
pub open spec fn messages(payloads: Seq<Seq<char>>) -> Seq<SourceEventView> {
    payloads.map_values(|payload: Seq<char>| SourceEventView::Message(payload))
}

/// The updates that `payloads` hold, in order.
pub open spec fn updates(payloads: Seq<Seq<char>>) -> Seq<ChatCompletionDeltaView> {
    payloads.map_values(|payload: Seq<char>| wire_update(payload).unwrap())
}

/// Every message but the sentinel gives exactly one item, in its place:
/// a stream of such messages hands on the item of each payload, in order,
/// and dropping none.
pub proof fn theorem_one_item_per_message(payloads: Seq<Seq<char>>)
    requires
        forall|i: int| 0 <= i < payloads.len() ==> (#[trigger] payloads[i]) != sentinel(),
    ensures
        forwarded(messages(payloads)).ending == Ending::Exhausted,
        forwarded(messages(payloads)).items == payloads.map_values(
            |payload: Seq<char>| wire_item(payload),
        ),
    decreases payloads.len(),
{
    let item = |payload: Seq<char>| wire_item(payload);
    let events = messages(payloads);
    if payloads.len() == 0 {
        assert(payloads.map_values(item) =~= Seq::empty());
    } else {
        let rest = payloads.drop_first();
        assert forall|i: int| 0 <= i < rest.len() implies (#[trigger] rest[i]) != sentinel() by {
            assert(rest[i] == payloads[i + 1]);
        }
        theorem_one_item_per_message(rest);
        assert(events.first() == SourceEventView::Message(payloads[0]));
        assert(events.drop_first() =~= messages(rest));
        assert(seq![wire_item(payloads[0])] + rest.map_values(item) =~= payloads.map_values(item));
    }
}

/// What `theorem_sentinel_ends_stream` says, for a receiver that starts
/// from any history.
pub proof fn lemma_sentinel_ends_stream(
    payloads: Seq<Seq<char>>,
    later: Seq<SourceEventView>,
    history: Seq<ChatCompletionDeltaView>,
)
    requires
        forall|i: int|
            0 <= i < payloads.len() ==> (#[trigger] payloads[i]) != sentinel() && wire_update(
                payloads[i],
            ).is_some(),
    ensures
        ({
            let events = messages(payloads).push(SourceEventView::Message(sentinel())) + later;
            let handed = forwarded(events);
            &&& handed.ending == Ending::Finished
            &&& handed.items == updates(payloads).map_values(
                |update: ChatCompletionDeltaView| Ok::<ChatCompletionDeltaView, ErrorView>(update),
            )
            &&& received(history, handed.items) == history + updates(payloads)
        }),
    decreases payloads.len(),
{
    let wrap = |update: ChatCompletionDeltaView| Ok::<ChatCompletionDeltaView, ErrorView>(update);
    let events = messages(payloads).push(SourceEventView::Message(sentinel())) + later;
    if payloads.len() == 0 {
        assert(events.first() == SourceEventView::Message(sentinel()));
        assert(updates(payloads).map_values(wrap) =~= Seq::empty());
        assert(history + updates(payloads) =~= history);
    } else {
        let rest = payloads.drop_first();
        let update = wire_update(payloads[0]).unwrap();
        let after = messages(rest).push(SourceEventView::Message(sentinel())) + later;
        assert forall|i: int| 0 <= i < rest.len() implies (#[trigger] rest[i]) != sentinel()
            && wire_update(rest[i]).is_some() by {
            assert(rest[i] == payloads[i + 1]);
        }
        lemma_sentinel_ends_stream(rest, later, history.push(update));
        assert(events.first() == SourceEventView::Message(payloads[0]));
        assert(events.drop_first() =~= after);
        assert(seq![wrap(update)] + updates(rest).map_values(wrap) =~= updates(
            payloads,
        ).map_values(wrap));
        let items = forwarded(events).items;
        assert(items.first() == wrap(update));
        assert(items.drop_first() =~= forwarded(after).items);
        assert(history.push(update) + updates(rest) =~= history + updates(payloads));
    }
}

/// A stream of messages that each hold an update, followed by the
/// sentinel, ends without error whatever comes after the sentinel: the
/// forwarder hands on exactly the updates, in order, and a receiver that
/// starts empty and takes them in has recorded exactly those updates, as
/// many as there were messages.
pub proof fn theorem_sentinel_ends_stream(payloads: Seq<Seq<char>>, later: Seq<SourceEventView>)
    requires
        forall|i: int|
            0 <= i < payloads.len() ==> (#[trigger] payloads[i]) != sentinel() && wire_update(
                payloads[i],
            ).is_some(),
    ensures
        ({
            let events = messages(payloads).push(SourceEventView::Message(sentinel())) + later;
            let handed = forwarded(events);
            &&& handed.ending == Ending::Finished
            &&& handed.items.len() == payloads.len()
            &&& forall|i: int|
                0 <= i < payloads.len() ==> (#[trigger] handed.items[i]) == Ok::<
                    ChatCompletionDeltaView,
                    ErrorView,
                >(wire_update(payloads[i]).unwrap())
            &&& received(Seq::empty(), handed.items) == updates(payloads)
            &&& received(Seq::empty(), handed.items).len() == payloads.len()
        }),
{
    lemma_sentinel_ends_stream(payloads, later, Seq::empty());
    assert(Seq::<ChatCompletionDeltaView>::empty() + updates(payloads) =~= updates(payloads));
}

} // verus!
