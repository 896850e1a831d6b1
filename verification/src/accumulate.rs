//! Folding the history of a streamed session into complete choices.
//!
//! The fragments of all updates form one sequence in arrival order. The
//! fragments that carry one index form a group. Within a group, texts that
//! arrive in pieces (content, function-call arguments) are joined in arrival
//! order, and values that are set as a whole (role, finish reason, function
//! name) are taken from the latest fragment that holds one.

use crate::chat_completion::{ChatCompletion, ChatCompletionView};
use crate::chat_completion_delta::{ChatCompletionDelta, ChatCompletionDeltaView};
use crate::error::{InternalError, MissingPart};
use crate::{
    Choice, ChoiceDelta, ChoiceDeltaView, ChoiceView, FunctionCall, FunctionCallView, Message,
    MessageView, Usage,
};
use vstd::prelude::*;
use vstd::string::StringExecFns;

verus! {

/// A text that may be absent.
pub type Text = Option<Seq<char>>;

/// All fragments of a history, in arrival order.
pub open spec fn fragments(history: Seq<ChatCompletionDeltaView>) -> Seq<ChoiceDeltaView> {
    history.map_values(|update: ChatCompletionDeltaView| update.choices).flatten()
}

/// Whether a fragment belongs to the choice `index`.
pub open spec fn carries(index: i64) -> spec_fn(ChoiceDeltaView) -> bool {
    |fragment: ChoiceDeltaView| fragment.index == index
}

/// The fragments of the choice `index`, in arrival order.
pub open spec fn group(all: Seq<ChoiceDeltaView>, index: i64) -> Seq<ChoiceDeltaView> {
    all.filter(carries(index))
}

/// The indices that occur in `all`, each once, in the order in which they
/// first occur.
pub open spec fn arrival_order(all: Seq<ChoiceDeltaView>) -> Seq<i64>
    decreases all.len(),
{
    if all.len() == 0 {
        Seq::empty()
    } else {
        let before = arrival_order(all.drop_last());
        if before.contains(all.last().index) {
            before
        } else {
            before.push(all.last().index)
        }
    }
}

/// The last text that is present, if any.
pub open spec fn latest(parts: Seq<Text>) -> Text
    decreases parts.len(),
{
    if parts.len() == 0 {
        None
    } else if parts.last().is_some() {
        parts.last()
    } else {
        latest(parts.drop_last())
    }
}

/// `before` continued by `part`: an absent part adds nothing, the first
/// present part starts the text, each later one is appended.
pub open spec fn continued(before: Text, part: Text) -> Text {
    match (before, part) {
        (_, None) => before,
        (None, Some(text)) => Some(text),
        (Some(start), Some(text)) => Some(start + text),
    }
}

/// The concatenation, in order, of the texts that are present; absent when
/// none is.
pub open spec fn joined(parts: Seq<Text>) -> Text
    decreases parts.len(),
{
    if parts.len() == 0 {
        None
    } else {
        continued(joined(parts.drop_last()), parts.last())
    }
}

/// The function name a fragment reveals, if any.
pub open spec fn call_name(fragment: ChoiceDeltaView) -> Text {
    match fragment.delta.function_call {
        Some(call) => call.name,
        None => None,
    }
}

/// The piece of function-call arguments a fragment reveals, if any.
pub open spec fn call_arguments(fragment: ChoiceDeltaView) -> Text {
    match fragment.delta.function_call {
        Some(call) => call.arguments,
        None => None,
    }
}

/// What the fragments of one group amount to, before it is decided whether
/// they make a complete choice.
pub struct GroupSummary {
    pub role: Text,
    pub content: Text,
    pub finish_reason: Text,
    pub call_name: Text,
    pub call_arguments: Text,
}

/// The summary of the fragments `group`, taken in order.
pub open spec fn summary(group: Seq<ChoiceDeltaView>) -> GroupSummary {
    GroupSummary {
        role: latest(group.map_values(|f: ChoiceDeltaView| f.delta.role)),
        content: joined(group.map_values(|f: ChoiceDeltaView| f.delta.content)),
        finish_reason: latest(group.map_values(|f: ChoiceDeltaView| f.finish_reason)),
        call_name: latest(group.map_values(|f: ChoiceDeltaView| call_name(f))),
        call_arguments: joined(group.map_values(|f: ChoiceDeltaView| call_arguments(f))),
    }
}

/// The function call of a summary: present when a name or arguments were
/// seen, and then both are needed.
pub open spec fn completed_call(index: i64, s: GroupSummary) -> Result<
    Option<FunctionCallView>,
    InternalError,
> {
    match (s.call_name, s.call_arguments) {
        (None, None) => Ok(None),
        (Some(name), Some(arguments)) => Ok(Some(FunctionCallView { name, arguments })),
        (None, Some(_)) => Err(
            InternalError::IncompleteReconstruction(index, MissingPart::FunctionName),
        ),
        (Some(_), None) => Err(
            InternalError::IncompleteReconstruction(index, MissingPart::FunctionArguments),
        ),
    }
}

/// The choice that a summary makes, or what it lacks. A missing role is
/// reported before a half-delivered function call.
pub open spec fn completed(index: i64, s: GroupSummary) -> Result<ChoiceView, InternalError> {
    match s.role {
        None => Err(InternalError::IncompleteReconstruction(index, MissingPart::Role)),
        Some(role) => match completed_call(index, s) {
            Err(e) => Err(e),
            Ok(function_call) => Ok(
                ChoiceView {
                    index,
                    message: MessageView { role, content: s.content, name: None, function_call },
                    finish_reason: match s.finish_reason {
                        Some(reason) => reason,
                        None => Seq::empty(),
                    },
                },
            ),
        },
    }
}

/// The choice `index` as reconstructed from all fragments: only the
/// fragments of its own group count.
pub open spec fn choice_of(all: Seq<ChoiceDeltaView>, index: i64) -> Result<
    ChoiceView,
    InternalError,
> {
    completed(index, summary(group(all, index)))
}

/// The choices for the indices `order`, in that order; the first choice
/// that cannot be completed fails the whole.
pub open spec fn choices_of(all: Seq<ChoiceDeltaView>, order: Seq<i64>) -> Result<
    Seq<ChoiceView>,
    InternalError,
>
    decreases order.len(),
{
    if order.len() == 0 {
        Ok(Seq::empty())
    } else {
        match choices_of(all, order.drop_last()) {
            Err(e) => Err(e),
            Ok(choices) => match choice_of(all, order.last()) {
                Err(e) => Err(e),
                Ok(choice) => Ok(choices.push(choice)),
            },
        }
    }
}

/// The choices that a history reconstructs to: one per index, in the order
/// in which the indices first arrive.
pub open spec fn reconstruction(history: Seq<ChatCompletionDeltaView>) -> Result<
    Seq<ChoiceView>,
    InternalError,
> {
    if history.len() == 0 {
        Err(InternalError::NoDeltasReceived)
    } else {
        choices_of(fragments(history), arrival_order(fragments(history)))
    }
}

/// A summary after one more fragment of its group.
pub open spec fn absorbed(s: GroupSummary, fragment: ChoiceDeltaView) -> GroupSummary {
    GroupSummary {
        role: if fragment.delta.role.is_some() {
            fragment.delta.role
        } else {
            s.role
        },
        content: continued(s.content, fragment.delta.content),
        finish_reason: if fragment.finish_reason.is_some() {
            fragment.finish_reason
        } else {
            s.finish_reason
        },
        call_name: if call_name(fragment).is_some() {
            call_name(fragment)
        } else {
            s.call_name
        },
        call_arguments: continued(s.call_arguments, call_arguments(fragment)),
    }
}

/// The fragments of a history grow by the fragments of each new update.
pub proof fn lemma_fragments_push(
    history: Seq<ChatCompletionDeltaView>,
    update: ChatCompletionDeltaView,
)
    ensures
        fragments(history.push(update)) == fragments(history) + update.choices,
{
    let inner = |u: ChatCompletionDeltaView| u.choices;
    assert(history.push(update).map_values(inner) =~= history.map_values(inner).push(
        update.choices,
    ));
    history.map_values(inner).lemma_flatten_push(update.choices);
}

/// A group grows exactly by the fragments of its own index.
pub proof fn lemma_group_push(all: Seq<ChoiceDeltaView>, fragment: ChoiceDeltaView, index: i64)
    ensures
        group(all.push(fragment), index) == if fragment.index == index {
            group(all, index).push(fragment)
        } else {
            group(all, index)
        },
{
    all.lemma_filter_push(fragment, carries(index));
}

/// The summary of a group with one more fragment is the summary so far
/// with that fragment absorbed.
pub proof fn lemma_summary_push(group: Seq<ChoiceDeltaView>, fragment: ChoiceDeltaView)
    ensures
        summary(group.push(fragment)) == absorbed(summary(group), fragment),
{
    let longer = group.push(fragment);
    assert(longer.drop_last() =~= group);
    let role = |f: ChoiceDeltaView| f.delta.role;
    let content = |f: ChoiceDeltaView| f.delta.content;
    let reason = |f: ChoiceDeltaView| f.finish_reason;
    let name = |f: ChoiceDeltaView| call_name(f);
    let arguments = |f: ChoiceDeltaView| call_arguments(f);
    assert(longer.map_values(role).drop_last() =~= group.map_values(role));
    assert(longer.map_values(content).drop_last() =~= group.map_values(content));
    assert(longer.map_values(reason).drop_last() =~= group.map_values(reason));
    assert(longer.map_values(name).drop_last() =~= group.map_values(name));
    assert(longer.map_values(arguments).drop_last() =~= group.map_values(arguments));
}

/// Once a choice cannot be completed, no later choice mends the whole.
pub proof fn lemma_choices_of_failure_stays(all: Seq<ChoiceDeltaView>, order: Seq<i64>, k: int)
    requires
        0 <= k <= order.len(),
        choices_of(all, order.take(k)).is_err(),
    ensures
        choices_of(all, order) == choices_of(all, order.take(k)),
    decreases order.len(),
{
    if k == order.len() {
        assert(order.take(k) =~= order);
    } else {
        assert(order.drop_last().take(k) =~= order.take(k));
        lemma_choices_of_failure_stays(all, order.drop_last(), k);
    }
}

/// What has been gathered for one choice so far.
struct Gathered {
    role: Option<String>,
    content: Option<String>,
    finish_reason: Option<String>,
    call_name: Option<String>,
    call_arguments: Option<String>,
}

impl View for Gathered {
    type V = GroupSummary;

    closed spec fn view(&self) -> GroupSummary {
        GroupSummary {
            role: self.role.deep_view(),
            content: self.content.deep_view(),
            finish_reason: self.finish_reason.deep_view(),
            call_name: self.call_name.deep_view(),
            call_arguments: self.call_arguments.deep_view(),
        }
    }
}

/// `part` where it is present, else `current`.
fn replaced(current: Option<String>, part: &Option<String>) -> (result: Option<String>)
    ensures
        result.deep_view() == if part.is_some() {
            part.deep_view()
        } else {
            current.deep_view()
        },
{
    match part {
        Some(text) => Some(text.clone()),
        None => current,
    }
}

/// `current` continued by `part`.
fn extended(current: Option<String>, part: &Option<String>) -> (result: Option<String>)
    ensures
        result.deep_view() == continued(current.deep_view(), part.deep_view()),
{
    match part {
        None => current,
        Some(text) => match current {
            None => Some(text.clone()),
            Some(start) => Some(start.concat(text.as_str())),
        },
    }
}

impl Gathered {
    /// Nothing gathered yet.
    fn new() -> (gathered: Gathered)
        ensures
            gathered@ == summary(Seq::empty()),
    {
        Gathered {
            role: None,
            content: None,
            finish_reason: None,
            call_name: None,
            call_arguments: None,
        }
    }

    /// Takes in one more fragment of the group.
    fn absorb(self, fragment: &ChoiceDelta) -> (gathered: Gathered)
        ensures
            gathered@ == absorbed(self@, fragment@),
    {
        let Gathered { role, content, finish_reason, call_name, call_arguments } = self;
        let role = replaced(role, &fragment.delta.role);
        let content = extended(content, &fragment.delta.content);
        let finish_reason = replaced(finish_reason, &fragment.finish_reason);
        match &fragment.delta.function_call {
            Some(call) => {
                let call_name = replaced(call_name, &call.name);
                let call_arguments = extended(call_arguments, &call.arguments);
                Gathered { role, content, finish_reason, call_name, call_arguments }
            },
            None => Gathered { role, content, finish_reason, call_name, call_arguments },
        }
    }

    /// Decides whether what was gathered makes a complete choice.
    fn complete(self, index: i64) -> (result: Result<Choice, InternalError>)
        ensures
            match result {
                Ok(choice) => completed(index, self@) == Ok::<ChoiceView, InternalError>(choice@),
                Err(e) => completed(index, self@) == Err::<ChoiceView, InternalError>(e),
            },
    {
        let Gathered { role, content, finish_reason, call_name, call_arguments } = self;
        let role = match role {
            Some(role) => role,
            None => {
                return Err(InternalError::IncompleteReconstruction(index, MissingPart::Role));
            },
        };
        let function_call = match (call_name, call_arguments) {
            (None, None) => None,
            (Some(name), Some(arguments)) => Some(FunctionCall { name, arguments }),
            (None, Some(_)) => {
                return Err(
                    InternalError::IncompleteReconstruction(index, MissingPart::FunctionName),
                );
            },
            (Some(_), None) => {
                return Err(
                    InternalError::IncompleteReconstruction(
                        index,
                        MissingPart::FunctionArguments,
                    ),
                );
            },
        };
        let finish_reason = match finish_reason {
            Some(reason) => reason,
            None => String::new(),
        };
        Ok(
            Choice {
                index,
                message: Message { role, content, name: None, function_call },
                finish_reason,
            },
        )
    }
}

/// References to all fragments of a history, in arrival order.
fn all_fragments<'a>(history: &'a Vec<ChatCompletionDelta>) -> (all: Vec<&'a ChoiceDelta>)
    ensures
        all.deep_view() == fragments(history.deep_view()),
{
    let mut all: Vec<&'a ChoiceDelta> = Vec::new();
    let mut i: usize = 0;
    assert(history.deep_view().take(0) =~= Seq::empty());
    assert(all.deep_view() =~= fragments(Seq::empty()));
    while i < history.len()
        invariant
            i <= history.len(),
            all.deep_view() == fragments(history.deep_view().take(i as int)),
        decreases history.len() - i,
    {
        let update = &history[i];
        let ghost before = all.deep_view();
        let mut j: usize = 0;
        while j < update.choices.len()
            invariant
                j <= update.choices.len(),
                all.deep_view() == before + update.choices.deep_view().take(j as int),
            decreases update.choices.len() - j,
        {
            let ghost seen = all.deep_view();
            all.push(&update.choices[j]);
            assert(all.deep_view() =~= seen.push(update.choices[j as int]@));
            assert(update.choices.deep_view().take(j + 1) =~= update.choices.deep_view().take(
                j as int,
            ).push(update.choices[j as int]@));
            j += 1;
        }
        proof {
            let views = history.deep_view();
            assert(update.choices.deep_view().take(j as int) =~= update@.choices);
            assert(views.take(i + 1) =~= views.take(i as int).push(update@));
            lemma_fragments_push(views.take(i as int), update@);
        }
        i += 1;
    }
    assert(history.deep_view().take(i as int) =~= history.deep_view());
    all
}

/// Whether `index` is among `order`.
fn holds(order: &Vec<i64>, index: i64) -> (found: bool)
    ensures
        found == order@.contains(index),
{
    let mut k: usize = 0;
    while k < order.len()
        invariant
            k <= order.len(),
            forall|i: int| 0 <= i < k ==> order@[i] != index,
        decreases order.len() - k,
    {
        if order[k] == index {
            return true;
        }
        k += 1;
    }
    false
}

/// The indices of the fragments, each once, in order of first arrival.
fn indices_in_order(all: &Vec<&ChoiceDelta>) -> (order: Vec<i64>)
    ensures
        order@ == arrival_order(all.deep_view()),
{
    let mut order: Vec<i64> = Vec::new();
    let mut k: usize = 0;
    assert(all.deep_view().take(0) =~= Seq::empty());
    while k < all.len()
        invariant
            k <= all.len(),
            order@ == arrival_order(all.deep_view().take(k as int)),
        decreases all.len() - k,
    {
        let index = all[k].index;
        proof {
            let longer = all.deep_view().take(k + 1);
            assert(longer.drop_last() =~= all.deep_view().take(k as int));
            assert(longer.last().index == index);
        }
        if !holds(&order, index) {
            order.push(index);
        }
        k += 1;
    }
    assert(all.deep_view().take(k as int) =~= all.deep_view());
    order
}

/// The summary of the fragments that carry `index`.
fn gather(all: &Vec<&ChoiceDelta>, index: i64) -> (gathered: Gathered)
    ensures
        gathered@ == summary(group(all.deep_view(), index)),
{
    let mut gathered = Gathered::new();
    let mut k: usize = 0;
    proof {
        reveal(Seq::filter);
        assert(all.deep_view().take(0) =~= Seq::empty());
        assert(group(Seq::empty(), index) =~= Seq::empty());
    }
    while k < all.len()
        invariant
            k <= all.len(),
            gathered@ == summary(group(all.deep_view().take(k as int), index)),
        decreases all.len() - k,
    {
        let fragment = all[k];
        proof {
            let seen = all.deep_view().take(k as int);
            assert(all.deep_view().take(k + 1) =~= seen.push(fragment@));
            lemma_group_push(seen, fragment@, index);
            lemma_summary_push(group(seen, index), fragment@);
        }
        if fragment.index == index {
            gathered = gathered.absorb(fragment);
        }
        k += 1;
    }
    assert(all.deep_view().take(k as int) =~= all.deep_view());
    gathered
}

/// Reconstructs one choice per index from the updates of a session.
///
/// Fails with `NoDeltasReceived` on an empty history, and with
/// `IncompleteReconstruction` for the first index, in order of first
/// arrival, whose fragments never reveal a role or reveal only half of a
/// function call.
pub fn reconstruct_choices(history: &Vec<ChatCompletionDelta>) -> (result: Result<
    Vec<Choice>,
    InternalError,
>)
    ensures
        history.len() == 0 <==> result matches Err(InternalError::NoDeltasReceived),
        match result {
            Ok(choices) => reconstruction(history.deep_view()) == Ok::<
                Seq<ChoiceView>,
                InternalError,
            >(choices.deep_view()),
            Err(e) => reconstruction(history.deep_view()) == Err::<Seq<ChoiceView>, InternalError>(
                e,
            ),
        },
{
    if history.len() == 0 {
        return Err(InternalError::NoDeltasReceived);
    }
    let all = all_fragments(history);
    let order = indices_in_order(&all);
    let mut choices: Vec<Choice> = Vec::new();
    let mut k: usize = 0;
    assert(order@.take(0) =~= Seq::empty());
    assert(choices.deep_view() =~= Seq::empty());
    while k < order.len()
        invariant
            k <= order.len(),
            history.len() > 0,
            all.deep_view() == fragments(history.deep_view()),
            order@ == arrival_order(all.deep_view()),
            choices_of(all.deep_view(), order@.take(k as int)) == Ok::<
                Seq<ChoiceView>,
                InternalError,
            >(choices.deep_view()),
        decreases order.len() - k,
    {
        let index = order[k];
        let ghost done = choices.deep_view();
        proof {
            assert(order@.take(k + 1).drop_last() =~= order@.take(k as int));
            assert(order@.take(k + 1).last() == index);
        }
        match gather(&all, index).complete(index) {
            Err(e) => {
                proof {
                    assert(choices_of(all.deep_view(), order@.take(k + 1)).is_err());
                    lemma_choices_of_failure_stays(all.deep_view(), order@, k + 1);
                }
                return Err(e);
            },
            Ok(choice) => {
                choices.push(choice);
                assert(choices.deep_view() =~= done.push(choice@));
            },
        }
        k += 1;
    }
    assert(order@.take(k as int) =~= order@);
    Ok(choices)
}

/// Puts a complete chat together: identity, creation time and model come
/// from the first update of the history, choices and usage are as given.
/// Fails with `NoDeltasReceived` exactly on an empty history.
pub fn assemble_chat(history: &Vec<ChatCompletionDelta>, choices: Vec<Choice>, usage: Usage) -> (result:
    Result<ChatCompletion, InternalError>)
    ensures
        match result {
            Ok(chat) => {
                &&& history.len() > 0
                &&& chat.choices == choices
                &&& chat@ == (ChatCompletionView {
                    id: history[0]@.id,
                    object: history[0]@.object,
                    created: history[0].created,
                    model: history[0]@.model,
                    choices: choices.deep_view(),
                    usage,
                })
            },
            Err(e) => history.len() == 0 && e == InternalError::NoDeltasReceived,
        },
{
    if history.len() == 0 {
        return Err(InternalError::NoDeltasReceived);
    }
    let first = &history[0];
    Ok(
        ChatCompletion {
            id: first.id.clone(),
            object: first.object.clone(),
            created: first.created,
            model: first.model.clone(),
            choices,
            usage,
        },
    )
}

/// Whether `counts` are token counts that `estimate` may give for the
/// messages of `choices`, one count per choice.
pub open spec fn estimated<F: Fn(&Message) -> u64>(
    estimate: F,
    choices: Seq<Choice>,
    counts: Seq<u64>,
) -> bool {
    &&& counts.len() == choices.len()
    &&& forall|i: int|
        0 <= i < choices.len() ==> estimate.ensures((&choices[i].message,), #[trigger] counts[i])
}

/// Asks `estimate` for the token count of each choice's message.
pub fn estimate_each<F: Fn(&Message) -> u64>(choices: &Vec<Choice>, estimate: &F) -> (counts: Vec<
    u64,
>)
    requires
        forall|message: &Message| estimate.requires((message,)),
    ensures
        estimated(*estimate, choices@, counts@),
{
    let mut counts: Vec<u64> = Vec::new();
    let mut k: usize = 0;
    while k < choices.len()
        invariant
            k <= choices.len(),
            forall|message: &Message| estimate.requires((message,)),
            estimated(*estimate, choices@.take(k as int), counts@),
        decreases choices.len() - k,
    {
        let count = estimate(&choices[k].message);
        counts.push(count);
        k += 1;
    }
    assert(choices@.take(k as int) =~= choices@);
    counts
}

} // verus!
