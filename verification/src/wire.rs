//! The wire format: JSON documents that hold an update of a streamed
//! session, a complete chat, or an error envelope sent by the remote
//! service.
//!
//! JSON itself is read by `serde_json`, one layer at a time: the members of
//! an object and the elements of an array are kept as JSON text and read in
//! turn where the format asks for them. What a document must hold to be an
//! update, a chat or an envelope is decided here.

use crate::accumulate::Text;
use crate::chat_completion::{ChatCompletion, ChatCompletionView};
use crate::chat_completion_delta::{ChatCompletionDelta, ChatCompletionDeltaView};
use crate::error::{ApiErrorView, OpenAIError};
use crate::{
    Choice, ChoiceDelta, ChoiceDeltaView, ChoiceView, Delta, DeltaView, FunctionCall,
    FunctionCallDelta, FunctionCallDeltaView, FunctionCallView, Message, MessageView, Usage,
};
use vstd::prelude::*;

verus! {

/// The outermost layer of a JSON document. Members and elements are JSON
/// documents of their own, held as text.
#[derive(Debug)]
pub enum Layer {
    Null,
    Bool(bool),
    /// A number, as an unsigned and as a signed 64-bit integer where it is
    /// one; a number that is neither has both absent.
    Number(Option<u64>, Option<i64>),
    Text(String),
    Array(Vec<String>),
    /// The members of an object, each key once.
    Object(Vec<(String, String)>),
}

/// Mathematical view of a [`Layer`].
pub enum LayerView {
    Null,
    Bool(bool),
    Number(Option<u64>, Option<i64>),
    Text(Seq<char>),
    Array(Seq<Seq<char>>),
    Object(Seq<(Seq<char>, Seq<char>)>),
}

impl DeepView for Layer {
    type V = LayerView;

    open spec fn deep_view(&self) -> LayerView {
        match self {
            Layer::Null => LayerView::Null,
            Layer::Bool(flag) => LayerView::Bool(*flag),
            Layer::Number(unsigned, signed) => LayerView::Number(*unsigned, *signed),
            Layer::Text(text) => LayerView::Text(text@),
            Layer::Array(elements) => LayerView::Array(elements.deep_view()),
            Layer::Object(members) => LayerView::Object(members.deep_view()),
        }
    }
}

/// The outermost layer of the JSON document `text`, as `serde_json` reads
/// it; absent when `text` is not one JSON document.
pub uninterp spec fn json_layer(text: Seq<char>) -> Option<LayerView>;

/// Reads the outermost layer of a JSON document.
///
/// Trusted: the body calls `serde_json::from_str` for a `serde_json::Value`
/// and hands its variant on, a number through `Number::as_u64` and
/// `Number::as_i64`, each member and element through `Value::to_string`.
/// The contract claims only that the outcome is a function of the text,
/// which it names `json_layer`; it says nothing of what that function is.
/// Nothing here is proved of JSON itself.
#[verifier::external_body]
pub(crate) fn read_layer(text: &str) -> (layer: Option<Layer>)
    ensures
        layer.deep_view() == json_layer(text@),
{
    Some(
        match serde_json::from_str::<serde_json::Value>(text).ok()? {
            serde_json::Value::Null => Layer::Null,
            serde_json::Value::Bool(flag) => Layer::Bool(flag),
            serde_json::Value::Number(n) => Layer::Number(n.as_u64(), n.as_i64()),
            serde_json::Value::String(text) => Layer::Text(text),
            serde_json::Value::Array(elements) => Layer::Array(
                elements.iter().map(serde_json::Value::to_string).collect(),
            ),
            serde_json::Value::Object(members) => Layer::Object(
                members.into_iter().map(|(key, value)| (key, value.to_string())).collect(),
            ),
        },
    )
}

/// The members of the object that `text` holds.
pub open spec fn wire_object(text: Seq<char>) -> Option<Seq<(Seq<char>, Seq<char>)>> {
    match json_layer(text) {
        Some(LayerView::Object(members)) => Some(members),
        _ => None,
    }
}

/// The text of the first member called `key`.
pub open spec fn member(members: Seq<(Seq<char>, Seq<char>)>, key: Seq<char>) -> Option<
    Seq<char>,
>
    decreases members.len(),
{
    if members.len() == 0 {
        None
    } else if members.first().0 == key {
        Some(members.first().1)
    } else {
        member(members.drop_first(), key)
    }
}

/// The string that the member `key` must hold.
pub open spec fn wire_text(members: Seq<(Seq<char>, Seq<char>)>, key: Seq<char>) -> Option<
    Seq<char>,
> {
    match member(members, key) {
        Some(text) => match json_layer(text) {
            Some(LayerView::Text(value)) => Some(value),
            _ => None,
        },
        None => None,
    }
}

/// The string that the member `key` may hold: a missing member and a null
/// are both absence, anything but a string is malformed (`None`).
pub open spec fn wire_optional_text(members: Seq<(Seq<char>, Seq<char>)>, key: Seq<char>)
    -> Option<Text> {
    match member(members, key) {
        None => Some(None),
        Some(text) => match json_layer(text) {
            Some(LayerView::Null) => Some(None),
            Some(LayerView::Text(value)) => Some(Some(value)),
            _ => None,
        },
    }
}

/// The unsigned integer that the member `key` must hold.
pub open spec fn wire_u64(members: Seq<(Seq<char>, Seq<char>)>, key: Seq<char>) -> Option<u64> {
    match member(members, key) {
        Some(text) => match json_layer(text) {
            Some(LayerView::Number(Some(value), _)) => Some(value),
            _ => None,
        },
        None => None,
    }
}

/// The signed integer that the member `key` must hold.
pub open spec fn wire_i64(members: Seq<(Seq<char>, Seq<char>)>, key: Seq<char>) -> Option<i64> {
    match member(members, key) {
        Some(text) => match json_layer(text) {
            Some(LayerView::Number(_, Some(value))) => Some(value),
            _ => None,
        },
        None => None,
    }
}

/// The function-call fragment that the document `text` holds: an object
/// whose `name` and `arguments` are optional strings.
pub open spec fn wire_function_call(text: Seq<char>) -> Option<FunctionCallDeltaView> {
    match wire_object(text) {
        None => None,
        Some(members) => match (
            wire_optional_text(members, "name"@),
            wire_optional_text(members, "arguments"@),
        ) {
            (Some(name), Some(arguments)) => Some(FunctionCallDeltaView { name, arguments }),
            _ => None,
        },
    }
}

/// The function-call fragment that the member `key` may hold.
pub open spec fn wire_optional_function_call(
    members: Seq<(Seq<char>, Seq<char>)>,
    key: Seq<char>,
) -> Option<Option<FunctionCallDeltaView>> {
    match member(members, key) {
        None => Some(None),
        Some(text) => if json_layer(text) == Some(LayerView::Null) {
            Some(None)
        } else {
            match wire_function_call(text) {
                Some(call) => Some(Some(call)),
                None => None,
            }
        },
    }
}

/// The message fragment that the document `text` holds: an object whose
/// `role` and `content` are optional strings and whose `function_call` is
/// an optional function-call fragment.
pub open spec fn wire_delta(text: Seq<char>) -> Option<DeltaView> {
    match wire_object(text) {
        None => None,
        Some(members) => match (
            wire_optional_text(members, "role"@),
            wire_optional_text(members, "content"@),
            wire_optional_function_call(members, "function_call"@),
        ) {
            (Some(role), Some(content), Some(function_call)) => Some(
                DeltaView { role, content, function_call },
            ),
            _ => None,
        },
    }
}

/// The fragment that the document `text` holds: an object with an integer
/// `index`, a message fragment `delta` and an optional string
/// `finish_reason`.
pub open spec fn wire_choice(text: Seq<char>) -> Option<ChoiceDeltaView> {
    match wire_object(text) {
        None => None,
        Some(members) => match (
            wire_i64(members, "index"@),
            member(members, "delta"@),
            wire_optional_text(members, "finish_reason"@),
        ) {
            (Some(index), Some(delta), Some(finish_reason)) => match wire_delta(delta) {
                Some(delta) => Some(ChoiceDeltaView { index, delta, finish_reason }),
                None => None,
            },
            _ => None,
        },
    }
}

/// The fragments that the documents `texts` hold, in order; all of them
/// must be fragments.
pub open spec fn wire_choices(texts: Seq<Seq<char>>) -> Option<Seq<ChoiceDeltaView>>
    decreases texts.len(),
{
    if texts.len() == 0 {
        Some(Seq::empty())
    } else {
        match (wire_choices(texts.drop_last()), wire_choice(texts.last())) {
            (Some(before), Some(last)) => Some(before.push(last)),
            _ => None,
        }
    }
}

/// The fragments that the member `key` must hold, as an array.
pub open spec fn wire_choice_list(members: Seq<(Seq<char>, Seq<char>)>, key: Seq<char>) -> Option<
    Seq<ChoiceDeltaView>,
> {
    match member(members, key) {
        Some(text) => match json_layer(text) {
            Some(LayerView::Array(elements)) => wire_choices(elements),
            _ => None,
        },
        None => None,
    }
}

/// The update that the document `text` holds: an object with the strings
/// `id`, `object` and `model`, the unsigned integer `created` and the array
/// `choices` of fragments. Members that the format does not name are
/// ignored. Absent when `text` is no such document.
pub open spec fn wire_update(text: Seq<char>) -> Option<ChatCompletionDeltaView> {
    match wire_object(text) {
        None => None,
        Some(members) => match (
            wire_text(members, "id"@),
            wire_text(members, "object"@),
            wire_u64(members, "created"@),
            wire_text(members, "model"@),
            wire_choice_list(members, "choices"@),
        ) {
            (Some(id), Some(object), Some(created), Some(model), Some(choices)) => Some(
                ChatCompletionDeltaView { id, object, created, model, choices },
            ),
            _ => None,
        },
    }
}

/// The rejection that the document `text` holds: an object whose member
/// `error` is an object with the strings `message` and `type` and the
/// optional strings `param` and `code`. Absent when `text` is no such
/// document.
pub open spec fn wire_rejection(text: Seq<char>) -> Option<ApiErrorView> {
    match wire_object(text) {
        None => None,
        Some(envelope) => match member(envelope, "error"@) {
            None => None,
            Some(error) => match wire_object(error) {
                None => None,
                Some(members) => match (
                    wire_text(members, "message"@),
                    wire_text(members, "type"@),
                    wire_optional_text(members, "param"@),
                    wire_optional_text(members, "code"@),
                ) {
                    (Some(message), Some(error_type), Some(param), Some(code)) => Some(
                        ApiErrorView { message, error_type, param, code },
                    ),
                    _ => None,
                },
            },
        },
    }
}

/// The description that the document `text` gives of itself: the string
/// that it holds as `description`, where it is an object and holds one.
pub open spec fn wire_description(text: Seq<char>) -> Text {
    match wire_object(text) {
        Some(members) => wire_text(members, "description"@),
        None => None,
    }
}

/// Whether two texts are the same.
pub fn same_text(left: &str, right: &str) -> (same: bool)
    ensures
        same == (left@ == right@),
{
    left.to_owned() == right.to_owned()
}

/// The members of the object that `text` holds.
fn read_object(text: &str) -> (members: Option<Vec<(String, String)>>)
    ensures
        members.deep_view() == wire_object(text@),
{
    match read_layer(text) {
        Some(Layer::Object(members)) => Some(members),
        _ => None,
    }
}

/// The text of the first member called `key`.
fn find<'a>(members: &'a Vec<(String, String)>, key: &str) -> (found: Option<&'a String>)
    ensures
        found.deep_view() == member(members.deep_view(), key@),
{
    let mut k: usize = 0;
    assert(members.deep_view().skip(0) =~= members.deep_view());
    while k < members.len()
        invariant
            k <= members.len(),
            member(members.deep_view(), key@) == member(members.deep_view().skip(k as int), key@),
        decreases members.len() - k,
    {
        proof {
            let rest = members.deep_view().skip(k as int);
            assert(rest.first() == members[k as int].deep_view());
            assert(rest.drop_first() =~= members.deep_view().skip(k + 1));
        }
        if same_text(members[k].0.as_str(), key) {
            return Some(&members[k].1);
        }
        k += 1;
    }
    None
}

/// The string that the member `key` must hold.
fn read_text(members: &Vec<(String, String)>, key: &str) -> (value: Option<String>)
    ensures
        value.deep_view() == wire_text(members.deep_view(), key@),
{
    match find(members, key) {
        None => None,
        Some(text) => match read_layer(text.as_str()) {
            Some(Layer::Text(value)) => Some(value),
            _ => None,
        },
    }
}

/// The string that the member `key` may hold.
fn read_optional_text(members: &Vec<(String, String)>, key: &str) -> (value: Option<
    Option<String>,
>)
    ensures
        value.deep_view() == wire_optional_text(members.deep_view(), key@),
{
    match find(members, key) {
        None => Some(None),
        Some(text) => match read_layer(text.as_str()) {
            Some(Layer::Null) => Some(None),
            Some(Layer::Text(value)) => Some(Some(value)),
            _ => None,
        },
    }
}

/// The unsigned integer that the member `key` must hold.
fn read_u64(members: &Vec<(String, String)>, key: &str) -> (value: Option<u64>)
    ensures
        value == wire_u64(members.deep_view(), key@),
{
    match find(members, key) {
        None => None,
        Some(text) => match read_layer(text.as_str()) {
            Some(Layer::Number(Some(value), _)) => Some(value),
            _ => None,
        },
    }
}

/// The signed integer that the member `key` must hold.
fn read_i64(members: &Vec<(String, String)>, key: &str) -> (value: Option<i64>)
    ensures
        value == wire_i64(members.deep_view(), key@),
{
    match find(members, key) {
        None => None,
        Some(text) => match read_layer(text.as_str()) {
            Some(Layer::Number(_, Some(value))) => Some(value),
            _ => None,
        },
    }
}

/// The function-call fragment that the document `text` holds.
fn read_function_call(text: &str) -> (call: Option<FunctionCallDelta>)
    ensures
        call.deep_view() == wire_function_call(text@),
{
    let members = match read_object(text) {
        Some(members) => members,
        None => {
            return None;
        },
    };
    let name = read_optional_text(&members, "name");
    let arguments = read_optional_text(&members, "arguments");
    match (name, arguments) {
        (Some(name), Some(arguments)) => Some(FunctionCallDelta { name, arguments }),
        _ => None,
    }
}

/// The function-call fragment that the member `key` may hold.
fn read_optional_function_call(members: &Vec<(String, String)>, key: &str) -> (call: Option<
    Option<FunctionCallDelta>,
>)
    ensures
        call.deep_view() == wire_optional_function_call(members.deep_view(), key@),
{
    match find(members, key) {
        None => Some(None),
        Some(text) => {
            match read_layer(text.as_str()) {
                Some(Layer::Null) => Some(None),
                _ => match read_function_call(text.as_str()) {
                    Some(call) => Some(Some(call)),
                    None => None,
                },
            }
        },
    }
}

/// The message fragment that the document `text` holds.
fn read_delta(text: &str) -> (delta: Option<Delta>)
    ensures
        delta.deep_view() == wire_delta(text@),
{
    let members = match read_object(text) {
        Some(members) => members,
        None => {
            return None;
        },
    };
    let role = read_optional_text(&members, "role");
    let content = read_optional_text(&members, "content");
    let function_call = read_optional_function_call(&members, "function_call");
    match (role, content, function_call) {
        (Some(role), Some(content), Some(function_call)) => Some(
            Delta { role, content, function_call },
        ),
        _ => None,
    }
}

/// The fragment that the document `text` holds.
fn read_choice(text: &str) -> (choice: Option<ChoiceDelta>)
    ensures
        choice.deep_view() == wire_choice(text@),
{
    let members = match read_object(text) {
        Some(members) => members,
        None => {
            return None;
        },
    };
    let index = read_i64(&members, "index");
    let delta = find(&members, "delta");
    let finish_reason = read_optional_text(&members, "finish_reason");
    match (index, delta, finish_reason) {
        (Some(index), Some(delta), Some(finish_reason)) => match read_delta(delta.as_str()) {
            Some(delta) => Some(ChoiceDelta { index, delta, finish_reason }),
            None => None,
        },
        _ => None,
    }
}

/// The fragments that the member `key` must hold, as an array.
fn read_choice_list(members: &Vec<(String, String)>, key: &str) -> (choices: Option<
    Vec<ChoiceDelta>,
>)
    ensures
        choices.deep_view() == wire_choice_list(members.deep_view(), key@),
{
    let elements = match find(members, key) {
        None => {
            return None;
        },
        Some(text) => match read_layer(text.as_str()) {
            Some(Layer::Array(elements)) => elements,
            _ => {
                return None;
            },
        },
    };
    let mut choices: Vec<ChoiceDelta> = Vec::new();
    let mut k: usize = 0;
    assert(elements.deep_view().take(0) =~= Seq::empty());
    assert(choices.deep_view() =~= Seq::empty());
    while k < elements.len()
        invariant
            k <= elements.len(),
            wire_choice_list(members.deep_view(), key@) == wire_choices(elements.deep_view()),
            wire_choices(elements.deep_view().take(k as int)) == Some(choices.deep_view()),
        decreases elements.len() - k,
    {
        let ghost done = choices.deep_view();
        proof {
            let texts = elements.deep_view();
            assert(texts.take(k + 1).drop_last() =~= texts.take(k as int));
            assert(texts.take(k + 1).last() == elements[k as int]@);
        }
        match read_choice(elements[k].as_str()) {
            None => {
                proof {
                    lemma_wire_choices_failure_stays(elements.deep_view(), k + 1);
                }
                return None;
            },
            Some(choice) => {
                choices.push(choice);
                assert(choices.deep_view() =~= done.push(choice@));
            },
        }
        k += 1;
    }
    assert(elements.deep_view().take(k as int) =~= elements.deep_view());
    Some(choices)
}

/// Once an element is no fragment, no later element mends the array.
pub proof fn lemma_wire_choices_failure_stays(texts: Seq<Seq<char>>, k: int)
    requires
        0 <= k <= texts.len(),
        wire_choices(texts.take(k)).is_none(),
    ensures
        wire_choices(texts).is_none(),
    decreases texts.len(),
{
    if k == texts.len() {
        assert(texts.take(k) =~= texts);
    } else {
        assert(texts.drop_last().take(k) =~= texts.take(k));
        lemma_wire_choices_failure_stays(texts.drop_last(), k);
    }
}

/// Reads the description that a JSON document gives of itself.
pub fn read_description(text: &str) -> (description: Option<String>)
    ensures
        description.deep_view() == wire_description(text@),
{
    match read_object(text) {
        Some(members) => read_text(&members, "description"),
        None => None,
    }
}

/// Reads an update from its JSON document; `None` when the text is not an
/// update of the wire format.
pub fn read_update(text: &str) -> (update: Option<ChatCompletionDelta>)
    ensures
        update.deep_view() == wire_update(text@),
{
    let members = match read_object(text) {
        Some(members) => members,
        None => {
            return None;
        },
    };
    let id = read_text(&members, "id");
    let object = read_text(&members, "object");
    let created = read_u64(&members, "created");
    let model = read_text(&members, "model");
    let choices = read_choice_list(&members, "choices");
    match (id, object, created, model, choices) {
        (Some(id), Some(object), Some(created), Some(model), Some(choices)) => Some(
            ChatCompletionDelta { id, object, created, model, choices },
        ),
        _ => None,
    }
}

/// Reads a rejection of the remote service from its JSON envelope; `None`
/// when the text is not such an envelope.
pub fn read_rejection(text: &str) -> (rejection: Option<OpenAIError>)
    ensures
        rejection.deep_view() == wire_rejection(text@),
{
    let envelope = match read_object(text) {
        Some(envelope) => envelope,
        None => {
            return None;
        },
    };
    let members = match find(&envelope, "error") {
        None => {
            return None;
        },
        Some(error) => match read_object(error.as_str()) {
            Some(members) => members,
            None => {
                return None;
            },
        },
    };
    let message = read_text(&members, "message");
    let error_type = read_text(&members, "type");
    let param = read_optional_text(&members, "param");
    let code = read_optional_text(&members, "code");
    match (message, error_type, param, code) {
        (Some(message), Some(error_type), Some(param), Some(code)) => Some(
            OpenAIError::ApiError { message, error_type, param, code },
        ),
        _ => None,
    }
}

/// The function call that the document `text` holds: an object with the
/// strings `name` and `arguments`.
pub open spec fn wire_whole_function_call(text: Seq<char>) -> Option<FunctionCallView> {
    match wire_object(text) {
        None => None,
        Some(members) => match (wire_text(members, "name"@), wire_text(members, "arguments"@)) {
            (Some(name), Some(arguments)) => Some(FunctionCallView { name, arguments }),
            _ => None,
        },
    }
}

/// The function call that the member `key` may hold.
pub open spec fn wire_optional_whole_function_call(
    members: Seq<(Seq<char>, Seq<char>)>,
    key: Seq<char>,
) -> Option<Option<FunctionCallView>> {
    match member(members, key) {
        None => Some(None),
        Some(text) => if json_layer(text) == Some(LayerView::Null) {
            Some(None)
        } else {
            match wire_whole_function_call(text) {
                Some(call) => Some(Some(call)),
                None => None,
            }
        },
    }
}

/// The message that the document `text` holds: an object with the string
/// `role`, the optional strings `content` and `name`, and an optional
/// function call `function_call`.
pub open spec fn wire_message(text: Seq<char>) -> Option<MessageView> {
    match wire_object(text) {
        None => None,
        Some(members) => match (
            wire_text(members, "role"@),
            wire_optional_text(members, "content"@),
            wire_optional_text(members, "name"@),
            wire_optional_whole_function_call(members, "function_call"@),
        ) {
            (Some(role), Some(content), Some(name), Some(function_call)) => Some(
                MessageView { role, content, name, function_call },
            ),
            _ => None,
        },
    }
}

/// The complete choice that the document `text` holds: an object with an
/// integer `index`, a message `message` and an optional string
/// `finish_reason`, which is empty where the document gives none.
pub open spec fn wire_whole_choice(text: Seq<char>) -> Option<ChoiceView> {
    match wire_object(text) {
        None => None,
        Some(members) => match (
            wire_i64(members, "index"@),
            member(members, "message"@),
            wire_optional_text(members, "finish_reason"@),
        ) {
            (Some(index), Some(message), Some(finish_reason)) => match wire_message(message) {
                Some(message) => Some(
                    ChoiceView {
                        index,
                        message,
                        finish_reason: match finish_reason {
                            Some(reason) => reason,
                            None => Seq::empty(),
                        },
                    },
                ),
                None => None,
            },
            _ => None,
        },
    }
}

/// The complete choices that the documents `texts` hold, in order; all of
/// them must be choices.
pub open spec fn wire_whole_choices(texts: Seq<Seq<char>>) -> Option<Seq<ChoiceView>>
    decreases texts.len(),
{
    if texts.len() == 0 {
        Some(Seq::empty())
    } else {
        match (wire_whole_choices(texts.drop_last()), wire_whole_choice(texts.last())) {
            (Some(before), Some(last)) => Some(before.push(last)),
            _ => None,
        }
    }
}

/// The complete choices that the member `key` must hold, as an array.
pub open spec fn wire_whole_choice_list(
    members: Seq<(Seq<char>, Seq<char>)>,
    key: Seq<char>,
) -> Option<Seq<ChoiceView>> {
    match member(members, key) {
        Some(text) => match json_layer(text) {
            Some(LayerView::Array(elements)) => wire_whole_choices(elements),
            _ => None,
        },
        None => None,
    }
}

/// The token accounting that the document `text` holds: an object with the
/// unsigned integers `prompt_tokens`, `completion_tokens` and
/// `total_tokens`, taken as they are given.
pub open spec fn wire_usage(text: Seq<char>) -> Option<Usage> {
    match wire_object(text) {
        None => None,
        Some(members) => match (
            wire_u64(members, "prompt_tokens"@),
            wire_u64(members, "completion_tokens"@),
            wire_u64(members, "total_tokens"@),
        ) {
            (Some(prompt_tokens), Some(completion_tokens), Some(total_tokens)) => Some(
                Usage { prompt_tokens, completion_tokens, total_tokens },
            ),
            _ => None,
        },
    }
}

/// The complete chat that the document `text` holds: an object with the
/// strings `id`, `object` and `model`, the unsigned integer `created`, the
/// array `choices` of complete choices and the token accounting `usage`.
/// Members that the format does not name are ignored. Absent when `text`
/// is no such document.
pub open spec fn wire_chat(text: Seq<char>) -> Option<ChatCompletionView> {
    match wire_object(text) {
        None => None,
        Some(members) => match (
            wire_text(members, "id"@),
            wire_text(members, "object"@),
            wire_u64(members, "created"@),
            wire_text(members, "model"@),
            wire_whole_choice_list(members, "choices"@),
            member(members, "usage"@),
        ) {
            (Some(id), Some(object), Some(created), Some(model), Some(choices), Some(usage)) =>
                match wire_usage(usage) {
                Some(usage) => Some(
                    ChatCompletionView { id, object, created, model, choices, usage },
                ),
                None => None,
            },
            _ => None,
        },
    }
}

/// The function call that the document `text` holds.
fn read_whole_function_call(text: &str) -> (call: Option<FunctionCall>)
    ensures
        call.deep_view() == wire_whole_function_call(text@),
{
    let members = match read_object(text) {
        Some(members) => members,
        None => {
            return None;
        },
    };
    let name = read_text(&members, "name");
    let arguments = read_text(&members, "arguments");
    match (name, arguments) {
        (Some(name), Some(arguments)) => Some(FunctionCall { name, arguments }),
        _ => None,
    }
}

/// The function call that the member `key` may hold.
fn read_optional_whole_function_call(members: &Vec<(String, String)>, key: &str) -> (call:
    Option<Option<FunctionCall>>)
    ensures
        call.deep_view() == wire_optional_whole_function_call(members.deep_view(), key@),
{
    match find(members, key) {
        None => Some(None),
        Some(text) => {
            match read_layer(text.as_str()) {
                Some(Layer::Null) => Some(None),
                _ => match read_whole_function_call(text.as_str()) {
                    Some(call) => Some(Some(call)),
                    None => None,
                },
            }
        },
    }
}

/// The message that the document `text` holds.
fn read_message(text: &str) -> (message: Option<Message>)
    ensures
        message.deep_view() == wire_message(text@),
{
    let members = match read_object(text) {
        Some(members) => members,
        None => {
            return None;
        },
    };
    let role = read_text(&members, "role");
    let content = read_optional_text(&members, "content");
    let name = read_optional_text(&members, "name");
    let function_call = read_optional_whole_function_call(&members, "function_call");
    match (role, content, name, function_call) {
        (Some(role), Some(content), Some(name), Some(function_call)) => Some(
            Message { role, content, name, function_call },
        ),
        _ => None,
    }
}

/// The complete choice that the document `text` holds.
fn read_whole_choice(text: &str) -> (choice: Option<Choice>)
    ensures
        choice.deep_view() == wire_whole_choice(text@),
{
    let members = match read_object(text) {
        Some(members) => members,
        None => {
            return None;
        },
    };
    let index = read_i64(&members, "index");
    let message = find(&members, "message");
    let finish_reason = read_optional_text(&members, "finish_reason");
    match (index, message, finish_reason) {
        (Some(index), Some(message), Some(finish_reason)) => match read_message(
            message.as_str(),
        ) {
            Some(message) => {
                let finish_reason = match finish_reason {
                    Some(reason) => reason,
                    None => String::new(),
                };
                Some(Choice { index, message, finish_reason })
            },
            None => None,
        },
        _ => None,
    }
}

/// Once an element is no complete choice, no later element mends the array.
pub proof fn lemma_wire_whole_choices_failure_stays(texts: Seq<Seq<char>>, k: int)
    requires
        0 <= k <= texts.len(),
        wire_whole_choices(texts.take(k)).is_none(),
    ensures
        wire_whole_choices(texts).is_none(),
    decreases texts.len(),
{
    if k == texts.len() {
        assert(texts.take(k) =~= texts);
    } else {
        assert(texts.drop_last().take(k) =~= texts.take(k));
        lemma_wire_whole_choices_failure_stays(texts.drop_last(), k);
    }
}

/// The complete choices that the member `key` must hold, as an array.
fn read_whole_choice_list(members: &Vec<(String, String)>, key: &str) -> (choices: Option<
    Vec<Choice>,
>)
    ensures
        choices.deep_view() == wire_whole_choice_list(members.deep_view(), key@),
{
    let elements = match find(members, key) {
        None => {
            return None;
        },
        Some(text) => match read_layer(text.as_str()) {
            Some(Layer::Array(elements)) => elements,
            _ => {
                return None;
            },
        },
    };
    let mut choices: Vec<Choice> = Vec::new();
    let mut k: usize = 0;
    assert(elements.deep_view().take(0) =~= Seq::empty());
    assert(choices.deep_view() =~= Seq::empty());
    while k < elements.len()
        invariant
            k <= elements.len(),
            wire_whole_choice_list(members.deep_view(), key@) == wire_whole_choices(
                elements.deep_view(),
            ),
            wire_whole_choices(elements.deep_view().take(k as int)) == Some(choices.deep_view()),
        decreases elements.len() - k,
    {
        let ghost done = choices.deep_view();
        proof {
            let texts = elements.deep_view();
            assert(texts.take(k + 1).drop_last() =~= texts.take(k as int));
            assert(texts.take(k + 1).last() == elements[k as int]@);
        }
        match read_whole_choice(elements[k].as_str()) {
            None => {
                proof {
                    lemma_wire_whole_choices_failure_stays(elements.deep_view(), k + 1);
                }
                return None;
            },
            Some(choice) => {
                choices.push(choice);
                assert(choices.deep_view() =~= done.push(choice@));
            },
        }
        k += 1;
    }
    assert(elements.deep_view().take(k as int) =~= elements.deep_view());
    Some(choices)
}

/// The token accounting that the document `text` holds.
fn read_usage(text: &str) -> (usage: Option<Usage>)
    ensures
        usage == wire_usage(text@),
{
    let members = match read_object(text) {
        Some(members) => members,
        None => {
            return None;
        },
    };
    let prompt_tokens = read_u64(&members, "prompt_tokens");
    let completion_tokens = read_u64(&members, "completion_tokens");
    let total_tokens = read_u64(&members, "total_tokens");
    match (prompt_tokens, completion_tokens, total_tokens) {
        (Some(prompt_tokens), Some(completion_tokens), Some(total_tokens)) => Some(
            Usage { prompt_tokens, completion_tokens, total_tokens },
        ),
        _ => None,
    }
}

/// Reads a complete chat from its JSON document; `None` when the text is
/// not a chat of the wire format.
pub fn read_chat(text: &str) -> (chat: Option<ChatCompletion>)
    ensures
        chat.deep_view() == wire_chat(text@),
{
    let members = match read_object(text) {
        Some(members) => members,
        None => {
            return None;
        },
    };
    let id = read_text(&members, "id");
    let object = read_text(&members, "object");
    let created = read_u64(&members, "created");
    let model = read_text(&members, "model");
    let choices = read_whole_choice_list(&members, "choices");
    let usage = find(&members, "usage");
    match (id, object, created, model, choices, usage) {
        (Some(id), Some(object), Some(created), Some(model), Some(choices), Some(usage)) =>
            match read_usage(usage.as_str()) {
            Some(usage) => Some(ChatCompletion { id, object, created, model, choices, usage }),
            None => None,
        },
        _ => None,
    }
}

} // verus!
