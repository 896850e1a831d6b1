//! Turning a response body into a value, and what a request is made of.

use crate::chat_completion_delta::{item_view, ChatCompletionDelta, ItemView};
use crate::error::{Error, ErrorView, InternalError, InternalErrorView, UtilsResult};
use crate::chat_completion::ChatCompletion;
use crate::wire::{
    read_chat, read_rejection, read_update, wire_chat, wire_rejection, wire_update,
};
use crate::{lemma_total_grows, total, Message, MessageView};
use vstd::prelude::*;

verus! {

/// What a body stands for when it is not the value that was asked for: the
/// rejection it holds, or else a serialization error that keeps the body.
pub open spec fn wire_failure(body: Seq<char>) -> ErrorView {
    match wire_rejection(body) {
        Some(rejection) => ErrorView::OpenAI(rejection),
        None => ErrorView::Internal(InternalErrorView::SerializationError(body)),
    }
}

/// Reads a response body as a value of the caller's kind.
///
/// `parse` is asked first and its value is handed back as it is. Only when
/// it finds none is the body read as an error envelope of the remote
/// service; a body that is neither fails with `SerializationError` and is
/// kept in it.
pub fn serialize<T, P: FnOnce(&str) -> Option<T>>(res: &str, parse: P) -> (result: UtilsResult<T>)
    requires
        parse.requires((res,)),
    ensures
        match result {
            Ok(value) => parse.ensures((res,), Some(value)),
            Err(e) => parse.ensures((res,), None) && e.deep_view() == wire_failure(res@),
        },
{
    match parse(res) {
        Some(value) => Ok(value),
        None => match read_rejection(res) {
            Some(rejection) => Err(Error::OpenAI(rejection)),
            None => Err(Error::Internal(InternalError::SerializationError(res.to_owned()))),
        },
    }
}

/// The item that a payload of the stream stands for: the update it holds,
/// else the rejection it holds, else a serialization error.
pub open spec fn wire_item(payload: Seq<char>) -> ItemView {
    match wire_update(payload) {
        Some(update) => Ok(update),
        None => Err(wire_failure(payload)),
    }
}

/// Reads one payload of the stream.
pub fn parse_update(payload: &str) -> (item: UtilsResult<ChatCompletionDelta>)
    ensures
        item_view(item) == wire_item(payload@),
{
    serialize(payload, read_update)
}

/// Reads the body of an answer that is not streamed: the chat it holds,
/// else the rejection it holds, else a serialization error.
pub fn parse_chat(body: &str) -> (result: UtilsResult<ChatCompletion>)
    ensures
        match wire_chat(body@) {
            Some(chat) => result matches Ok(read) && read@ == chat,
            None => result matches Err(e) && e.deep_view() == wire_failure(body@),
        },
{
    serialize(body, read_chat)
}

/// The messages that go out with a request: the conversation, followed by
/// the system message where there is one.
pub open spec fn outbound(conversation: Seq<MessageView>, system_message: Option<MessageView>)
    -> Seq<MessageView> {
    match system_message {
        Some(message) => conversation.push(message),
        None => conversation,
    }
}

/// Puts together the messages that go out with a request.
pub fn outbound_messages(conversation: &Vec<Message>, system_message: &Option<Message>) -> (messages:
    Vec<Message>)
    ensures
        messages.deep_view() == outbound(conversation.deep_view(), system_message.deep_view()),
{
    let mut messages = conversation.clone();
    assert(messages.deep_view() =~= conversation.deep_view());
    match system_message {
        Some(message) => {
            let ghost before = messages.deep_view();
            let copy = message.clone();
            messages.push(copy);
            assert(messages.deep_view() =~= before.push(message@));
        },
        None => {},
    }
    messages
}

/// Tokens that every request takes beside its messages.
pub const REQUEST_OVERHEAD: u64 = 3;

/// Tokens that every message of a request takes beside its own.
pub const MESSAGE_OVERHEAD: u64 = 4;

/// The token count of a prompt whose messages take `counts` tokens: their
/// sum, and the overhead of each message and of the request.
pub open spec fn prompt_total(counts: Seq<u64>) -> nat {
    REQUEST_OVERHEAD as nat + total(counts) + MESSAGE_OVERHEAD as nat * counts.len()
}

/// The token count of a prompt whose messages take `counts` tokens, one
/// count per message; `None` when it does not fit in 64 bits.
pub fn prompt_tokens(counts: &Vec<u64>) -> (tokens: Option<u64>)
    ensures
        match tokens {
            Some(tokens) => tokens == prompt_total(counts@),
            None => prompt_total(counts@) > u64::MAX,
        },
{
    let mut tokens: u64 = REQUEST_OVERHEAD;
    let mut k: usize = 0;
    assert(counts@.take(0) =~= Seq::empty());
    while k < counts.len()
        invariant
            k <= counts.len(),
            tokens == prompt_total(counts@.take(k as int)),
        decreases counts.len() - k,
    {
        let count = counts[k];
        proof {
            assert(counts@.take(k + 1).drop_last() =~= counts@.take(k as int));
            lemma_total_grows(counts@, k + 1);
            assert(MESSAGE_OVERHEAD as nat * (k + 1) as nat == MESSAGE_OVERHEAD as nat * k as nat
                + MESSAGE_OVERHEAD as nat) by (nonlinear_arith);
            assert(MESSAGE_OVERHEAD as nat * (k + 1) as nat <= MESSAGE_OVERHEAD as nat
                * counts@.len()) by (nonlinear_arith)
                requires
                    k + 1 <= counts@.len(),
            ;
        }
        if count > u64::MAX - MESSAGE_OVERHEAD || tokens > u64::MAX - MESSAGE_OVERHEAD - count {
            return None;
        }
        tokens = tokens + count + MESSAGE_OVERHEAD;
        k += 1;
    }
    assert(counts@.take(k as int) =~= counts@);
    Some(tokens)
}

} // verus!
