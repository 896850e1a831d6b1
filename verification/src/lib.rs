//! Client-side reconstruction of streamed chat completions.
//!
//! A streamed completion arrives as a sequence of partial updates. Each update
//! carries fragments for one or more candidate completions ("choices"), told
//! apart by a stable index. This crate folds such a sequence back into the
//! shape of a complete, non-streamed answer and accounts for the tokens used.
//!
//! The crate decides and computes; it does not wait. Reading the network and
//! moving items through a channel are left to the caller, who hands each
//! event and each item to the functions here:
//!
//! - [`forward`] says what each event of the server-sent stream amounts to;
//! - [`wire`] reads updates, complete chats and error envelopes from JSON;
//! - [`chat_completion_delta`] keeps the history of a session and reads it
//!   selectively;
//! - [`accumulate`] folds a history into complete choices;
//! - [`theorems`] proves what holds of every reconstruction;
//! - [`chat_completion_request`], [`function`] and [`credentials`] hold what
//!   a request is made of.
//!
//! Every executable function carries a contract over the mathematical views
//! defined next to the data types: strings are sequences of characters,
//! vectors are sequences of views.

use vstd::prelude::*;

pub mod accumulate;
pub mod chat_completion;
pub mod chat_completion_delta;
pub mod chat_completion_request;
pub mod credentials;
pub mod error;
pub mod function;
pub mod forward;
pub mod theorems;
pub mod wire;

pub use crate::chat_completion::ChatCompletion as Chat;
pub use crate::chat_completion_delta::ChatCompletionDelta as ChatDelta;
pub use crate::chat_completion_delta::DeltaReceiver;
pub use crate::credentials::api_key;
pub use crate::function::Function;

verus! {

/// The name and the complete argument text of a function the model asks to call.
#[derive(Debug)]
pub struct FunctionCall {
    pub name: String,
    pub arguments: String,
}

/// Mathematical view of a [`FunctionCall`].
pub struct FunctionCallView {
    pub name: Seq<char>,
    pub arguments: Seq<char>,
}

impl View for FunctionCall {
    type V = FunctionCallView;

    open spec fn view(&self) -> FunctionCallView {
        FunctionCallView { name: self.name@, arguments: self.arguments@ }
    }
}

impl DeepView for FunctionCall {
    type V = FunctionCallView;

    open spec fn deep_view(&self) -> FunctionCallView {
        self@
    }
}

impl Clone for FunctionCall {
    fn clone(&self) -> (copy: Self)
        ensures
            copy@ == self@,
    {
        FunctionCall { name: self.name.clone(), arguments: self.arguments.clone() }
    }
}

/// One complete chat message.
#[derive(Debug)]
pub struct Message {
    pub role: String,
    pub content: Option<String>,
    pub name: Option<String>,
    pub function_call: Option<FunctionCall>,
}

/// Mathematical view of a [`Message`].
pub struct MessageView {
    pub role: Seq<char>,
    pub content: Option<Seq<char>>,
    pub name: Option<Seq<char>>,
    pub function_call: Option<FunctionCallView>,
}

impl View for Message {
    type V = MessageView;

    open spec fn view(&self) -> MessageView {
        MessageView {
            role: self.role@,
            content: self.content.deep_view(),
            name: self.name.deep_view(),
            function_call: self.function_call.deep_view(),
        }
    }
}

impl DeepView for Message {
    type V = MessageView;

    open spec fn deep_view(&self) -> MessageView {
        self@
    }
}

impl Clone for Message {
    fn clone(&self) -> (copy: Self)
        ensures
            copy@ == self@,
    {
        Message {
            role: self.role.clone(),
            content: self.content.clone(),
            name: self.name.clone(),
            function_call: self.function_call.clone(),
        }
    }
}

impl Message {
    /// A message of the given role with no content, name or function call.
    pub fn new(role: &str) -> (message: Message)
        ensures
            message@ == (MessageView {
                role: role@,
                content: None,
                name: None,
                function_call: None,
            }),
    {
        Message { role: role.to_owned(), content: None, name: None, function_call: None }
    }

    /// The same message with its content replaced by `content`.
    pub fn with_content(self, content: &str) -> (message: Message)
        ensures
            message@ == (MessageView { content: Some(content@), ..self@ }),
    {
        let mut message = self;
        message.content = Some(content.to_owned());
        message
    }

    /// The same message with its name replaced by `name`.
    pub fn with_name(self, name: &str) -> (message: Message)
        ensures
            message@ == (MessageView { name: Some(name@), ..self@ }),
    {
        let mut message = self;
        message.name = Some(name.to_owned());
        message
    }
}

/// One reconstructed candidate completion.
#[derive(Debug)]
pub struct Choice {
    pub index: i64,
    pub message: Message,
    /// Why the choice ended; empty when the stream never said.
    pub finish_reason: String,
}

/// Mathematical view of a [`Choice`].
pub struct ChoiceView {
    pub index: i64,
    pub message: MessageView,
    pub finish_reason: Seq<char>,
}

impl View for Choice {
    type V = ChoiceView;

    open spec fn view(&self) -> ChoiceView {
        ChoiceView {
            index: self.index,
            message: self.message@,
            finish_reason: self.finish_reason@,
        }
    }
}

impl DeepView for Choice {
    type V = ChoiceView;

    open spec fn deep_view(&self) -> ChoiceView {
        self@
    }
}

impl Clone for Choice {
    fn clone(&self) -> (copy: Self)
        ensures
            copy@ == self@,
    {
        Choice {
            index: self.index,
            message: self.message.clone(),
            finish_reason: self.finish_reason.clone(),
        }
    }
}

/// The newly revealed part of a function call.
#[derive(Debug)]
pub struct FunctionCallDelta {
    pub name: Option<String>,
    pub arguments: Option<String>,
}

/// Mathematical view of a [`FunctionCallDelta`].
pub struct FunctionCallDeltaView {
    pub name: Option<Seq<char>>,
    pub arguments: Option<Seq<char>>,
}

impl View for FunctionCallDelta {
    type V = FunctionCallDeltaView;

    open spec fn view(&self) -> FunctionCallDeltaView {
        FunctionCallDeltaView {
            name: self.name.deep_view(),
            arguments: self.arguments.deep_view(),
        }
    }
}

impl DeepView for FunctionCallDelta {
    type V = FunctionCallDeltaView;

    open spec fn deep_view(&self) -> FunctionCallDeltaView {
        self@
    }
}

impl Clone for FunctionCallDelta {
    fn clone(&self) -> (copy: Self)
        ensures
            copy@ == self@,
    {
        FunctionCallDelta { name: self.name.clone(), arguments: self.arguments.clone() }
    }
}

/// The newly revealed part of a message. A field is present only when the
/// update reveals something for it; a present but empty text is not absence.
#[derive(Debug)]
pub struct Delta {
    pub role: Option<String>,
    pub content: Option<String>,
    pub function_call: Option<FunctionCallDelta>,
}

/// Mathematical view of a [`Delta`].
pub struct DeltaView {
    pub role: Option<Seq<char>>,
    pub content: Option<Seq<char>>,
    pub function_call: Option<FunctionCallDeltaView>,
}

impl View for Delta {
    type V = DeltaView;

    open spec fn view(&self) -> DeltaView {
        DeltaView {
            role: self.role.deep_view(),
            content: self.content.deep_view(),
            function_call: self.function_call.deep_view(),
        }
    }
}

impl DeepView for Delta {
    type V = DeltaView;

    open spec fn deep_view(&self) -> DeltaView {
        self@
    }
}

impl Clone for Delta {
    fn clone(&self) -> (copy: Self)
        ensures
            copy@ == self@,
    {
        Delta {
            role: self.role.clone(),
            content: self.content.clone(),
            function_call: self.function_call.clone(),
        }
    }
}

/// A fragment for the choice identified by `index`.
#[derive(Debug)]
pub struct ChoiceDelta {
    pub index: i64,
    pub delta: Delta,
    /// Present only on the update that ends the choice.
    pub finish_reason: Option<String>,
}

/// Mathematical view of a [`ChoiceDelta`].
pub struct ChoiceDeltaView {
    pub index: i64,
    pub delta: DeltaView,
    pub finish_reason: Option<Seq<char>>,
}

impl View for ChoiceDelta {
    type V = ChoiceDeltaView;

    open spec fn view(&self) -> ChoiceDeltaView {
        ChoiceDeltaView {
            index: self.index,
            delta: self.delta@,
            finish_reason: self.finish_reason.deep_view(),
        }
    }
}

impl DeepView for ChoiceDelta {
    type V = ChoiceDeltaView;

    open spec fn deep_view(&self) -> ChoiceDeltaView {
        self@
    }
}

impl Clone for ChoiceDelta {
    fn clone(&self) -> (copy: Self)
        ensures
            copy@ == self@,
    {
        ChoiceDelta {
            index: self.index,
            delta: self.delta.clone(),
            finish_reason: self.finish_reason.clone(),
        }
    }
}

/// Token accounting of one completed chat.
#[derive(Debug, Clone, Copy, PartialEq, Eq, Structural)]
pub struct Usage {
    pub prompt_tokens: u64,
    pub completion_tokens: u64,
    pub total_tokens: u64,
}

/// The sum of token counts.
pub open spec fn total(counts: Seq<u64>) -> nat
    decreases counts.len(),
{
    if counts.len() == 0 {
        0
    } else {
        total(counts.drop_last()) + counts.last() as nat
    }
}

/// The sum of a prefix of token counts never exceeds the sum of all.
pub proof fn lemma_total_grows(counts: Seq<u64>, k: int)
    requires
        0 <= k <= counts.len(),
    ensures
        total(counts.take(k)) <= total(counts),
    decreases counts.len(),
{
    if k == counts.len() {
        assert(counts.take(k) =~= counts);
    } else {
        assert(counts.drop_last().take(k) =~= counts.take(k));
        lemma_total_grows(counts.drop_last(), k);
    }
}

impl Default for Usage {
    /// No tokens used.
    fn default() -> (usage: Usage)
        ensures
            usage == (Usage { prompt_tokens: 0, completion_tokens: 0, total_tokens: 0 }),
    {
        Usage { prompt_tokens: 0, completion_tokens: 0, total_tokens: 0 }
    }
}

impl Usage {
    /// Whether the total is the sum of the two parts.
    pub open spec fn balanced(self) -> bool {
        self.total_tokens == self.prompt_tokens + self.completion_tokens
    }

    /// The accounting of a chat whose prompt took `prompt_tokens` and whose
    /// reconstructed messages took `counts`, one count per message. `None`
    /// when the total does not fit in 64 bits.
    pub fn tally(prompt_tokens: u64, counts: &Vec<u64>) -> (usage: Option<Usage>)
        ensures
            match usage {
                Some(usage) => {
                    &&& usage.prompt_tokens == prompt_tokens
                    &&& usage.completion_tokens == total(counts@)
                    &&& usage.balanced()
                },
                None => prompt_tokens + total(counts@) > u64::MAX,
            },
    {
        let mut completion: u64 = 0;
        let mut k: usize = 0;
        assert(counts@.take(0) =~= Seq::empty());
        while k < counts.len()
            invariant
                k <= counts.len(),
                completion == total(counts@.take(k as int)),
                prompt_tokens + completion <= u64::MAX,
            decreases counts.len() - k,
        {
            let count = counts[k];
            proof {
                assert(counts@.take(k + 1).drop_last() =~= counts@.take(k as int));
                lemma_total_grows(counts@, k + 1);
            }
            if count > u64::MAX - prompt_tokens - completion {
                return None;
            }
            completion = completion + count;
            k += 1;
        }
        assert(counts@.take(k as int) =~= counts@);
        Some(
            Usage {
                prompt_tokens,
                completion_tokens: completion,
                total_tokens: prompt_tokens + completion,
            },
        )
    }
}

} // verus!
