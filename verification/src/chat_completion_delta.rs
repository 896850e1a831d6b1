//! Streamed updates and the history a session keeps of them.

use crate::accumulate::{
    assemble_chat, estimate_each, estimated, reconstruct_choices, reconstruction, Text,
};
use crate::chat_completion::ChatCompletion;
use crate::error::{Error, ErrorView, InternalError, InternalErrorView, UtilsResult};
use crate::{total, Choice, ChoiceDelta, ChoiceDeltaView, ChoiceView, Message, Usage};
use vstd::prelude::*;

verus! {

/// One update of a streamed chat answer.
#[derive(Debug)]
pub struct ChatCompletionDelta {
    pub id: String,
    pub object: String,
    pub created: u64,
    pub model: String,
    pub choices: Vec<ChoiceDelta>,
}

/// Mathematical view of a [`ChatCompletionDelta`].
pub struct ChatCompletionDeltaView {
    pub id: Seq<char>,
    pub object: Seq<char>,
    pub created: u64,
    pub model: Seq<char>,
    pub choices: Seq<ChoiceDeltaView>,
}

impl View for ChatCompletionDelta {
    type V = ChatCompletionDeltaView;

    open spec fn view(&self) -> ChatCompletionDeltaView {
        ChatCompletionDeltaView {
            id: self.id@,
            object: self.object@,
            created: self.created,
            model: self.model@,
            choices: self.choices.deep_view(),
        }
    }
}

impl DeepView for ChatCompletionDelta {
    type V = ChatCompletionDeltaView;

    open spec fn deep_view(&self) -> ChatCompletionDeltaView {
        self@
    }
}

impl Clone for ChatCompletionDelta {
    fn clone(&self) -> (copy: Self)
        ensures
            copy@ == self@,
    {
        let choices = self.choices.clone();
        assert(choices.deep_view() =~= self.choices.deep_view());
        ChatCompletionDelta {
            id: self.id.clone(),
            object: self.object.clone(),
            created: self.created,
            model: self.model.clone(),
            choices,
        }
    }
}

/// The index of the choice whose finish reason ends the draining of a
/// stream.
pub const DECISIVE_CHOICE: i64 = 0;

/// Whether a fragment carries the finish reason of the decisive choice.
pub open spec fn decisive(fragment: ChoiceDeltaView) -> bool {
    fragment.index == DECISIVE_CHOICE && fragment.finish_reason.is_some()
}

/// Whether an update ends the stream for the purpose of accumulation: one
/// of its fragments carries a finish reason for the decisive choice. That
/// another choice finishes does not end the stream.
pub open spec fn finishes(update: ChatCompletionDeltaView) -> bool {
    exists|i: int| 0 <= i < update.choices.len() && decisive(#[trigger] update.choices[i])
}

/// The content that an update reveals for the choice `index`: that of the
/// first fragment that carries the index and holds content.
pub open spec fn content_for(fragments: Seq<ChoiceDeltaView>, index: i64) -> Text
    decreases fragments.len(),
{
    if fragments.len() == 0 {
        None
    } else if fragments.first().index == index && fragments.first().delta.content.is_some() {
        fragments.first().delta.content
    } else {
        content_for(fragments.drop_first(), index)
    }
}

/// What one item of a session amounts to: an update or a failure.
pub type ItemView = Result<ChatCompletionDeltaView, ErrorView>;

/// Mathematical view of an item of a session.
pub open spec fn item_view(item: UtilsResult<ChatCompletionDelta>) -> ItemView {
    match item {
        Ok(update) => Ok(update@),
        Err(e) => Err(e.deep_view()),
    }
}

/// Mathematical view of what a receive on the channel gives: an item, or
/// nothing when the channel is closed.
pub open spec fn incoming(item: Option<UtilsResult<ChatCompletionDelta>>) -> Option<ItemView> {
    match item {
        Some(item) => Some(item_view(item)),
        None => None,
    }
}

/// The history after one more receive: an update is appended, and nothing
/// else changes it.
pub open spec fn recorded(history: Seq<ChatCompletionDeltaView>, item: Option<ItemView>) -> Seq<
    ChatCompletionDeltaView,
> {
    match item {
        Some(Ok(update)) => history.push(update),
        _ => history,
    }
}

/// Where a session stands, as its consumer sees it.
#[derive(Debug, Clone, Copy, PartialEq, Eq, Structural)]
pub enum SessionState {
    /// Nothing has arrived yet.
    Idle,
    /// Updates are arriving.
    Streaming,
    /// The stream has ended, or an update has finished it.
    Completed,
    /// The transport failed.
    TransportFailed,
    /// A payload was neither an update nor an error envelope.
    ParseFailed,
    /// The remote service rejected the request.
    UpstreamRejected,
}

impl SessionState {
    /// Whether the session has failed. A failed session stays failed.
    pub open spec fn failed(self) -> bool {
        self is TransportFailed || self is ParseFailed || self is UpstreamRejected
    }

    /// The state after one more receive. A failure is final. Otherwise an
    /// error item fails the session: a rejection of the remote service as
    /// `UpstreamRejected`, a serialization error as `ParseFailed`, any other
    /// error as `TransportFailed`. The end of the stream completes the
    /// session, and an update completes it when it finishes the stream and
    /// else keeps it streaming; a completed session stays completed while
    /// updates go on arriving.
    pub open spec fn after(self, item: Option<ItemView>) -> SessionState {
        if self.failed() {
            self
        } else {
            match item {
                None => SessionState::Completed,
                Some(Ok(update)) => if finishes(update) || self is Completed {
                    SessionState::Completed
                } else {
                    SessionState::Streaming
                },
                Some(Err(ErrorView::OpenAI(_))) => SessionState::UpstreamRejected,
                Some(Err(ErrorView::Internal(InternalErrorView::SerializationError(_)))) =>
                    SessionState::ParseFailed,
                Some(Err(ErrorView::Internal(_))) => SessionState::TransportFailed,
            }
        }
    }

    /// The state after a failure of the given kind.
    fn after_error(self, e: &Error) -> (next: SessionState)
        ensures
            next == self.after(Some(Err(e.deep_view()))),
    {
        match self {
            SessionState::TransportFailed
            | SessionState::ParseFailed
            | SessionState::UpstreamRejected => self,
            _ => match e {
                Error::OpenAI(_) => SessionState::UpstreamRejected,
                Error::Internal(InternalError::SerializationError(_)) => SessionState::ParseFailed,
                Error::Internal(_) => SessionState::TransportFailed,
            },
        }
    }

    /// The state after an update that finishes the stream (`done`) or not.
    fn after_update(self, done: bool) -> (next: SessionState)
        ensures
            forall|update: ChatCompletionDeltaView|
                finishes(update) == done ==> next == #[trigger] self.after(Some(Ok(update))),
    {
        match self {
            SessionState::TransportFailed
            | SessionState::ParseFailed
            | SessionState::UpstreamRejected
            | SessionState::Completed => self,
            _ => if done {
                SessionState::Completed
            } else {
                SessionState::Streaming
            },
        }
    }

    /// The state after the end of the stream.
    fn after_end(self) -> (next: SessionState)
        ensures
            next == self.after(None),
    {
        match self {
            SessionState::TransportFailed
            | SessionState::ParseFailed
            | SessionState::UpstreamRejected => self,
            _ => SessionState::Completed,
        }
    }
}

/// What a selective read has come to after one more item of the channel.
#[derive(Debug)]
pub enum Progress<T> {
    /// Nothing to hand out yet: the next item has to be received.
    Pending,
    /// The read is over, with this outcome.
    Ready(T),
}

/// The consuming side of a session: the updates seen so far, in arrival
/// order, where the session stands, and the prompt's token count fixed when
/// the session began.
///
/// The channel itself stays with the caller, who receives each item and
/// hands it to one of the `receive` operations. An item is `None` when the
/// channel is closed, else what the producer sent. The history only grows,
/// by the updates received, and accumulation uses the receiver up.
pub struct DeltaReceiver {
    deltas: Vec<ChatCompletionDelta>,
    state: SessionState,
    usage: u64,
}

impl DeltaReceiver {
    /// The updates recorded so far, in arrival order.
    pub closed spec fn history(&self) -> Seq<ChatCompletionDeltaView> {
        self.deltas.deep_view()
    }

    /// Where the session stands.
    pub closed spec fn session(&self) -> SessionState {
        self.state
    }

    /// The prompt's token count.
    pub closed spec fn prompt_tokens(&self) -> u64 {
        self.usage
    }

    /// Whether this receiver is `before` after one more receive that gave
    /// `item`.
    pub open spec fn follows(&self, before: &DeltaReceiver, item: Option<ItemView>) -> bool {
        &&& self.history() == recorded(before.history(), item)
        &&& self.session() == before.session().after(item)
        &&& self.prompt_tokens() == before.prompt_tokens()
    }

    /// A receiver with an empty history for a session whose prompt took
    /// `usage` tokens.
    pub fn from(usage: u64) -> (receiver: DeltaReceiver)
        ensures
            receiver.history() == Seq::<ChatCompletionDeltaView>::empty(),
            receiver.session() == SessionState::Idle,
            receiver.prompt_tokens() == usage,
    {
        let receiver = DeltaReceiver { deltas: Vec::new(), state: SessionState::Idle, usage };
        assert(receiver.history() =~= Seq::empty());
        receiver
    }

    /// The updates recorded so far, in arrival order.
    pub fn deltas(&self) -> (deltas: &Vec<ChatCompletionDelta>)
        ensures
            deltas.deep_view() == self.history(),
    {
        &self.deltas
    }

    /// Where the session stands.
    pub fn state(&self) -> (state: SessionState)
        ensures
            state == self.session(),
    {
        self.state
    }

    /// The prompt's token count.
    pub fn usage(&self) -> (usage: u64)
        ensures
            usage == self.prompt_tokens(),
    {
        self.usage
    }

    /// Appends an update to the history.
    fn record(&mut self, update: ChatCompletionDelta)
        ensures
            final(self).follows(old(self), Some(Ok(update@))),
    {
        let done = update.is_final();
        self.state = self.state.after_update(done);
        self.deltas.push(update);
        assert(self.history() =~= old(self).history().push(update@));
    }

    /// Notes an error item.
    fn fail(&mut self, e: &Error)
        ensures
            final(self).follows(old(self), Some(Err(e.deep_view()))),
    {
        self.state = self.state.after_error(e);
    }

    /// Notes the end of the stream.
    fn close(&mut self)
        ensures
            final(self).follows(old(self), None),
    {
        self.state = self.state.after_end();
    }

    /// Takes the next item of the channel: an update is recorded and handed
    /// back, the end of the stream gives `Ok(None)`, and an error item is
    /// passed on unchanged.
    pub fn receive(&mut self, item: Option<UtilsResult<ChatCompletionDelta>>) -> (result:
        UtilsResult<Option<ChatCompletionDelta>>)
        ensures
            final(self).follows(old(self), incoming(item)),
            match item {
                None => result matches Ok(None),
                Some(Err(e)) => result matches Err(passed) && passed == e,
                Some(Ok(update)) => result matches Ok(Some(copy)) && copy@ == update@,
            },
    {
        match item {
            None => {
                self.close();
                Ok(None)
            },
            Some(Err(e)) => {
                self.fail(&e);
                Err(e)
            },
            Some(Ok(update)) => {
                let copy = update.clone();
                self.record(update);
                Ok(Some(copy))
            },
        }
    }

    /// Takes the next item of the channel while looking for content of the
    /// choice `choice_index`. An update is recorded whatever it holds; the
    /// read is over when it reveals content for that choice, when the
    /// stream ends, or on an error item, which is passed on unchanged.
    pub fn receive_content(
        &mut self,
        choice_index: i64,
        item: Option<UtilsResult<ChatCompletionDelta>>,
    ) -> (result: Progress<UtilsResult<Option<String>>>)
        ensures
            final(self).follows(old(self), incoming(item)),
            match item {
                None => result matches Progress::Ready(Ok(None)),
                Some(Err(e)) => result matches Progress::Ready(Err(passed)) && passed == e,
                Some(Ok(update)) => match content_for(update@.choices, choice_index) {
                    Some(text) => result matches Progress::Ready(Ok(Some(content))) && content@
                        == text,
                    None => result is Pending,
                },
            },
    {
        match item {
            None => {
                self.close();
                Progress::Ready(Ok(None))
            },
            Some(Err(e)) => {
                self.fail(&e);
                Progress::Ready(Err(e))
            },
            Some(Ok(update)) => {
                let found = content_in(&update.choices, choice_index);
                self.record(update);
                match found {
                    Some(content) => Progress::Ready(Ok(Some(content))),
                    None => Progress::Pending,
                }
            },
        }
    }

    /// Takes the next item of the channel into the history and hands it
    /// back; the same reading as `receive`, used when draining a stream.
    pub fn receive_all(&mut self, item: Option<UtilsResult<ChatCompletionDelta>>) -> (result:
        UtilsResult<Option<ChatCompletionDelta>>)
        ensures
            final(self).follows(old(self), incoming(item)),
            match item {
                None => result matches Ok(None),
                Some(Err(e)) => result matches Err(passed) && passed == e,
                Some(Ok(update)) => result matches Ok(Some(copy)) && copy@ == update@,
            },
    {
        self.receive(item)
    }

    /// One step of draining the stream before accumulation. An update is
    /// recorded; draining is over when the update finishes the stream, when
    /// the stream ends, or on an error item, which is passed on unchanged.
    pub fn drain(&mut self, item: Option<UtilsResult<ChatCompletionDelta>>) -> (result: Progress<
        UtilsResult<()>,
    >)
        ensures
            final(self).follows(old(self), incoming(item)),
            match item {
                None => result matches Progress::Ready(Ok(_)),
                Some(Err(e)) => result matches Progress::Ready(Err(passed)) && passed == e,
                Some(Ok(update)) => if finishes(update@) {
                    result matches Progress::Ready(Ok(_))
                } else {
                    result is Pending
                },
            },
    {
        match item {
            None => {
                self.close();
                Progress::Ready(Ok(()))
            },
            Some(Err(e)) => {
                self.fail(&e);
                Progress::Ready(Err(e))
            },
            Some(Ok(update)) => {
                let done = update.is_final();
                self.record(update);
                if done {
                    Progress::Ready(Ok(()))
                } else {
                    Progress::Pending
                }
            },
        }
    }

    /// Folds the recorded history into one complete chat and ends the
    /// session: the receiver is used up.
    ///
    /// The choices are the reconstruction of the history. Identity, creation
    /// time and model are those of the first update. `estimate` is asked
    /// once for the message of each choice, in order; the completion tokens
    /// are the sum of its answers, the prompt tokens are those the session
    /// began with, and the total is their sum. A history that cannot be
    /// reconstructed fails with the reconstruction's error, and a total that
    /// does not fit in 64 bits with `TokenCountOverflow`.
    pub fn construct_chat<F: Fn(&Message) -> u64>(self, estimate: F) -> (result: Result<
        ChatCompletion,
        InternalError,
    >)
        requires
            forall|message: &Message| estimate.requires((message,)),
        ensures
            self.history().len() == 0 <==> result matches Err(InternalError::NoDeltasReceived),
            match result {
                Ok(chat) => {
                    &&& self.history().len() > 0
                    &&& reconstruction(self.history()) == Ok::<Seq<ChoiceView>, InternalError>(
                        chat@.choices,
                    )
                    &&& chat@.id == self.history()[0].id
                    &&& chat@.object == self.history()[0].object
                    &&& chat@.created == self.history()[0].created
                    &&& chat@.model == self.history()[0].model
                    &&& chat.usage.prompt_tokens == self.prompt_tokens()
                    &&& chat.usage.balanced()
                    &&& exists|counts: Seq<u64>|
                        #[trigger] estimated(estimate, chat.choices@, counts)
                            && chat.usage.completion_tokens == total(counts)
                },
                Err(e) => match reconstruction(self.history()) {
                    Err(cause) => e == cause,
                    Ok(views) => {
                        &&& e == InternalError::TokenCountOverflow
                        &&& exists|choices: Vec<Choice>, counts: Seq<u64>|
                            choices.deep_view() == views && #[trigger] estimated(
                                estimate,
                                choices@,
                                counts,
                            ) && self.prompt_tokens() + total(counts) > u64::MAX
                    },
                },
            },
    {
        let choices = match reconstruct_choices(&self.deltas) {
            Ok(choices) => choices,
            Err(e) => {
                return Err(e);
            },
        };
        let counts = estimate_each(&choices, &estimate);
        match Usage::tally(self.usage, &counts) {
            None => {
                assert(estimated(estimate, choices@, counts@));
                Err(InternalError::TokenCountOverflow)
            },
            Some(usage) => {
                let ghost gathered = choices@;
                let result = assemble_chat(&self.deltas, choices, usage);
                proof {
                    if let Ok(chat) = &result {
                        assert(estimated(estimate, gathered, counts@));
                        assert(chat.choices@ == gathered);
                    }
                }
                result
            },
        }
    }
}

impl ChatCompletionDelta {
    /// Whether this update finishes the stream for the purpose of
    /// accumulation.
    pub fn is_final(&self) -> (done: bool)
        ensures
            done == finishes(self@),
    {
        let mut k: usize = 0;
        while k < self.choices.len()
            invariant
                k <= self.choices.len(),
                forall|i: int| 0 <= i < k ==> !decisive(#[trigger] self@.choices[i]),
            decreases self.choices.len() - k,
        {
            let fragment = &self.choices[k];
            assert(self@.choices[k as int] == fragment@);
            if fragment.index == DECISIVE_CHOICE && fragment.finish_reason.is_some() {
                return true;
            }
            k += 1;
        }
        false
    }
}

/// The content that `fragments` reveal for the choice `index`.
fn content_in(fragments: &Vec<ChoiceDelta>, index: i64) -> (found: Option<String>)
    ensures
        found.deep_view() == content_for(fragments.deep_view(), index),
{
    let mut k: usize = 0;
    assert(fragments.deep_view().skip(0) =~= fragments.deep_view());
    while k < fragments.len()
        invariant
            k <= fragments.len(),
            content_for(fragments.deep_view(), index) == content_for(
                fragments.deep_view().skip(k as int),
                index,
            ),
        decreases fragments.len() - k,
    {
        let fragment = &fragments[k];
        proof {
            let rest = fragments.deep_view().skip(k as int);
            assert(rest.first() == fragment@);
            assert(rest.drop_first() =~= fragments.deep_view().skip(k + 1));
        }
        if fragment.index == index {
            match &fragment.delta.content {
                Some(content) => {
                    return Some(content.clone());
                },
                None => {},
            }
        }
        k += 1;
    }
    None
}

} // verus!
