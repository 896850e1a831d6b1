//! The producing side of a session: what to do with each event of the
//! server-sent stream.
//!
//! The stream itself is read elsewhere. Each event it yields is handed to
//! `forward_event`, which decides what goes to the consumer and whether the
//! stream is over.

use crate::chat_completion_delta::{item_view, ChatCompletionDelta, ItemView};
use crate::chat_completion_request::{parse_update, wire_item};
use crate::error::{Error, ErrorView, InternalError, InternalErrorView, UtilsResult};
use crate::wire::same_text;
use vstd::prelude::*;

verus! {

/// The payload that ends a stream.
pub open spec fn sentinel() -> Seq<char> {
    "[DONE]"@
}

/// One event of the server-sent stream.
#[derive(Debug)]
pub enum SourceEvent {
    /// The connection is open.
    Open,
    /// A message with this payload arrived.
    Message(String),
    /// The transport failed; the text is its report.
    Failed(String),
}

/// Mathematical view of a [`SourceEvent`].
pub enum SourceEventView {
    Open,
    Message(Seq<char>),
    Failed(Seq<char>),
}

impl DeepView for SourceEvent {
    type V = SourceEventView;

    open spec fn deep_view(&self) -> SourceEventView {
        match self {
            SourceEvent::Open => SourceEventView::Open,
            SourceEvent::Message(payload) => SourceEventView::Message(payload@),
            SourceEvent::Failed(report) => SourceEventView::Failed(report@),
        }
    }
}

/// What the forwarder does with one event.
#[derive(Debug)]
pub enum Forward {
    /// Nothing goes to the consumer; the stream goes on.
    Skip,
    /// The item goes to the consumer; `after_send` says what follows.
    Send(UtilsResult<ChatCompletionDelta>),
    /// The sentinel was seen: the stream is over, without error.
    Finish,
    /// The transport failed: the error goes to the consumer as the last
    /// item and the stream is over.
    Fail(Error),
}

/// Mathematical view of a [`Forward`].
pub enum ForwardView {
    Skip,
    Send(ItemView),
    Finish,
    Fail(ErrorView),
}

impl DeepView for Forward {
    type V = ForwardView;

    open spec fn deep_view(&self) -> ForwardView {
        match self {
            Forward::Skip => ForwardView::Skip,
            Forward::Send(item) => ForwardView::Send(item_view(*item)),
            Forward::Finish => ForwardView::Finish,
            Forward::Fail(e) => ForwardView::Fail(e.deep_view()),
        }
    }
}

/// What is done with `event`: the sentinel finishes the stream, any other
/// message gives exactly one item, a transport failure fails the stream
/// with an `EventSourceError` that keeps the report, and the opening of the
/// connection gives nothing.
pub open spec fn forward_of(event: SourceEventView) -> ForwardView {
    match event {
        SourceEventView::Open => ForwardView::Skip,
        SourceEventView::Message(payload) => if payload == sentinel() {
            ForwardView::Finish
        } else {
            ForwardView::Send(wire_item(payload))
        },
        SourceEventView::Failed(report) => ForwardView::Fail(
            ErrorView::Internal(InternalErrorView::EventSourceError(report)),
        ),
    }
}

/// Decides what to do with one event of the stream.
pub fn forward_event(event: &SourceEvent) -> (action: Forward)
    ensures
        action.deep_view() == forward_of(event.deep_view()),
{
    match event {
        SourceEvent::Open => Forward::Skip,
        SourceEvent::Message(payload) => {
            if same_text(payload.as_str(), "[DONE]") {
                Forward::Finish
            } else {
                Forward::Send(parse_update(payload.as_str()))
            }
        },
        SourceEvent::Failed(report) => Forward::Fail(
            Error::Internal(InternalError::EventSourceError(report.clone())),
        ),
    }
}

/// How a stream came to its end.
#[derive(Debug, Clone, Copy, PartialEq, Eq, Structural)]
pub enum Ending {
    /// The source ran dry before the sentinel.
    Exhausted,
    /// The sentinel was seen.
    Finished,
    /// The transport failed; the error is the last item.
    Failed,
    /// The consumer went away; what was left of the stream was not read.
    Abandoned,
}

impl Ending {
    /// Whether the forwarder ends with an error: only a failed transport
    /// is one.
    pub open spec fn is_error(self) -> bool {
        self is Failed
    }
}

/// How many items the channel of a session holds before sending waits for
/// the consumer.
pub const CHANNEL_CAPACITY: usize = 64;

/// What follows the sending of an item: the stream goes on (`None`) when
/// the item was delivered, and ends as abandoned, without error, when the
/// consumer is gone.
pub fn after_send(delivered: bool) -> (ending: Option<Ending>)
    ensures
        ending == if delivered {
            None::<Ending>
        } else {
            Some(Ending::Abandoned)
        },
        ending matches Some(e) ==> !e.is_error(),
{
    if delivered {
        None
    } else {
        Some(Ending::Abandoned)
    }
}

/// Everything a forwarder hands on for a stream: the items in order, and
/// how the stream ended.
pub struct Forwarded {
    pub items: Seq<ItemView>,
    pub ending: Ending,
}

/// What forwarding the events `events` hands on, with a consumer that
/// stays to the end. Events after the end of the stream are not looked at.
pub open spec fn forwarded(events: Seq<SourceEventView>) -> Forwarded
    decreases events.len(),
{
    if events.len() == 0 {
        Forwarded { items: Seq::empty(), ending: Ending::Exhausted }
    } else {
        match forward_of(events.first()) {
            ForwardView::Skip => forwarded(events.drop_first()),
            ForwardView::Send(item) => {
                let rest = forwarded(events.drop_first());
                Forwarded { items: seq![item] + rest.items, ending: rest.ending }
            },
            ForwardView::Finish => Forwarded { items: Seq::empty(), ending: Ending::Finished },
            ForwardView::Fail(e) => Forwarded { items: seq![Err(e)], ending: Ending::Failed },
        }
    }
}

/// The views of items, in order.
pub open spec fn item_views(items: Seq<UtilsResult<ChatCompletionDelta>>) -> Seq<ItemView> {
    items.map_values(|item: UtilsResult<ChatCompletionDelta>| item_view(item))
}

/// Forwards a recorded stream: the items that go to a consumer that stays
/// to the end, in order, and how the stream ended.
pub fn forward_stream(events: &Vec<SourceEvent>) -> (result: (
    Vec<UtilsResult<ChatCompletionDelta>>,
    Ending,
))
    ensures
        item_views(result.0@) == forwarded(events.deep_view()).items,
        result.1 == forwarded(events.deep_view()).ending,
{
    let ghost all = events.deep_view();
    let mut items: Vec<UtilsResult<ChatCompletionDelta>> = Vec::new();
    let mut k: usize = 0;
    assert(item_views(items@) =~= Seq::empty());
    assert(Seq::<ItemView>::empty() + forwarded(all).items =~= forwarded(all).items);
    assert(all.skip(0) =~= all);
    while k < events.len()
        invariant
            k <= events.len(),
            all == events.deep_view(),
            forwarded(all).items == item_views(items@) + forwarded(all.skip(k as int)).items,
            forwarded(all).ending == forwarded(all.skip(k as int)).ending,
        decreases events.len() - k,
    {
        let ghost sent = item_views(items@);
        proof {
            assert(all.skip(k as int).first() == events[k as int].deep_view());
            assert(all.skip(k as int).drop_first() =~= all.skip(k + 1));
        }
        match forward_event(&events[k]) {
            Forward::Skip => {},
            Forward::Send(item) => {
                items.push(item);
                proof {
                    let rest = forwarded(all.skip(k + 1)).items;
                    assert(item_views(items@) =~= sent.push(item_view(item)));
                    assert(sent + (seq![item_view(item)] + rest) =~= sent.push(item_view(item))
                        + rest);
                }
            },
            Forward::Finish => {
                assert(sent + Seq::<ItemView>::empty() =~= sent);
                return (items, Ending::Finished);
            },
            Forward::Fail(e) => {
                items.push(Err(e));
                assert(item_views(items@) =~= sent + seq![Err::<_, ErrorView>(e.deep_view())]);
                return (items, Ending::Failed);
            },
        }
        k += 1;
    }
    assert(all.skip(k as int) =~= Seq::empty());
    assert(item_views(items@) + Seq::<ItemView>::empty() =~= item_views(items@));
    (items, Ending::Exhausted)
}

} // verus!
