use openai_utils::chat_completion_delta::{Progress, SessionState};
use openai_utils::error::{Error, InternalError, OpenAIError};
use openai_utils::forward::{
    after_send, forward_event, forward_stream, Ending, Forward, SourceEvent, CHANNEL_CAPACITY,
};
use openai_utils::{ChatDelta, ChoiceDelta, Delta, DeltaReceiver, Message};

fn payload(index: i64, role: Option<&str>, content: Option<&str>, finish: Option<&str>) -> String {
    let quoted = |text: Option<&str>| match text {
        Some(text) => format!("\"{}\"", text),
        None => "null".to_string(),
    };
    format!(
        "{{\"id\":\"chatcmpl-1\",\"object\":\"chat.completion.chunk\",\"created\":1700000000,\"model\":\"gpt-3.5-turbo\",\"choices\":[{{\"index\":{},\"delta\":{{\"role\":{},\"content\":{}}},\"finish_reason\":{}}}]}}",
        index,
        quoted(role),
        quoted(content),
        quoted(finish)
    )
}

fn message(index: i64, role: Option<&str>, content: Option<&str>, finish: Option<&str>) -> SourceEvent {
    SourceEvent::Message(payload(index, role, content, finish))
}

fn done() -> SourceEvent {
    SourceEvent::Message("[DONE]".to_string())
}

fn update(fragments: Vec<(i64, Option<&str>, Option<&str>)>) -> ChatDelta {
    ChatDelta {
        id: "id".to_string(),
        object: "chat.completion.chunk".to_string(),
        created: 1,
        model: "m".to_string(),
        choices: fragments
            .into_iter()
            .map(|(index, content, finish)| ChoiceDelta {
                index,
                delta: Delta { role: None, content: content.map(str::to_string), function_call: None },
                finish_reason: finish.map(str::to_string),
            })
            .collect(),
    }
}

fn transport_error() -> Error {
    Error::Internal(InternalError::EventSourceError("connection reset".to_string()))
}

fn parse_error() -> Error {
    Error::Internal(InternalError::SerializationError("<html>".to_string()))
}

fn rejection() -> Error {
    Error::OpenAI(OpenAIError::ApiError {
        message: "no".to_string(),
        error_type: "t".to_string(),
        param: None,
        code: None,
    })
}

fn words(message: &Message) -> u64 {
    match &message.content {
        Some(text) => text.split_whitespace().count() as u64,
        None => 0,
    }
}

#[test]
fn sentinel_finishes_the_stream() {
    assert!(matches!(forward_event(&done()), Forward::Finish));
}

#[test]
fn opening_gives_nothing() {
    assert!(matches!(forward_event(&SourceEvent::Open), Forward::Skip));
}

#[test]
fn message_with_an_update_is_sent() {
    match forward_event(&message(0, Some("assistant"), Some("Hel"), None)) {
        Forward::Send(Ok(update)) => {
            assert_eq!(update.choices[0].delta.content.as_deref(), Some("Hel"));
            assert_eq!(update.choices[0].delta.role.as_deref(), Some("assistant"));
        }
        other => panic!("unexpected: {:?}", other),
    }
}

#[test]
fn message_with_a_rejection_is_sent_as_an_error() {
    let event = SourceEvent::Message(
        r#"{"error":{"message":"overloaded","type":"server_error"}}"#.to_string(),
    );
    match forward_event(&event) {
        Forward::Send(Err(Error::OpenAI(OpenAIError::ApiError { message, error_type, .. }))) => {
            assert_eq!(message, "overloaded");
            assert_eq!(error_type, "server_error");
        }
        other => panic!("unexpected: {:?}", other),
    }
}

#[test]
fn malformed_message_is_sent_as_a_parse_error() {
    match forward_event(&SourceEvent::Message("[DONE] ".to_string())) {
        Forward::Send(Err(Error::Internal(InternalError::SerializationError(kept)))) => {
            assert_eq!(kept, "[DONE] ")
        }
        other => panic!("unexpected: {:?}", other),
    }
}

#[test]
fn transport_failure_fails_the_stream() {
    match forward_event(&SourceEvent::Failed("connection reset".to_string())) {
        Forward::Fail(Error::Internal(InternalError::EventSourceError(report))) => {
            assert_eq!(report, "connection reset")
        }
        other => panic!("unexpected: {:?}", other),
    }
}

#[test]
fn sentinel_after_three_updates_leaves_three_entries() {
    let events = vec![
        SourceEvent::Open,
        message(0, Some("assistant"), None, None),
        message(0, None, Some("Hel"), None),
        message(0, None, Some("lo"), Some("stop")),
        done(),
        message(0, None, Some("never seen"), None),
    ];
    let (items, ending) = forward_stream(&events);
    assert_eq!(ending, Ending::Finished);
    assert_eq!(items.len(), 3);
    let mut receiver = DeltaReceiver::from(9);
    for item in items {
        assert!(receiver.receive_all(Some(item)).unwrap().is_some());
    }
    assert!(receiver.receive_all(None).unwrap().is_none());
    assert_eq!(receiver.deltas().len(), 3);
    assert_eq!(receiver.state(), SessionState::Completed);
    let chat = receiver.construct_chat(words).unwrap();
    assert_eq!(chat.choices.len(), 1);
    assert_eq!(chat.choices[0].message.role, "assistant");
    assert_eq!(chat.choices[0].message.content.as_deref(), Some("Hello"));
    assert_eq!(chat.choices[0].finish_reason, "stop");
    assert_eq!(chat.usage.prompt_tokens, 9);
    assert_eq!(chat.usage.completion_tokens, 1);
    assert_eq!(chat.usage.total_tokens, 10);
}

#[test]
fn sentinel_alone_leaves_no_entries() {
    let (items, ending) = forward_stream(&vec![done()]);
    assert_eq!(ending, Ending::Finished);
    assert!(items.is_empty());
}

#[test]
fn stream_without_sentinel_is_exhausted() {
    let events = vec![SourceEvent::Open, message(0, Some("assistant"), Some("x"), None)];
    let (items, ending) = forward_stream(&events);
    assert_eq!(ending, Ending::Exhausted);
    assert_eq!(items.len(), 1);
    let (items, ending) = forward_stream(&vec![]);
    assert_eq!(ending, Ending::Exhausted);
    assert!(items.is_empty());
}

#[test]
fn every_message_gives_one_item() {
    let events = vec![
        message(0, Some("assistant"), Some("a"), None),
        SourceEvent::Message("garbage".to_string()),
        SourceEvent::Message(r#"{"error":{"message":"no","type":"t"}}"#.to_string()),
        message(1, None, Some("b"), None),
        done(),
    ];
    let (items, ending) = forward_stream(&events);
    assert_eq!(ending, Ending::Finished);
    assert_eq!(items.len(), 4);
    assert!(items[0].is_ok());
    assert!(matches!(items[1], Err(Error::Internal(InternalError::SerializationError(_)))));
    assert!(matches!(items[2], Err(Error::OpenAI(_))));
    assert!(items[3].is_ok());
}

#[test]
fn transport_failure_is_the_last_item() {
    let events = vec![
        message(0, Some("assistant"), Some("a"), None),
        SourceEvent::Failed("broken pipe".to_string()),
        message(0, None, Some("b"), None),
        done(),
    ];
    let (items, ending) = forward_stream(&events);
    assert_eq!(ending, Ending::Failed);
    assert_eq!(items.len(), 2);
    assert!(items[0].is_ok());
    match &items[1] {
        Err(Error::Internal(InternalError::EventSourceError(report))) => {
            assert_eq!(report, "broken pipe")
        }
        other => panic!("unexpected: {:?}", other),
    }
}

#[test]
fn receiver_starts_idle_and_empty() {
    let receiver = DeltaReceiver::from(5);
    assert_eq!(receiver.state(), SessionState::Idle);
    assert_eq!(receiver.usage(), 5);
    assert!(receiver.deltas().is_empty());
}

#[test]
fn receive_records_and_hands_back_the_update() {
    let mut receiver = DeltaReceiver::from(0);
    let got = receiver.receive(Some(Ok(update(vec![(0, Some("a"), None)])))).unwrap().unwrap();
    assert_eq!(got.choices[0].delta.content.as_deref(), Some("a"));
    assert_eq!(receiver.deltas().len(), 1);
    assert_eq!(receiver.deltas()[0].choices[0].delta.content.as_deref(), Some("a"));
    assert_eq!(receiver.state(), SessionState::Streaming);
    let got = receiver.receive(Some(Ok(update(vec![(1, Some("b"), None)])))).unwrap().unwrap();
    assert_eq!(got.choices[0].index, 1);
    assert_eq!(receiver.deltas().len(), 2);
    assert_eq!(receiver.deltas()[1].choices[0].delta.content.as_deref(), Some("b"));
}

#[test]
fn receive_at_the_end_of_the_stream() {
    let mut receiver = DeltaReceiver::from(0);
    receiver.receive(Some(Ok(update(vec![(0, Some("a"), None)])))).unwrap();
    assert!(receiver.receive(None).unwrap().is_none());
    assert_eq!(receiver.deltas().len(), 1);
    assert_eq!(receiver.state(), SessionState::Completed);
}

#[test]
fn receive_passes_errors_on_and_records_nothing() {
    let mut receiver = DeltaReceiver::from(0);
    match receiver.receive(Some(Err(rejection()))) {
        Err(Error::OpenAI(OpenAIError::ApiError { message, .. })) => assert_eq!(message, "no"),
        other => panic!("unexpected: {:?}", other),
    }
    assert!(receiver.deltas().is_empty());
    assert_eq!(receiver.state(), SessionState::UpstreamRejected);
}

#[test]
fn failures_set_the_state_by_their_kind_and_stay() {
    let mut receiver = DeltaReceiver::from(0);
    assert!(receiver.receive_all(Some(Err(transport_error()))).is_err());
    assert_eq!(receiver.state(), SessionState::TransportFailed);
    assert!(receiver.receive_all(Some(Err(parse_error()))).is_err());
    assert_eq!(receiver.state(), SessionState::TransportFailed);
    assert!(receiver.receive_all(None).unwrap().is_none());
    assert_eq!(receiver.state(), SessionState::TransportFailed);
    receiver.receive_all(Some(Ok(update(vec![(0, Some("late"), Some("stop"))])))).unwrap();
    assert_eq!(receiver.state(), SessionState::TransportFailed);
    assert_eq!(receiver.deltas().len(), 1);

    let mut receiver = DeltaReceiver::from(0);
    receiver.receive_all(Some(Ok(update(vec![(0, Some("a"), None)])))).unwrap();
    assert!(receiver.receive_all(Some(Err(parse_error()))).is_err());
    assert_eq!(receiver.state(), SessionState::ParseFailed);
    assert_eq!(receiver.deltas().len(), 1);
}

#[test]
fn finishing_update_completes_the_session() {
    let mut receiver = DeltaReceiver::from(0);
    receiver.receive(Some(Ok(update(vec![(0, Some("a"), None), (1, None, Some("stop"))])))).unwrap();
    assert_eq!(receiver.state(), SessionState::Streaming);
    receiver.receive(Some(Ok(update(vec![(0, None, Some("stop"))])))).unwrap();
    assert_eq!(receiver.state(), SessionState::Completed);
    receiver.receive(Some(Ok(update(vec![(1, Some("b"), None)])))).unwrap();
    assert_eq!(receiver.state(), SessionState::Completed);
    assert_eq!(receiver.deltas().len(), 3);
}

#[test]
fn update_is_final_by_the_finish_of_choice_zero_only() {
    assert!(update(vec![(0, None, Some("stop"))]).is_final());
    assert!(update(vec![(5, None, Some("length")), (0, None, Some("stop"))]).is_final());
    assert!(update(vec![(0, None, None), (0, Some("x"), Some("stop"))]).is_final());
    assert!(!update(vec![(5, None, Some("length")), (0, None, None)]).is_final());
    assert!(!update(vec![(0, None, None), (1, None, Some("stop"))]).is_final());
    assert!(!update(vec![(1, None, Some("stop"))]).is_final());
    assert!(!update(vec![]).is_final());
}

#[test]
fn content_is_found_for_the_choice_asked_for() {
    let mut receiver = DeltaReceiver::from(0);
    let first = update(vec![(1, Some("other"), None), (0, None, None)]);
    assert!(matches!(receiver.receive_content(0, Some(Ok(first))), Progress::Pending));
    assert_eq!(receiver.deltas().len(), 1);
    let second = update(vec![(1, Some("other"), None), (0, Some("mine"), None), (0, Some("later"), None)]);
    match receiver.receive_content(0, Some(Ok(second))) {
        Progress::Ready(Ok(Some(content))) => assert_eq!(content, "mine"),
        other => panic!("unexpected: {:?}", other),
    }
    assert_eq!(receiver.deltas().len(), 2);
    assert_eq!(receiver.deltas()[0].choices[0].delta.content.as_deref(), Some("other"));
}

#[test]
fn content_read_ends_with_the_stream_or_an_error() {
    let mut receiver = DeltaReceiver::from(0);
    assert!(matches!(receiver.receive_content(0, None), Progress::Ready(Ok(None))));
    assert!(receiver.deltas().is_empty());
    assert_eq!(receiver.state(), SessionState::Completed);
    let mut receiver = DeltaReceiver::from(0);
    match receiver.receive_content(0, Some(Err(transport_error()))) {
        Progress::Ready(Err(Error::Internal(InternalError::EventSourceError(report)))) => {
            assert_eq!(report, "connection reset")
        }
        other => panic!("unexpected: {:?}", other),
    }
    assert!(receiver.deltas().is_empty());
}

#[test]
fn empty_content_counts_as_content() {
    let mut receiver = DeltaReceiver::from(0);
    match receiver.receive_content(2, Some(Ok(update(vec![(2, Some(""), None)])))) {
        Progress::Ready(Ok(Some(content))) => assert_eq!(content, ""),
        other => panic!("unexpected: {:?}", other),
    }
}

#[test]
fn draining_goes_on_until_the_first_choice_finishes() {
    let mut receiver = DeltaReceiver::from(0);
    assert!(matches!(
        receiver.drain(Some(Ok(update(vec![(0, Some("a"), None)])))),
        Progress::Pending
    ));
    assert!(matches!(
        receiver.drain(Some(Ok(update(vec![(0, None, None), (1, None, Some("stop"))])))),
        Progress::Pending
    ));
    assert!(matches!(receiver.drain(Some(Ok(update(vec![])))), Progress::Pending));
    assert!(matches!(
        receiver.drain(Some(Ok(update(vec![(0, Some("b"), Some("stop"))])))),
        Progress::Ready(Ok(()))
    ));
    assert_eq!(receiver.deltas().len(), 4);
    assert_eq!(receiver.state(), SessionState::Completed);
}

#[test]
fn draining_ends_with_the_stream_or_an_error() {
    let mut receiver = DeltaReceiver::from(0);
    assert!(matches!(receiver.drain(None), Progress::Ready(Ok(()))));
    let mut receiver = DeltaReceiver::from(0);
    assert!(matches!(
        receiver.drain(Some(Err(parse_error()))),
        Progress::Ready(Err(Error::Internal(InternalError::SerializationError(_))))
    ));
    assert_eq!(receiver.state(), SessionState::ParseFailed);
}

#[test]
fn a_consumer_that_is_gone_ends_the_stream_without_error() {
    assert_eq!(after_send(true), None);
    assert_eq!(after_send(false), Some(Ending::Abandoned));
}

#[test]
fn channel_holds_sixty_four_items() {
    assert_eq!(CHANNEL_CAPACITY, 64);
}

#[test]
fn a_request_that_could_not_be_sent_is_a_transport_failure() {
    let mut receiver = DeltaReceiver::from(0);
    let error = Error::Internal(InternalError::RequestBuildError("dns error".to_string()));
    match receiver.receive(Some(Err(error))) {
        Err(Error::Internal(InternalError::RequestBuildError(report))) => {
            assert_eq!(report, "dns error")
        }
        other => panic!("unexpected: {:?}", other),
    }
    assert_eq!(receiver.state(), SessionState::TransportFailed);
}

#[test]
fn interleaved_content_is_read_choice_by_choice() {
    let events = vec![
        message(0, None, Some("A"), None),
        message(1, None, Some("B"), None),
        message(0, None, Some("A2"), Some("stop")),
        message(1, None, Some("B2"), Some("stop")),
        done(),
    ];
    for (choice, expected) in [(0, "AA2"), (1, "BB2")] {
        let (items, ending) = forward_stream(&events);
        assert_eq!(ending, Ending::Finished);
        let mut receiver = DeltaReceiver::from(0);
        let mut content = String::new();
        for item in items.into_iter().map(Some).chain([None]) {
            match receiver.receive_content(choice, item) {
                Progress::Pending => {}
                Progress::Ready(Ok(Some(piece))) => content.push_str(&piece),
                Progress::Ready(Ok(None)) => break,
                Progress::Ready(Err(e)) => panic!("unexpected: {:?}", e),
            }
        }
        assert_eq!(content, expected);
        assert_eq!(receiver.deltas().len(), 4);
    }
}
