use openai_utils::chat_completion_request::{
    outbound_messages, prompt_tokens, MESSAGE_OVERHEAD, REQUEST_OVERHEAD,
};
use openai_utils::error::InternalError;
use openai_utils::{ChatDelta, ChoiceDelta, Delta, DeltaReceiver, Message, Usage};

fn update(id: &str, model: &str, created: u64, fragments: Vec<(i64, Option<&str>, Option<&str>)>) -> ChatDelta {
    ChatDelta {
        id: id.to_string(),
        object: "chat.completion.chunk".to_string(),
        created,
        model: model.to_string(),
        choices: fragments
            .into_iter()
            .map(|(index, role, content)| ChoiceDelta {
                index,
                delta: Delta {
                    role: role.map(str::to_string),
                    content: content.map(str::to_string),
                    function_call: None,
                },
                finish_reason: None,
            })
            .collect(),
    }
}

fn characters(message: &Message) -> u64 {
    match &message.content {
        Some(text) => text.chars().count() as u64,
        None => 0,
    }
}

fn receiver_with(usage: u64, updates: Vec<ChatDelta>) -> DeltaReceiver {
    let mut receiver = DeltaReceiver::from(usage);
    for update in updates {
        receiver.receive_all(Some(Ok(update))).unwrap();
    }
    receiver
}

#[test]
fn tally_adds_up() {
    let usage = Usage::tally(5, &vec![1, 2, 30]).unwrap();
    assert_eq!(usage, Usage { prompt_tokens: 5, completion_tokens: 33, total_tokens: 38 });
}

#[test]
fn tally_of_nothing() {
    let usage = Usage::tally(12, &vec![]).unwrap();
    assert_eq!(usage, Usage { prompt_tokens: 12, completion_tokens: 0, total_tokens: 12 });
}

#[test]
fn tally_at_the_limit() {
    let usage = Usage::tally(1, &vec![u64::MAX - 1]).unwrap();
    assert_eq!(usage.total_tokens, u64::MAX);
    assert_eq!(usage.completion_tokens, u64::MAX - 1);
}

#[test]
fn tally_over_the_limit() {
    assert_eq!(Usage::tally(2, &vec![u64::MAX - 1]), None);
    assert_eq!(Usage::tally(0, &vec![u64::MAX, 1]), None);
    assert_eq!(Usage::tally(0, &vec![1, u64::MAX, 0]), None);
}

#[test]
fn default_usage_is_zero() {
    assert_eq!(
        Usage::default(),
        Usage { prompt_tokens: 0, completion_tokens: 0, total_tokens: 0 }
    );
}

#[test]
fn prompt_takes_overhead_per_message_and_per_request() {
    assert_eq!(REQUEST_OVERHEAD, 3);
    assert_eq!(MESSAGE_OVERHEAD, 4);
    assert_eq!(prompt_tokens(&vec![]), Some(3));
    assert_eq!(prompt_tokens(&vec![10]), Some(17));
    assert_eq!(prompt_tokens(&vec![10, 20]), Some(41));
    assert_eq!(prompt_tokens(&vec![0, 0, 0]), Some(15));
}

#[test]
fn prompt_over_the_limit() {
    assert_eq!(prompt_tokens(&vec![u64::MAX - 7]), Some(u64::MAX));
    assert_eq!(prompt_tokens(&vec![u64::MAX - 6]), None);
    assert_eq!(prompt_tokens(&vec![u64::MAX]), None);
    assert_eq!(prompt_tokens(&vec![1, u64::MAX - 11]), None);
}

#[test]
fn outbound_messages_end_with_the_system_message() {
    let conversation = vec![
        Message::new("user").with_content("hi"),
        Message::new("assistant").with_content("hello"),
    ];
    let system = Some(Message::new("system").with_content("be brief"));
    let messages = outbound_messages(&conversation, &system);
    assert_eq!(messages.len(), 3);
    assert_eq!(messages[0].role, "user");
    assert_eq!(messages[0].content.as_deref(), Some("hi"));
    assert_eq!(messages[1].role, "assistant");
    assert_eq!(messages[2].role, "system");
    assert_eq!(messages[2].content.as_deref(), Some("be brief"));
    assert_eq!(conversation.len(), 2);
}

#[test]
fn outbound_messages_without_a_system_message() {
    let conversation = vec![Message::new("user").with_content("hi")];
    let messages = outbound_messages(&conversation, &None);
    assert_eq!(messages.len(), 1);
    assert_eq!(messages[0].content.as_deref(), Some("hi"));
}

#[test]
fn chat_takes_identity_from_the_first_update() {
    let receiver = receiver_with(
        11,
        vec![
            update("first", "model-a", 100, vec![(0, Some("assistant"), Some("Hel"))]),
            update("second", "model-b", 200, vec![(0, None, Some("lo"))]),
        ],
    );
    let chat = receiver.construct_chat(characters).unwrap();
    assert_eq!(chat.id, "first");
    assert_eq!(chat.object, "chat.completion.chunk");
    assert_eq!(chat.created, 100);
    assert_eq!(chat.model, "model-a");
    assert_eq!(chat.choices.len(), 1);
    assert_eq!(chat.choices[0].message.content.as_deref(), Some("Hello"));
}

#[test]
fn total_is_prompt_plus_completion() {
    let receiver = receiver_with(
        11,
        vec![
            update("id", "m", 1, vec![(0, Some("assistant"), Some("Hel")), (1, Some("assistant"), Some("four"))]),
            update("id", "m", 1, vec![(0, None, Some("lo")), (1, None, Some("!"))]),
        ],
    );
    let chat = receiver.construct_chat(characters).unwrap();
    assert_eq!(chat.usage.prompt_tokens, 11);
    assert_eq!(chat.usage.completion_tokens, 10);
    assert_eq!(chat.usage.total_tokens, 21);
    assert_eq!(
        chat.usage.total_tokens,
        chat.usage.prompt_tokens + chat.usage.completion_tokens
    );
}

#[test]
fn estimator_is_asked_once_per_choice() {
    let receiver = receiver_with(
        0,
        vec![update(
            "id",
            "m",
            1,
            vec![(0, Some("assistant"), None), (1, Some("assistant"), None), (2, Some("assistant"), None)],
        )],
    );
    let chat = receiver.construct_chat(|_: &Message| 7).unwrap();
    assert_eq!(chat.usage.completion_tokens, 21);
    assert_eq!(chat.usage.total_tokens, 21);
}

#[test]
fn chat_of_an_empty_history_fails() {
    let receiver = DeltaReceiver::from(7);
    assert!(matches!(
        receiver.construct_chat(characters),
        Err(InternalError::NoDeltasReceived)
    ));
}

#[test]
fn chat_whose_tokens_do_not_fit_fails() {
    let receiver = receiver_with(
        1,
        vec![update("id", "m", 1, vec![(0, Some("assistant"), None)])],
    );
    assert!(matches!(
        receiver.construct_chat(|_: &Message| u64::MAX),
        Err(InternalError::TokenCountOverflow)
    ));
}

#[test]
fn chat_of_an_incomplete_history_fails_with_the_gap() {
    let receiver = receiver_with(1, vec![update("id", "m", 1, vec![(0, None, Some("x"))])]);
    assert!(matches!(
        receiver.construct_chat(characters),
        Err(InternalError::IncompleteReconstruction(
            0,
            openai_utils::error::MissingPart::Role
        ))
    ));
}
