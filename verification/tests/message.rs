use openai_utils::{
    Chat, ChatDelta, Choice, ChoiceDelta, Delta, FunctionCall, FunctionCallDelta, Message, Usage,
};

#[test]
fn new_message_has_only_a_role() {
    let message = Message::new("user");
    assert_eq!(message.role, "user");
    assert!(message.content.is_none());
    assert!(message.name.is_none());
    assert!(message.function_call.is_none());
}

#[test]
fn content_and_name_are_set_and_replaced() {
    let message = Message::new("user").with_content("first").with_name("ann");
    assert_eq!(message.role, "user");
    assert_eq!(message.content.as_deref(), Some("first"));
    assert_eq!(message.name.as_deref(), Some("ann"));
    let message = message.with_content("second").with_name("bob");
    assert_eq!(message.content.as_deref(), Some("second"));
    assert_eq!(message.name.as_deref(), Some("bob"));
    assert_eq!(message.role, "user");
}

#[test]
fn clones_keep_every_field() {
    let message = Message {
        role: "assistant".to_string(),
        content: Some("text".to_string()),
        name: Some("n".to_string()),
        function_call: Some(FunctionCall { name: "f".to_string(), arguments: "{}".to_string() }),
    };
    let copy = message.clone();
    assert_eq!(copy.role, "assistant");
    assert_eq!(copy.content.as_deref(), Some("text"));
    assert_eq!(copy.name.as_deref(), Some("n"));
    let call = copy.function_call.unwrap();
    assert_eq!(call.name, "f");
    assert_eq!(call.arguments, "{}");

    let choice = Choice { index: 4, message, finish_reason: "stop".to_string() };
    let copy = choice.clone();
    assert_eq!(copy.index, 4);
    assert_eq!(copy.finish_reason, "stop");
    assert_eq!(copy.message.content.as_deref(), Some("text"));

    let update = ChatDelta {
        id: "id".to_string(),
        object: "o".to_string(),
        created: 9,
        model: "m".to_string(),
        choices: vec![ChoiceDelta {
            index: -1,
            delta: Delta {
                role: Some("r".to_string()),
                content: None,
                function_call: Some(FunctionCallDelta {
                    name: None,
                    arguments: Some("a".to_string()),
                }),
            },
            finish_reason: Some("length".to_string()),
        }],
    };
    let copy = update.clone();
    assert_eq!(copy.id, "id");
    assert_eq!(copy.object, "o");
    assert_eq!(copy.created, 9);
    assert_eq!(copy.model, "m");
    assert_eq!(copy.choices.len(), 1);
    assert_eq!(copy.choices[0].index, -1);
    assert_eq!(copy.choices[0].delta.role.as_deref(), Some("r"));
    assert!(copy.choices[0].delta.content.is_none());
    let call = copy.choices[0].delta.function_call.as_ref().unwrap();
    assert!(call.name.is_none());
    assert_eq!(call.arguments.as_deref(), Some("a"));
    assert_eq!(copy.choices[0].finish_reason.as_deref(), Some("length"));

    let chat = Chat {
        id: "id".to_string(),
        object: "chat.completion".to_string(),
        created: 3,
        model: "m".to_string(),
        choices: vec![choice],
        usage: Usage { prompt_tokens: 1, completion_tokens: 2, total_tokens: 3 },
    };
    let copy = chat.clone();
    assert_eq!(copy.id, "id");
    assert_eq!(copy.choices.len(), 1);
    assert_eq!(copy.choices[0].message.role, "assistant");
    assert_eq!(copy.usage, chat.usage);
}

#[test]
fn key_is_required_until_it_is_set() {
    let mut credentials = openai_utils::credentials::Credentials::new();
    assert_eq!(credentials.get(), None);
    match credentials.require() {
        Err(openai_utils::error::InternalError::ConfigurationError(text)) => {
            assert_eq!(text, "API key not set")
        }
        other => panic!("unexpected: {:?}", other),
    }
    openai_utils::api_key(&mut credentials, "first key".to_string());
    assert_eq!(credentials.get().as_deref(), Some("first key"));
    openai_utils::api_key(&mut credentials, "second key".to_string());
    assert_eq!(credentials.require().unwrap(), "second key");
    assert_eq!(credentials.get().as_deref(), Some("second key"));
}
