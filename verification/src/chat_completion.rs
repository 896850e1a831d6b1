//! The complete answer that a streamed session is folded into.

use crate::{Choice, ChoiceView, Usage};
use vstd::prelude::*;

verus! {

/// A complete chat answer: identity, the reconstructed choices and the token
/// accounting.
#[derive(Debug)]
pub struct ChatCompletion {
    pub id: String,
    pub object: String,
    pub created: u64,
    pub model: String,
    pub choices: Vec<Choice>,
    pub usage: Usage,
}

/// Mathematical view of a [`ChatCompletion`].
pub struct ChatCompletionView {
    pub id: Seq<char>,
    pub object: Seq<char>,
    pub created: u64,
    pub model: Seq<char>,
    pub choices: Seq<ChoiceView>,
    pub usage: Usage,
}

impl View for ChatCompletion {
    type V = ChatCompletionView;

    open spec fn view(&self) -> ChatCompletionView {
        ChatCompletionView {
            id: self.id@,
            object: self.object@,
            created: self.created,
            model: self.model@,
            choices: self.choices.deep_view(),
            usage: self.usage,
        }
    }
}

impl DeepView for ChatCompletion {
    type V = ChatCompletionView;

    open spec fn deep_view(&self) -> ChatCompletionView {
        self@
    }
}

impl Clone for ChatCompletion {
    fn clone(&self) -> (copy: Self)
        ensures
            copy@ == self@,
    {
        let choices = self.choices.clone();
        assert(choices.deep_view() =~= self.choices.deep_view());
        ChatCompletion {
            id: self.id.clone(),
            object: self.object.clone(),
            created: self.created,
            model: self.model.clone(),
            choices,
            usage: self.usage,
        }
    }
}

} // verus!
