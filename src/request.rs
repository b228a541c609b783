//! The body of a chat-completion request.
use vstd::prelude::*;
use vstd::string::*;
use crate::text::{is_blank, is_blank_str};

verus! {

/// One message of the conversation sent to the model.
pub struct ChatMessage {
    pub role: String,
    pub content: String,
}

/// A completion request: never streamed.
pub struct ChatRequest {
    pub model: String,
    pub messages: Vec<ChatMessage>,
    pub stream: bool,
}

/// `r` asks `model` about `question`, unstreamed: a system message with the hint first,
/// where the hint holds more than white space, then the question as the user's message.
pub open spec fn is_request_for(
    r: ChatRequest,
    model: Seq<char>,
    hint: Seq<char>,
    question: Seq<char>,
) -> bool {
    &&& r.model@ == model
    &&& !r.stream
    &&& r.messages@.len() == (if is_blank(hint) { 1int } else { 2int })
    &&& !is_blank(hint) ==> r.messages@[0].role@ == "system"@ && r.messages@[0].content@ == hint
    &&& r.messages@.last().role@ == "user"@
    &&& r.messages@.last().content@ == question
}

/// The request for `question` to `model`, with `hint` as its system message.
pub fn build_request(model: String, hint: String, question: String) -> (r: ChatRequest)
    ensures
        is_request_for(r, model@, hint@, question@),
{
    let mut messages: Vec<ChatMessage> = Vec::new();
    if !is_blank_str(hint.as_str()) {
        messages.push(ChatMessage { role: String::from_str("system"), content: hint });
    }
    messages.push(ChatMessage { role: String::from_str("user"), content: question });
    ChatRequest { model, messages, stream: false }
}

} // verus!
