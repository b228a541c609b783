//! Response shapes of the completion and account endpoints, the choice of schema from a
//! model name, and the answer normalised from a decoded body.
use vstd::prelude::*;
use vstd::string::*;
use crate::text::{contains_chars, contains_seq, same_chars};

verus! {

/// The part of a model name that marks the reasoning family.
pub const REASONING_MARKER: &'static str = "DeepSeek-R1";

/// A model outside that family that also answers with a reasoning trace.
pub const REASONING_MODEL: &'static str = "Qwen/QwQ-32B";

/// The fields that every completion envelope carries.
pub struct ChatCompletionBase {
    pub id: String,
    pub object: String,
    pub created: u64,
    pub model: String,
    pub usage: Usage,
    pub system_fingerprint: String,
}

/// The account-info envelope.
pub struct UserProFile {
    pub code: u32,
    pub message: String,
    pub status: bool,
    pub data: UserData,
}

/// The answer of one completion call: the primary text, and the reasoning trace when the
/// reasoning schema was used.
pub struct RequestResponse {
    pub message: String,
    pub reason_message: Option<String>,
    pub reason: bool,
}

impl RequestResponse {
    /// `reason` tells exactly whether a reasoning trace is present.
    pub open spec fn wf(&self) -> bool {
        self.reason == self.reason_message is Some
    }

    pub fn new(message: String, reason_message: Option<String>) -> (r: Self)
        ensures
            r.wf(),
            r.message == message,
            r.reason_message == reason_message,
    {
        let reason = reason_message.is_some();
        Self { message, reason_message, reason }
    }
}

/// Which response schema a model answers with.
pub enum ChatCompletions {
    ReasonChatCompletion,
    GeneralCompletions,
}

/// A completion without a reasoning trace.
pub struct GeneralCompletions {
    pub id: String,
    pub object: String,
    pub created: u64,
    pub model: String,
    pub choices: Vec<GeneralChoice>,
    pub usage: Usage,
    pub system_fingerprint: Option<String>,
}

pub struct GeneralChoice {
    pub index: u32,
    pub message: GeneralMessage,
    pub finish_reason: String,
}

pub struct GeneralMessage {
    pub role: String,
    pub content: String,
}

/// A completion whose message carries a reasoning trace beside the answer.
pub struct ReasonChatCompletion {
    pub id: String,
    pub object: String,
    pub created: u64,
    pub model: String,
    pub choices: Vec<ReasonChoice>,
    pub usage: Usage,
    pub system_fingerprint: Option<String>,
}

pub struct ReasonChoice {
    pub index: u32,
    pub message: ReasonMessage,
    pub finish_reason: String,
}

pub struct ReasonMessage {
    pub role: String,
    pub content: String,
    pub reasoning_content: String,
}

pub struct Usage {
    pub prompt_tokens: u32,
    pub completion_tokens: u32,
    pub total_tokens: u32,
}

/// The account data of the account-info envelope.
pub struct UserData {
    pub id: String,
    pub name: String,
    pub image: String,
    pub email: String,
    pub is_admin: bool,
    pub balance: String,
    pub status: String,
    pub introduction: String,
    pub role: String,
    pub charge_balance: String,
    pub total_balance: String,
    pub category: String,
}

impl UserData {
    /// The account as shown to the user: name, e-mail, granted balance, status and total
    /// balance, one per line.
    pub fn summary(&self) -> (r: String)
        ensures
            r@ == "用户名: "@ + self.name@ + "\n邮箱: "@ + self.email@ + "\n赠送余额: "@
                + self.balance@ + "\n状态: "@ + self.status@ + "\n总余额: "@
                + self.total_balance@,
    {
        let mut out = String::from_str("用户名: ");
        out.append(self.name.as_str());
        out.append("\n邮箱: ");
        out.append(self.email.as_str());
        out.append("\n赠送余额: ");
        out.append(self.balance.as_str());
        out.append("\n状态: ");
        out.append(self.status.as_str());
        out.append("\n总余额: ");
        out.append(self.total_balance.as_str());
        out
    }
}

/// A completion envelope whose common fields stand apart.
pub struct V3ChatCompletion {
    pub base: ChatCompletionBase,
    pub choices: Vec<V3Choice>,
}

pub struct V3Choice {
    pub index: u32,
    pub message: V3Message,
    pub finish_reason: String,
}

pub struct V3Message {
    pub role: String,
    pub content: String,
}

/// A response body that could not be read as the schema chosen for the model.
pub enum ResponseError {
    ParseResBodyError,
}

/// A decoded body, in the schema it was decoded as.
pub enum CompletionBody {
    General(GeneralCompletions),
    Reason(ReasonChatCompletion),
}

/// The model answers with a reasoning trace: its name holds the marker, or it is the one
/// other reasoning model.
pub open spec fn is_reasoning_model(model: Seq<char>) -> bool {
    contains_seq(model, REASONING_MARKER@) || model == REASONING_MODEL@
}

/// The schema that a model answers with.
pub open spec fn schema_of(model: Seq<char>) -> ChatCompletions {
    if is_reasoning_model(model) {
        ChatCompletions::ReasonChatCompletion
    } else {
        ChatCompletions::GeneralCompletions
    }
}

impl ChatCompletions {
    /// Chooses the schema from the name of the requested model.
    pub fn for_model(model: &str) -> (r: ChatCompletions)
        ensures
            r == schema_of(model@),
    {
        if contains_chars(model, REASONING_MARKER) || same_chars(model, REASONING_MODEL) {
            ChatCompletions::ReasonChatCompletion
        } else {
            ChatCompletions::GeneralCompletions
        }
    }

    pub fn is_reasoning(&self) -> (r: bool)
        ensures
            r == (*self is ReasonChatCompletion),
    {
        match self {
            ChatCompletions::ReasonChatCompletion => true,
            ChatCompletions::GeneralCompletions => false,
        }
    }
}

impl GeneralCompletions {
    /// The first choice's message, with no reasoning trace; an error where there is no choice.
    pub fn answer(&self) -> (r: Result<RequestResponse, ResponseError>)
        ensures
            r is Err <==> self.choices@.len() == 0,
            r matches Ok(a) ==> {
                &&& a.wf()
                &&& a.message@ == self.choices@[0].message.content@
                &&& a.reason_message is None
            },
    {
        if self.choices.len() == 0 {
            return Err(ResponseError::ParseResBodyError);
        }
        Ok(RequestResponse::new(self.choices[0].message.content.clone(), None))
    }
}

impl ReasonChatCompletion {
    /// The first choice's message and its reasoning trace; an error where there is no choice.
    pub fn answer(&self) -> (r: Result<RequestResponse, ResponseError>)
        ensures
            r is Err <==> self.choices@.len() == 0,
            r matches Ok(a) ==> {
                &&& a.wf()
                &&& a.message@ == self.choices@[0].message.content@
                &&& a.reason_message matches Some(t) && t@
                    == self.choices@[0].message.reasoning_content@
            },
    {
        if self.choices.len() == 0 {
            return Err(ResponseError::ParseResBodyError);
        }
        let m = &self.choices[0].message;
        Ok(RequestResponse::new(m.content.clone(), Some(m.reasoning_content.clone())))
    }
}

/// The schema that a decoded body was read as.
pub open spec fn schema_of_body(body: CompletionBody) -> ChatCompletions {
    match body {
        CompletionBody::General(_) => ChatCompletions::GeneralCompletions,
        CompletionBody::Reason(_) => ChatCompletions::ReasonChatCompletion,
    }
}

/// The body has at least one choice.
pub open spec fn has_choice(body: CompletionBody) -> bool {
    match body {
        CompletionBody::General(g) => g.choices@.len() > 0,
        CompletionBody::Reason(c) => c.choices@.len() > 0,
    }
}

/// The normalised answer of a completion to `model`. The schema comes from the requested
/// model alone: a body of the other schema is refused, as is a body without a choice.
pub fn normalize_answer(model: &str, body: &CompletionBody) -> (r: Result<
    RequestResponse,
    ResponseError,
>)
    ensures
        r is Ok <==> schema_of_body(*body) == schema_of(model@) && has_choice(*body),
        r matches Ok(a) ==> {
            &&& a.wf()
            &&& a.reason == is_reasoning_model(model@)
            &&& match *body {
                CompletionBody::General(g) => a.message@ == g.choices@[0].message.content@,
                CompletionBody::Reason(c) => {
                    &&& a.message@ == c.choices@[0].message.content@
                    &&& a.reason_message matches Some(t) && t@
                        == c.choices@[0].message.reasoning_content@
                },
            }
        },
{
    let schema = ChatCompletions::for_model(model);
    match body {
        CompletionBody::General(g) => {
            if schema.is_reasoning() {
                Err(ResponseError::ParseResBodyError)
            } else {
                g.answer()
            }
        },
        CompletionBody::Reason(c) => {
            if schema.is_reasoning() {
                c.answer()
            } else {
                Err(ResponseError::ParseResBodyError)
            }
        },
    }
}

} // verus!
