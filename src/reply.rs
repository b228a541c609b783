//! Turning an answer into what is sent back to the chat.
use vstd::prelude::*;
use crate::response::RequestResponse;

verus! {

/// One unit of a forwarded group: shown as sent by `user_id` under `nickname`.
pub struct ForwardNode {
    pub user_id: String,
    pub nickname: String,
    pub content: String,
}

/// A reply: a group of forwarded units, or one plain message.
pub enum Reply {
    Forward(Vec<ForwardNode>),
    Plain(String),
}

/// With forwarding on, the answer and then (only where there is one) the reasoning trace,
/// each as a unit of the given sender; with forwarding off, the answer alone.
pub fn assemble_reply(answer: &RequestResponse, forward: bool, user_id: &str, nickname: &str) -> (r:
    Reply)
    requires
        answer.wf(),
    ensures
        !forward ==> (r matches Reply::Plain(t) && t == answer.message),
        forward ==> (r matches Reply::Forward(nodes) && {
            &&& nodes@.len() == (if answer.reason { 2int } else { 1int })
            &&& nodes@[0].content == answer.message
            &&& answer.reason_message matches Some(t) ==> nodes@[1].content == t
            &&& forall|i: int|
                0 <= i < nodes@.len() ==> (#[trigger] nodes@[i]).user_id@ == user_id@
                    && nodes@[i].nickname@ == nickname@
        }),
{
    if !forward {
        return Reply::Plain(answer.message.clone());
    }
    let mut nodes: Vec<ForwardNode> = Vec::new();
    nodes.push(
        ForwardNode {
            user_id: user_id.to_owned(),
            nickname: nickname.to_owned(),
            content: answer.message.clone(),
        },
    );
    match &answer.reason_message {
        Some(t) => {
            nodes.push(
                ForwardNode {
                    user_id: user_id.to_owned(),
                    nickname: nickname.to_owned(),
                    content: t.clone(),
                },
            );
        },
        None => {},
    }
    Reply::Forward(nodes)
}

} // verus!
