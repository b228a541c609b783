//! The texts that answer administration commands and report failures.
use vstd::prelude::*;
use vstd::string::*;
use crate::text::{trim, trim_str};

verus! {

/// The name that every failure shown to the user starts with.
pub const PLUGIN_NAME: &'static str = "kovi-plugin-siliconflow";

pub const API_KEY_SET: &'static str = "api_key 设置成功!";

pub const HINT_SET: &'static str = "提示词设置成功!";

pub const PREFIX_MISSING: &'static str = "触发器删除失败, 原因: 该指令不存在";

pub const BAD_FORWARD: &'static str = "消息转发开关只有true和false, 你输入了意外的字符, 请重新设置";

/// How the forwarding state is named.
pub open spec fn state_text(on: bool) -> Seq<char> {
    if on {
        "开启"@
    } else {
        "关闭"@
    }
}

/// The answer to switching forwarding to `forward`: whether it changed, and its state.
pub open spec fn forward_text(forward: bool, changed: bool) -> Seq<char> {
    if changed {
        "合并转发开关设置成功, 当前合并转发开启状态为: "@ + state_text(forward)
    } else {
        "合并转发状态已"@ + state_text(forward) + ", 请勿重复操作~"@
    }
}

pub fn forward_message(forward: bool, changed: bool) -> (r: String)
    ensures
        r@ == forward_text(forward, changed),
{
    let state = if forward {
        "开启"
    } else {
        "关闭"
    };
    if changed {
        let mut out = String::from_str("合并转发开关设置成功, 当前合并转发开启状态为: ");
        out.append(state);
        out
    } else {
        let mut out = String::from_str("合并转发状态已");
        out.append(state);
        out.append(", 请勿重复操作~");
        out
    }
}

/// The echo of a prefix binding that was asked for.
pub fn prefix_set_message(prefix: &str, model: &str) -> (r: String)
    ensures
        r@ == "指令设置成功(prefix => model): "@ + prefix@ + " => "@ + model@,
{
    let mut out = String::from_str("指令设置成功(prefix => model): ");
    out.append(prefix);
    out.append(" => ");
    out.append(model);
    out
}

/// The answer to a removed binding: the prefix, white space around it dropped, and its model.
pub fn prefix_deleted_message(prefix: &str, model: &str) -> (r: String)
    ensures
        r@ == "触发器删除成功: "@ + trim(prefix@) + " => "@ + model@,
{
    let key = trim_str(prefix);
    let mut out = String::from_str("触发器删除成功: ");
    out.append(key.as_str());
    out.append(" => ");
    out.append(model);
    out
}

/// A failure as shown to the user: the plugin's name in brackets, then what went wrong.
pub fn failure_message(detail: &str) -> (r: String)
    ensures
        r@ == "["@ + PLUGIN_NAME@ + "] "@ + detail@,
{
    let mut out = String::from_str("[");
    out.append(PLUGIN_NAME);
    out.append("] ");
    out.append(detail);
    out
}

} // verus!
