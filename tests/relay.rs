use kovi_plugin_siliconflow::command::{Command, HELP};
use kovi_plugin_siliconflow::config::{Config, ConfigRecord};
use kovi_plugin_siliconflow::messages::{
    failure_message, forward_message, prefix_deleted_message, prefix_set_message,
};
use kovi_plugin_siliconflow::prefix::{PrefixRule, PrefixTable};
use kovi_plugin_siliconflow::reply::{assemble_reply, Reply};
use kovi_plugin_siliconflow::request::build_request;
use kovi_plugin_siliconflow::response::{
    normalize_answer, ChatCompletions, CompletionBody, GeneralChoice, GeneralCompletions,
    GeneralMessage, ReasonChatCompletion, ReasonChoice, ReasonMessage, RequestResponse, Usage,
    UserData,
};
use kovi_plugin_siliconflow::text::{contains_chars, is_blank_str, starts_with_chars, trim_str};

fn usage() -> Usage {
    Usage { prompt_tokens: 3, completion_tokens: 5, total_tokens: 8 }
}

fn general_body(contents: &[&str]) -> GeneralCompletions {
    GeneralCompletions {
        id: "id-1".to_string(),
        object: "chat.completion".to_string(),
        created: 1700000000,
        model: "deepseek-ai/DeepSeek-V3".to_string(),
        choices: contents
            .iter()
            .enumerate()
            .map(|(i, c)| GeneralChoice {
                index: i as u32,
                message: GeneralMessage { role: "assistant".to_string(), content: c.to_string() },
                finish_reason: "stop".to_string(),
            })
            .collect(),
        usage: usage(),
        system_fingerprint: None,
    }
}

fn reason_body(contents: &[(&str, &str)]) -> ReasonChatCompletion {
    ReasonChatCompletion {
        id: "id-2".to_string(),
        object: "chat.completion".to_string(),
        created: 1700000001,
        model: "deepseek-ai/DeepSeek-R1".to_string(),
        choices: contents
            .iter()
            .enumerate()
            .map(|(i, (c, r))| ReasonChoice {
                index: i as u32,
                message: ReasonMessage {
                    role: "assistant".to_string(),
                    content: c.to_string(),
                    reasoning_content: r.to_string(),
                },
                finish_reason: "stop".to_string(),
            })
            .collect(),
        usage: usage(),
        system_fingerprint: Some("fp".to_string()),
    }
}

fn words(s: &str) -> Vec<String> {
    s.split(' ').map(|w| w.to_string()).collect()
}

#[test]
fn default_config_has_two_seeds() {
    let cfg = Config::default();
    assert_eq!(cfg.api_key, "");
    assert_eq!(cfg.hint, "");
    assert!(cfg.forward);
    assert_eq!(cfg.prefix.len(), 2);
    assert_eq!(cfg.prefix.get("%").map(|m| m.as_str()), Some("deepseek-ai/DeepSeek-V3"));
    assert_eq!(cfg.prefix.get("%%").map(|m| m.as_str()), Some("deepseek-ai/DeepSeek-R1"));
    assert!(cfg.api_key_missing());
}

#[test]
fn dispatch_picks_longest_prefix() {
    let cfg = Config::default();
    let m = cfg.prefix.dispatch("%%hello").unwrap();
    assert_eq!(m.prefix, "%%");
    assert_eq!(m.model, "deepseek-ai/DeepSeek-R1");
    assert_eq!(m.remainder, "hello");
    let m = cfg.prefix.dispatch("%hello").unwrap();
    assert_eq!(m.prefix, "%");
    assert_eq!(m.model, "deepseek-ai/DeepSeek-V3");
    assert_eq!(m.remainder, "hello");
}

#[test]
fn dispatch_strips_the_prefix_once() {
    let cfg = Config::default();
    let m = cfg.prefix.dispatch("%%%%hi").unwrap();
    assert_eq!(m.prefix, "%%");
    assert_eq!(m.remainder, "%%hi");
}

#[test]
fn dispatch_without_match_or_question_is_none() {
    let cfg = Config::default();
    assert!(cfg.prefix.dispatch("hello").is_none());
    assert!(cfg.prefix.dispatch("").is_none());
    assert!(cfg.prefix.dispatch("%%").is_none());
    assert!(cfg.prefix.dispatch("%").is_none());
}

#[test]
fn dispatch_compares_characters() {
    let mut t = PrefixTable::new();
    assert!(t.insert_if_absent("问".to_string(), "model-a".to_string()));
    assert!(t.insert_if_absent("问问".to_string(), "model-b".to_string()));
    let m = t.dispatch("问你好").unwrap();
    assert_eq!(m.model, "model-a");
    assert_eq!(m.remainder, "你好");
    let m = t.dispatch("问问你好").unwrap();
    assert_eq!(m.model, "model-b");
    assert_eq!(m.remainder, "你好");
}

#[test]
fn del_prefix_missing_leaves_settings() {
    let mut cfg = Config::default();
    assert!(cfg.del_prefix("#").is_none());
    assert_eq!(cfg.prefix.len(), 2);
    assert_eq!(cfg.prefix.get("%").map(|m| m.as_str()), Some("deepseek-ai/DeepSeek-V3"));
    assert_eq!(cfg.prefix.get("%%").map(|m| m.as_str()), Some("deepseek-ai/DeepSeek-R1"));
}

#[test]
fn del_prefix_trims_and_removes_one_key() {
    let mut cfg = Config::default();
    assert_eq!(cfg.del_prefix("  %% ").as_deref(), Some("deepseek-ai/DeepSeek-R1"));
    assert_eq!(cfg.prefix.len(), 1);
    assert!(cfg.prefix.get("%%").is_none());
    assert_eq!(cfg.prefix.get("%").map(|m| m.as_str()), Some("deepseek-ai/DeepSeek-V3"));
    assert!(cfg.prefix.dispatch("%%hello").unwrap().remainder == "%hello");
}

#[test]
fn set_prefix_keeps_first_binding() {
    let mut cfg = Config::default();
    assert!(cfg.set_prefix("#".to_string(), "first".to_string()));
    assert!(!cfg.set_prefix("#".to_string(), "second".to_string()));
    assert_eq!(cfg.prefix.get("#").map(|m| m.as_str()), Some("first"));
    assert_eq!(cfg.prefix.len(), 3);
}

#[test]
fn set_forward_twice_is_no_op() {
    let mut cfg = Config::default();
    assert!(!cfg.set_forward(true));
    assert!(cfg.forward);
    assert!(cfg.set_forward(false));
    assert!(!cfg.forward);
    assert!(!cfg.set_forward(false));
}

#[test]
fn set_key_and_hint_replace_one_field() {
    let mut cfg = Config::default();
    cfg.set_api_key("SECRET-REDACTED".to_string());
    assert_eq!(cfg.api_key, "SECRET-REDACTED");
    assert!(!cfg.api_key_missing());
    cfg.set_api_hint("be brief".to_string());
    assert_eq!(cfg.hint, "be brief");
    assert_eq!(cfg.api_key, "SECRET-REDACTED");
    assert_eq!(cfg.prefix.len(), 2);
}

#[test]
fn schema_follows_model_name() {
    assert!(ChatCompletions::for_model("deepseek-ai/DeepSeek-R1").is_reasoning());
    assert!(ChatCompletions::for_model("Pro/deepseek-ai/DeepSeek-R1-Distill").is_reasoning());
    assert!(ChatCompletions::for_model("Qwen/QwQ-32B").is_reasoning());
    assert!(!ChatCompletions::for_model("Qwen/QwQ-32B-Preview").is_reasoning());
    assert!(!ChatCompletions::for_model("deepseek-ai/DeepSeek-V3").is_reasoning());
    assert!(!ChatCompletions::for_model("").is_reasoning());
}

#[test]
fn reasoning_body_gives_both_texts() {
    let body = CompletionBody::Reason(reason_body(&[("answer", "thinking"), ("other", "x")]));
    let a = normalize_answer("deepseek-ai/DeepSeek-R1", &body).ok().unwrap();
    assert!(a.reason);
    assert_eq!(a.message, "answer");
    assert_eq!(a.reason_message.as_deref(), Some("thinking"));
}

#[test]
fn general_body_gives_answer_only() {
    let body = CompletionBody::General(general_body(&["plain answer"]));
    let a = normalize_answer("deepseek-ai/DeepSeek-V3", &body).ok().unwrap();
    assert!(!a.reason);
    assert_eq!(a.message, "plain answer");
    assert!(a.reason_message.is_none());
}

#[test]
fn body_of_other_schema_or_without_choice_is_refused() {
    let body = CompletionBody::General(general_body(&["plain answer"]));
    assert!(normalize_answer("deepseek-ai/DeepSeek-R1", &body).is_err());
    let body = CompletionBody::Reason(reason_body(&[("a", "b")]));
    assert!(normalize_answer("deepseek-ai/DeepSeek-V3", &body).is_err());
    let body = CompletionBody::General(general_body(&[]));
    assert!(normalize_answer("deepseek-ai/DeepSeek-V3", &body).is_err());
    let body = CompletionBody::Reason(reason_body(&[]));
    assert!(normalize_answer("Qwen/QwQ-32B", &body).is_err());
    assert!(general_body(&[]).answer().is_err());
}

#[test]
fn request_with_and_without_hint() {
    let r = build_request("m".to_string(), "   ".to_string(), "q?".to_string());
    assert_eq!(r.model, "m");
    assert!(!r.stream);
    assert_eq!(r.messages.len(), 1);
    assert_eq!(r.messages[0].role, "user");
    assert_eq!(r.messages[0].content, "q?");
    let r = build_request("m".to_string(), " be brief ".to_string(), "q?".to_string());
    assert_eq!(r.messages.len(), 2);
    assert_eq!(r.messages[0].role, "system");
    assert_eq!(r.messages[0].content, " be brief ");
    assert_eq!(r.messages[1].role, "user");
    assert_eq!(r.messages[1].content, "q?");
}

#[test]
fn reply_forwarded_or_plain() {
    let a = RequestResponse::new("answer".to_string(), Some("trace".to_string()));
    match assemble_reply(&a, true, "42", "bot") {
        Reply::Forward(nodes) => {
            assert_eq!(nodes.len(), 2);
            assert_eq!(nodes[0].content, "answer");
            assert_eq!(nodes[1].content, "trace");
            assert_eq!(nodes[1].user_id, "42");
            assert_eq!(nodes[1].nickname, "bot");
        }
        Reply::Plain(_) => panic!("expected a forwarded reply"),
    }
    match assemble_reply(&a, false, "42", "bot") {
        Reply::Plain(t) => assert_eq!(t, "answer"),
        Reply::Forward(_) => panic!("expected a plain reply"),
    }
    let b = RequestResponse::new("only".to_string(), None);
    assert!(!b.reason);
    match assemble_reply(&b, true, "42", "bot") {
        Reply::Forward(nodes) => {
            assert_eq!(nodes.len(), 1);
            assert_eq!(nodes[0].content, "only");
        }
        Reply::Plain(_) => panic!("expected a forwarded reply"),
    }
}

#[test]
fn record_round_trip_keeps_settings() {
    let mut cfg = Config::default();
    cfg.set_api_key("SECRET-REDACTED".to_string());
    cfg.set_api_hint("hint".to_string());
    cfg.set_forward(false);
    cfg.set_prefix("#".to_string(), "m".to_string());
    let rec = cfg.to_record();
    assert_eq!(rec.prefix.len(), 3);
    let back = Config::from_record(&rec);
    assert_eq!(back.api_key, "SECRET-REDACTED");
    assert_eq!(back.hint, "hint");
    assert!(!back.forward);
    assert_eq!(back.prefix.len(), 3);
    for key in ["%", "%%", "#"] {
        assert_eq!(back.prefix.get(key), cfg.prefix.get(key));
    }
}

#[test]
fn record_with_empty_or_repeated_prefix() {
    let rec = ConfigRecord {
        api_key: String::new(),
        hint: String::new(),
        forward: true,
        prefix: vec![
            PrefixRule { prefix: "a".to_string(), model: "one".to_string() },
            PrefixRule { prefix: String::new(), model: "none".to_string() },
            PrefixRule { prefix: "a".to_string(), model: "two".to_string() },
        ],
    };
    let cfg = Config::from_record(&rec);
    assert_eq!(cfg.prefix.len(), 1);
    assert_eq!(cfg.prefix.get("a").map(|m| m.as_str()), Some("one"));
}

#[test]
fn end_to_end_reasoning_route() {
    let cfg = Config::default();
    let out = cfg.prepare_question("%%why is the sky blue").unwrap();
    assert!(out.schema.is_reasoning());
    assert_eq!(out.request.model, "deepseek-ai/DeepSeek-R1");
    assert_eq!(out.request.messages.len(), 1);
    assert_eq!(out.request.messages[0].content, "why is the sky blue");
    let body = CompletionBody::Reason(reason_body(&[("scattering", "light...")]));
    let a = normalize_answer(&out.request.model, &body).ok().unwrap();
    match assemble_reply(&a, cfg.forward, "1", "bot") {
        Reply::Forward(nodes) => {
            assert_eq!(nodes.len(), 2);
            assert_eq!(nodes[0].content, "scattering");
            assert_eq!(nodes[1].content, "light...");
        }
        Reply::Plain(_) => panic!("expected a forwarded reply"),
    }
    assert!(cfg.prepare_question("%%").is_none());
    assert!(cfg.prepare_question("no prefix").is_none());
}

#[test]
fn describe_shows_none_for_blank_fields() {
    let rec = ConfigRecord {
        api_key: String::new(),
        hint: "  ".to_string(),
        forward: false,
        prefix: Vec::new(),
    };
    let cfg = Config::from_record(&rec);
    assert_eq!(cfg.describe(), "api_key: None\nhint: None\nforward: false\nprefix: {}");
}

#[test]
fn describe_pretty_prints_the_table() {
    let rec = ConfigRecord {
        api_key: "k1".to_string(),
        hint: "be brief".to_string(),
        forward: true,
        prefix: vec![PrefixRule { prefix: "%".to_string(), model: "m".to_string() }],
    };
    let cfg = Config::from_record(&rec);
    assert_eq!(
        cfg.describe(),
        "api_key: k1\nhint: be brief\nforward: true\nprefix: {\n    \"%\": \"m\",\n}"
    );
    let mut cfg = Config::default();
    cfg.del_prefix("%");
    cfg.set_api_hint("say \"hi\"".to_string());
    assert_eq!(
        cfg.describe(),
        "api_key: None\nhint: say \"hi\"\nforward: true\nprefix: {\n    \"%%\": \"deepseek-ai/DeepSeek-R1\",\n}"
    );
}

#[test]
fn parse_commands() {
    assert!(Command::parse("hello").is_none());
    assert!(matches!(Command::parse(".sc info config"), Some(Command::InfoConfig)));
    assert!(matches!(Command::parse(".sc   info \t user "), Some(Command::InfoUser)));
    assert!(matches!(Command::parse(".sc\u{3000}info\nconfig"), Some(Command::InfoConfig)));
    match Command::parse(".sc api_key set abc") {
        Some(Command::SetApiKey(k)) => assert_eq!(k, "abc"),
        _ => panic!("expected api_key set"),
    }
    match Command::parse(".sc hint set  be   very brief") {
        Some(Command::SetHint(h)) => assert_eq!(h, "be very brief"),
        _ => panic!("expected hint set"),
    }
    match Command::parse(".sc hint set") {
        Some(Command::SetHint(h)) => assert_eq!(h, ""),
        _ => panic!("expected hint set"),
    }
    assert!(matches!(Command::parse(".sc forward set true"), Some(Command::SetForward(true))));
    assert!(matches!(Command::parse(".sc forward set false"), Some(Command::SetForward(false))));
    assert!(matches!(Command::parse(".sc forward set yes"), Some(Command::BadForward)));
    match Command::parse(".sc prefix set ## Qwen/QwQ-32B") {
        Some(Command::SetPrefix(p, m)) => {
            assert_eq!(p, "##");
            assert_eq!(m, "Qwen/QwQ-32B");
        }
        _ => panic!("expected prefix set"),
    }
    match Command::parse(".sc prefix del ##") {
        Some(Command::DelPrefix(p)) => assert_eq!(p, "##"),
        _ => panic!("expected prefix del"),
    }
    assert!(matches!(Command::parse(".sc"), Some(Command::Help)));
    assert!(matches!(Command::parse(".sc help"), Some(Command::Help)));
    assert!(matches!(Command::parse(".sc prefix set ##"), Some(Command::Help)));
    assert!(HELP.starts_with(".sc help"));
}

#[test]
fn from_words_reads_joined_words() {
    match Command::from_words(&words("x hint set a b")) {
        Command::SetHint(h) => assert_eq!(h, "a b"),
        _ => panic!("expected hint set"),
    }
    assert!(matches!(Command::from_words(&words("x info config")), Command::InfoConfig));
    assert!(matches!(Command::from_words(&words("x info")), Command::Help));
}

#[test]
fn text_helpers() {
    assert_eq!(trim_str("  a b \t"), "a b");
    assert_eq!(trim_str("   "), "");
    assert!(is_blank_str(" \u{3000}\n"));
    assert!(!is_blank_str(" x "));
    assert!(starts_with_chars("%%x", "%%"));
    assert!(!starts_with_chars("%", "%%"));
    assert!(contains_chars("abcDeepSeek-R1x", "DeepSeek-R1"));
    assert!(!contains_chars("DeepSeek-R", "DeepSeek-R1"));
}

#[test]
fn user_summary_lists_fields() {
    let d = UserData {
        id: "u1".to_string(),
        name: "neko".to_string(),
        image: "img".to_string(),
        email: "n@example.com".to_string(),
        is_admin: false,
        balance: "1.00".to_string(),
        status: "normal".to_string(),
        introduction: String::new(),
        role: String::new(),
        charge_balance: "0".to_string(),
        total_balance: "1.00".to_string(),
        category: String::new(),
    };
    assert_eq!(
        d.summary(),
        "用户名: neko\n邮箱: n@example.com\n赠送余额: 1.00\n状态: normal\n总余额: 1.00"
    );
}

#[test]
fn command_answer_texts() {
    assert_eq!(forward_message(true, false), "合并转发状态已开启, 请勿重复操作~");
    assert_eq!(forward_message(false, false), "合并转发状态已关闭, 请勿重复操作~");
    assert_eq!(forward_message(false, true), "合并转发开关设置成功, 当前合并转发开启状态为: 关闭");
    assert_eq!(forward_message(true, true), "合并转发开关设置成功, 当前合并转发开启状态为: 开启");
    assert_eq!(prefix_set_message("#", "m"), "指令设置成功(prefix => model): # => m");
    assert_eq!(prefix_deleted_message("  # ", "m"), "触发器删除成功: # => m");
    assert_eq!(failure_message("boom"), "[kovi-plugin-siliconflow] boom");
}
