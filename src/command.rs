//! The administration commands: `.sc <verb> ...`.
use vstd::prelude::*;
use vstd::string::*;
use crate::text::{is_prefix_of, is_space, is_space_char, same_chars, starts_with_chars};

verus! {

/// What starts every administration command.
pub const COMMAND_HEAD: &'static str = ".sc";

/// The list of commands, answered to anything that is not one.
pub const HELP: &'static str = ".sc help: 帮助
.sc info config: 列出当前配置
.sc info user: 获取用户信息
.sc api_key set <api_key>: 更新api_key
.sc hint set <提示词>: 更新提示词
.sc forward set <true|false>: 开启/关闭消息转发
.sc prefix set <prefix> <model>: 设置触发器和对应模型
.sc prefix del <prefix>: 删除触发器";

/// Added to the help where no credential is set.
pub const MISSING_KEY_NOTICE: &'static str = "喵发现你的 api_key 是空的哟, 你可以使用以下命令更新你的 api_key, 否则功能受限哟喵~
.sc api_key set <api_key>";

/// Reading `s` from the left: the words closed so far, and the word being read (empty
/// between words).
pub open spec fn scan_words(s: Seq<char>) -> (Seq<Seq<char>>, Seq<char>)
    decreases s.len(),
{
    if s.len() == 0 {
        (Seq::empty(), Seq::empty())
    } else {
        let (done, cur) = scan_words(s.drop_last());
        if is_space(s.last()) {
            if cur.len() > 0 {
                (done.push(cur), Seq::empty())
            } else {
                (done, cur)
            }
        } else {
            (done, cur.push(s.last()))
        }
    }
}

/// The words of a text: its maximal runs of characters other than white space, in order.
pub open spec fn words_of(s: Seq<char>) -> Seq<Seq<char>> {
    let (done, cur) = scan_words(s);
    if cur.len() > 0 {
        done.push(cur)
    } else {
        done
    }
}

/// Cuts a text into its words.
fn split_words(s: &str) -> (r: Vec<String>)
    ensures
        r@.map_values(|w: String| w@) == words_of(s@),
{
    let n = s.unicode_len();
    let mut done: Vec<String> = Vec::new();
    let mut start: usize = 0;
    let mut i: usize = 0;
    assert(s@.take(0) =~= Seq::<char>::empty());
    assert(s@.subrange(0, 0) =~= Seq::<char>::empty());
    while i < n
        invariant
            n == s@.len(),
            start <= i <= n,
            done@.map_values(|w: String| w@) == scan_words(s@.take(i as int)).0,
            s@.subrange(start as int, i as int) == scan_words(s@.take(i as int)).1,
        decreases n - i,
    {
        let ghost before = done@;
        assert(s@.take(i + 1).drop_last() =~= s@.take(i as int));
        assert(s@.take(i + 1).last() == s@[i as int]);
        if is_space_char(s.get_char(i)) {
            if start < i {
                let word = String::from_str(s.substring_char(start, i));
                done.push(word);
                assert(done@.map_values(|w: String| w@) =~= before.map_values(|w: String| w@).push(
                    word@,
                ));
            }
            start = i + 1;
            assert(s@.subrange(start as int, i + 1) =~= Seq::<char>::empty());
        } else {
            assert(s@.subrange(start as int, i + 1) =~= s@.subrange(start as int, i as int).push(
                s@[i as int],
            ));
        }
        i = i + 1;
    }
    assert(s@.take(n as int) =~= s@);
    if start < n {
        let ghost before = done@;
        let word = String::from_str(s.substring_char(start, n));
        done.push(word);
        assert(done@.map_values(|w: String| w@) =~= before.map_values(|w: String| w@).push(
            word@,
        ));
    }
    done
}

/// An administration command.
pub enum Command {
    InfoConfig,
    InfoUser,
    SetApiKey(String),
    SetHint(String),
    SetForward(bool),
    /// `forward set` with a word other than `true` or `false`.
    BadForward,
    SetPrefix(String, String),
    DelPrefix(String),
    /// Anything else: answered with the help text.
    Help,
}

/// The words joined by single spaces.
pub open spec fn join_words(ws: Seq<Seq<char>>) -> Seq<char>
    decreases ws.len(),
{
    if ws.len() == 0 {
        Seq::empty()
    } else if ws.len() == 1 {
        ws[0]
    } else {
        join_words(ws.drop_last()) + " "@ + ws.last()
    }
}

/// `ws` has `n` words, the second and third of which are `a` and `b`.
pub open spec fn shaped(ws: Seq<Seq<char>>, n: int, a: Seq<char>, b: Seq<char>) -> bool {
    ws.len() == n && ws[1] == a && ws[2] == b
}

/// A hint command: at least three words, the second and third `hint set`.
pub open spec fn is_hint_command(ws: Seq<Seq<char>>) -> bool {
    ws.len() >= 3 && ws[1] == "hint"@ && ws[2] == "set"@
}

/// `c` is the command that the words `v` make (the first word, the head, aside).
pub open spec fn reads_as(c: Command, v: Seq<Seq<char>>) -> bool {
    &&& (c is InfoConfig) <==> shaped(v, 3, "info"@, "config"@)
    &&& (c is InfoUser) <==> shaped(v, 3, "info"@, "user"@)
    &&& (c is SetApiKey) <==> shaped(v, 4, "api_key"@, "set"@)
    &&& (c matches Command::SetApiKey(k) ==> k@ == v[3])
    &&& (c is SetHint) <==> is_hint_command(v)
    &&& (c matches Command::SetHint(h) ==> h@ == join_words(v.skip(3)))
    &&& (c is SetForward || c is BadForward) <==> shaped(v, 4, "forward"@, "set"@)
    &&& (c matches Command::SetForward(b) ==> (b && v[3] == "true"@) || (!b && v[3]
        == "false"@))
    &&& (c is BadForward ==> v[3] != "true"@ && v[3] != "false"@)
    &&& (c is SetPrefix) <==> shaped(v, 5, "prefix"@, "set"@)
    &&& (c matches Command::SetPrefix(p, m) ==> p@ == v[3] && m@ == v[4])
    &&& (c is DelPrefix) <==> shaped(v, 4, "prefix"@, "del"@)
    &&& (c matches Command::DelPrefix(p) ==> p@ == v[3])
}

fn word_is(ws: &Vec<String>, i: usize, w: &str) -> (r: bool)
    requires
        i < ws@.len(),
    ensures
        r == (ws@[i as int]@ == w@),
{
    same_chars(ws[i].as_str(), w)
}

/// The words from position `from` on, joined by single spaces.
fn join_from(ws: &Vec<String>, from: usize) -> (r: String)
    requires
        from <= ws@.len(),
    ensures
        r@ == join_words(ws@.map_values(|w: String| w@).skip(from as int)),
{
    let ghost all = ws@.map_values(|w: String| w@).skip(from as int);
    let mut out = String::new();
    let mut i: usize = from;
    assert(all.take(0) =~= Seq::<Seq<char>>::empty());
    while i < ws.len()
        invariant
            from <= i <= ws@.len(),
            all == ws@.map_values(|w: String| w@).skip(from as int),
            out@ == join_words(all.take(i - from)),
        decreases ws@.len() - i,
    {
        let ghost next = all.take(i - from + 1);
        assert(next.drop_last() =~= all.take(i - from));
        assert(next.last() == ws@[i as int]@);
        if i > from {
            out.append(" ");
        } else {
            assert(next =~= seq![ws@[i as int]@]);
        }
        out.append(ws[i].as_str());
        proof {
            if i > from {
                assert(out@ =~= join_words(next));
            } else {
                assert(out@ =~= ws@[i as int]@);
            }
        }
        i = i + 1;
    }
    assert(all.take(ws@.len() - from) =~= all);
    out
}

impl Command {
    /// Reads a command from its words; the first word, the command's head, is not looked at.
    pub fn from_words(ws: &Vec<String>) -> (r: Command)
        ensures
            reads_as(r, ws@.map_values(|w: String| w@)),
    {
        let ghost v = ws@.map_values(|w: String| w@);
        proof {
            reveal_strlit("info");
            reveal_strlit("hint");
            reveal_strlit("forward");
            reveal_strlit("prefix");
            reveal_strlit("api_key");
            reveal_strlit("set");
            reveal_strlit("del");
            reveal_strlit("config");
            reveal_strlit("user");
            assert("api_key"@[0] != "forward"@[0]);
            assert("set"@[0] != "del"@[0]);
            assert("info"@[0] != "hint"@[0]);
        }
        let n = ws.len();
        if n < 3 {
            return Command::Help;
        }
        assert(v[1] == ws@[1]@ && v[2] == ws@[2]@);
        if word_is(ws, 1, "hint") && word_is(ws, 2, "set") {
            return Command::SetHint(join_from(ws, 3));
        }
        if n == 3 && word_is(ws, 1, "info") {
            if word_is(ws, 2, "config") {
                return Command::InfoConfig;
            }
            if word_is(ws, 2, "user") {
                return Command::InfoUser;
            }
            return Command::Help;
        }
        if n == 4 && word_is(ws, 2, "set") {
            if word_is(ws, 1, "api_key") {
                return Command::SetApiKey(ws[3].clone());
            }
            if word_is(ws, 1, "forward") {
                if word_is(ws, 3, "true") {
                    return Command::SetForward(true);
                }
                if word_is(ws, 3, "false") {
                    return Command::SetForward(false);
                }
                return Command::BadForward;
            }
            return Command::Help;
        }
        if n == 4 && word_is(ws, 1, "prefix") && word_is(ws, 2, "del") {
            return Command::DelPrefix(ws[3].clone());
        }
        if n == 5 && word_is(ws, 1, "prefix") && word_is(ws, 2, "set") {
            return Command::SetPrefix(ws[3].clone(), ws[4].clone());
        }
        Command::Help
    }

    /// Reads an administration message: `None` where it does not start with the command
    /// head, else the command its words make.
    pub fn parse(text: &str) -> (r: Option<Command>)
        ensures
            r is None <==> !is_prefix_of(COMMAND_HEAD@, text@),
            r matches Some(c) ==> reads_as(c, words_of(text@)),
    {
        if !starts_with_chars(text, COMMAND_HEAD) {
            return None;
        }
        let ws = split_words(text);
        Some(Command::from_words(&ws))
    }
}

} // verus!
