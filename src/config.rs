//! The plugin's settings and their single-field updates.
use vstd::prelude::*;
use vstd::string::*;
use crate::prefix::{bind_first, rule_pairs, table_of, PrefixRule, PrefixTable};
use crate::text::{is_blank, is_blank_str, trim, trim_str};

verus! {

/// The seed prefix routed to the general model.
pub const GENERAL_PREFIX: &'static str = "%";

pub const GENERAL_MODEL: &'static str = "deepseek-ai/DeepSeek-V3";

/// The seed prefix routed to the reasoning model.
pub const REASONING_PREFIX: &'static str = "%%";

pub const REASONING_MODEL: &'static str = "deepseek-ai/DeepSeek-R1";

/// The settings: credential, system hint, forwarding switch and prefix table.
pub struct Config {
    pub api_key: String,
    pub hint: String,
    pub forward: bool,
    pub prefix: PrefixTable,
}

/// The settings as plain data, the prefix table as a list of rules: the shape they are
/// stored in.
pub struct ConfigRecord {
    pub api_key: String,
    pub hint: String,
    pub forward: bool,
    pub prefix: Vec<PrefixRule>,
}

/// `rec` holds the settings `c`.
pub open spec fn is_record_of(rec: ConfigRecord, c: Config) -> bool {
    &&& rec.api_key@ == c.api_key@
    &&& rec.hint@ == c.hint@
    &&& rec.forward == c.forward
    &&& table_of(rule_pairs(rec.prefix@)) == c.prefix@
}

/// A text as the summary shows it: `None` where it is blank.
pub open spec fn shown(s: Seq<char>) -> Seq<char> {
    if is_blank(s) {
        "None"@
    } else {
        s
    }
}

pub open spec fn bool_text(b: bool) -> Seq<char> {
    if b {
        "true"@
    } else {
        "false"@
    }
}

/// A text as std's `Debug` shows it: quoted, with its special characters escaped.
pub uninterp spec fn debug_of(s: Seq<char>) -> Seq<char>;

/// Relies on `<str as Debug>::fmt`: the text quoted and escaped, which depends on the text
/// alone.
#[verifier::external_body]
fn debug_text(s: &str) -> (r: String)
    ensures
        r@ == debug_of(s@),
{
    format!("{:?}", s)
}

/// One line per pair, `"prefix": "model",`, each on a new indented line.
pub open spec fn rules_listing(p: Seq<(Seq<char>, Seq<char>)>) -> Seq<char>
    decreases p.len(),
{
    if p.len() == 0 {
        Seq::empty()
    } else {
        rules_listing(p.drop_last()) + "\n    "@ + debug_of(p.last().0) + ": "@ + debug_of(
            p.last().1,
        ) + ","@
    }
}

/// The table in the pretty-printed form of a map: ` {}` where it is empty, else its
/// bindings between braces, one per line.
pub open spec fn table_text(p: Seq<(Seq<char>, Seq<char>)>) -> Seq<char> {
    if p.len() == 0 {
        " {}"@
    } else {
        " {"@ + rules_listing(p) + "\n}"@
    }
}

/// The summary of the settings, the table listed in the order of `pairs`.
pub open spec fn summary(
    api_key: Seq<char>,
    hint: Seq<char>,
    forward: bool,
    pairs: Seq<(Seq<char>, Seq<char>)>,
) -> Seq<char> {
    "api_key: "@ + shown(api_key) + "\nhint: "@ + shown(hint) + "\nforward: "@ + bool_text(forward)
        + "\nprefix:"@ + table_text(pairs)
}

/// The prefix table that fresh settings start with.
pub open spec fn seed_table() -> Map<Seq<char>, Seq<char>> {
    Map::<Seq<char>, Seq<char>>::empty().insert(GENERAL_PREFIX@, GENERAL_MODEL@).insert(
        REASONING_PREFIX@,
        REASONING_MODEL@,
    )
}

impl Default for Config {
    /// Empty credential and hint, forwarding on, and the two seed prefixes.
    fn default() -> (r: Self)
        ensures
            r.wf(),
            r.api_key@ == Seq::<char>::empty(),
            r.hint@ == Seq::<char>::empty(),
            r.forward,
            r.prefix@ == seed_table(),
    {
        let mut prefix = PrefixTable::new();
        proof {
            reveal_strlit("%");
            reveal_strlit("%%");
        }
        prefix.insert_if_absent(String::from_str(GENERAL_PREFIX), String::from_str(GENERAL_MODEL));
        prefix.insert_if_absent(
            String::from_str(REASONING_PREFIX),
            String::from_str(REASONING_MODEL),
        );
        Config { api_key: String::new(), hint: String::new(), forward: true, prefix }
    }
}

impl Config {
    pub open spec fn wf(&self) -> bool {
        self.prefix.wf()
    }

    /// The settings as a record, ready to be stored.
    pub fn to_record(&self) -> (r: ConfigRecord)
        requires
            self.wf(),
        ensures
            is_record_of(r, *self),
    {
        ConfigRecord {
            api_key: self.api_key.clone(),
            hint: self.hint.clone(),
            forward: self.forward,
            prefix: self.prefix.to_rules(),
        }
    }

    /// The settings that a stored record holds.
    pub fn from_record(rec: &ConfigRecord) -> (r: Config)
        ensures
            r.wf(),
            is_record_of(*rec, r),
    {
        Config {
            api_key: rec.api_key.clone(),
            hint: rec.hint.clone(),
            forward: rec.forward,
            prefix: PrefixTable::from_rules(&rec.prefix),
        }
    }

    /// A readable summary of the settings: a blank credential or hint shows as `None`, and
    /// the table is pretty-printed as a map, a binding per line (in no particular order).
    pub fn describe(&self) -> (r: String)
        requires
            self.wf(),
        ensures
            exists|rules: Seq<PrefixRule>|
                {
                    &&& table_of(rule_pairs(rules)) == self.prefix@
                    &&& rules.len() == self.prefix@.dom().len()
                    &&& r@ == summary(self.api_key@, self.hint@, self.forward, rule_pairs(rules))
                },
    {
        let mut out = String::from_str("api_key: ");
        if is_blank_str(self.api_key.as_str()) {
            out.append("None");
        } else {
            out.append(self.api_key.as_str());
        }
        out.append("\nhint: ");
        if is_blank_str(self.hint.as_str()) {
            out.append("None");
        } else {
            out.append(self.hint.as_str());
        }
        out.append("\nforward: ");
        if self.forward {
            out.append("true");
        } else {
            out.append("false");
        }
        out.append("\nprefix:");
        let rules = self.prefix.to_rules();
        let ghost head = out@;
        let ghost pairs = rule_pairs(rules@);
        if rules.len() == 0 {
            out.append(" {}");
            return out;
        }
        out.append(" {");
        let ghost open_brace = out@;
        let mut i: usize = 0;
        assert(pairs.take(0) =~= Seq::<(Seq<char>, Seq<char>)>::empty());
        while i < rules.len()
            invariant
                i <= rules@.len(),
                pairs == rule_pairs(rules@),
                out@ == open_brace + rules_listing(pairs.take(i as int)),
            decreases rules@.len() - i,
        {
            assert(pairs.take(i + 1).drop_last() =~= pairs.take(i as int));
            let key = debug_text(rules[i].prefix.as_str());
            let model = debug_text(rules[i].model.as_str());
            out.append("\n    ");
            out.append(key.as_str());
            out.append(": ");
            out.append(model.as_str());
            out.append(",");
            proof {
                let next = pairs.take(i + 1);
                assert(next.last() == pairs[i as int]);
                assert(out@ =~= open_brace + rules_listing(next));
            }
            i = i + 1;
        }
        assert(pairs.take(rules@.len() as int) =~= pairs);
        out.append("\n}");
        assert(out@ =~= head + table_text(pairs));
        out
    }

    /// Whether no credential is set (it is empty or white space).
    pub fn api_key_missing(&self) -> (r: bool)
        ensures
            r == is_blank(self.api_key@),
    {
        is_blank_str(self.api_key.as_str())
    }

    /// Replaces the credential; nothing else changes.
    pub fn set_api_key(&mut self, api_key: String)
        ensures
            final(self).api_key == api_key,
            final(self).hint == old(self).hint,
            final(self).forward == old(self).forward,
            final(self).prefix == old(self).prefix,
    {
        self.api_key = api_key;
    }

    /// Replaces the system hint; nothing else changes.
    pub fn set_api_hint(&mut self, hint: String)
        ensures
            final(self).hint == hint,
            final(self).api_key == old(self).api_key,
            final(self).forward == old(self).forward,
            final(self).prefix == old(self).prefix,
    {
        self.hint = hint;
    }

    /// Sets the forwarding switch. Returns whether it changed: where it was already in that
    /// state the settings stay exactly as they were, and nothing needs to be stored.
    pub fn set_forward(&mut self, forward: bool) -> (changed: bool)
        ensures
            changed == (forward != old(self).forward),
            !changed ==> *final(self) == *old(self),
            final(self).forward == forward,
            final(self).api_key == old(self).api_key,
            final(self).hint == old(self).hint,
            final(self).prefix == old(self).prefix,
    {
        if forward == self.forward {
            return false;
        }
        self.forward = forward;
        true
    }

    /// Binds `prefix` to `model` unless `prefix` is bound already (the first binding stays).
    /// Returns whether the table changed.
    pub fn set_prefix(&mut self, prefix: String, model: String) -> (added: bool)
        requires
            old(self).wf(),
            prefix@.len() > 0,
        ensures
            final(self).wf(),
            added == !old(self).prefix@.dom().contains(prefix@),
            final(self).prefix@ == bind_first(old(self).prefix@, prefix@, model@),
            !added ==> *final(self) == *old(self),
            final(self).api_key == old(self).api_key,
            final(self).hint == old(self).hint,
            final(self).forward == old(self).forward,
    {
        self.prefix.insert_if_absent(prefix, model)
    }

    /// Removes the binding of `prefix`, white space around it ignored, and returns the model
    /// it routed to; where there is none, the settings stay exactly as they were.
    pub fn del_prefix(&mut self, prefix: &str) -> (r: Option<String>)
        requires
            old(self).wf(),
        ensures
            final(self).wf(),
            r is Some <==> old(self).prefix@.dom().contains(trim(prefix@)),
            r matches Some(m) ==> m@ == old(self).prefix@[trim(prefix@)] && final(self).prefix@
                == old(self).prefix@.remove(trim(prefix@)),
            r is None ==> *final(self) == *old(self),
            final(self).api_key == old(self).api_key,
            final(self).hint == old(self).hint,
            final(self).forward == old(self).forward,
    {
        let key = trim_str(prefix);
        self.prefix.remove(key.as_str())
    }
}

} // verus!
