//! Properties that relate several operations of the library.
use vstd::prelude::*;
use crate::config::{is_record_of, Config, ConfigRecord};
use crate::prefix::{bind_first, is_longest_match};
use crate::response::{schema_of, ChatCompletions, REASONING_MARKER};
use crate::text::contains_seq;

verus! {

/// Binding a prefix twice, to two models, keeps the model of the first binding: the second
/// changes nothing, and where the prefix was new, it routes to the first model.
pub proof fn law_first_binding_wins(
    tbl: Map<Seq<char>, Seq<char>>,
    k: Seq<char>,
    first: Seq<char>,
    second: Seq<char>,
)
    ensures
        bind_first(bind_first(tbl, k, first), k, second) == bind_first(tbl, k, first),
        bind_first(bind_first(tbl, k, first), k, second).dom().contains(k),
        !tbl.dom().contains(k) ==> bind_first(bind_first(tbl, k, first), k, second)[k] == first,
{
}

/// Setting a prefix that is not bound yet, and then setting it again to another model,
/// leaves the settings' table routing it to the first model: the second call changes nothing.
/// The relations are those that `Config::set_prefix` ensures of each call.
pub proof fn law_set_prefix_twice(
    c: Config,
    once: Config,
    twice: Config,
    k: Seq<char>,
    first: Seq<char>,
    second: Seq<char>,
)
    requires
        c.wf(),
        k.len() > 0,
        !c.prefix@.dom().contains(k),
        once.prefix@ == bind_first(c.prefix@, k, first),
        twice.prefix@ == bind_first(once.prefix@, k, second),
    ensures
        twice.prefix@.dom().contains(k),
        twice.prefix@[k] == first,
        twice.prefix@ == once.prefix@,
{
    law_first_binding_wins(c.prefix@, k, first, second);
}

/// The longest matching prefix is unique, so the dispatcher's choice never depends on the
/// order of the table.
pub proof fn law_longest_match_unique(
    tbl: Map<Seq<char>, Seq<char>>,
    t: Seq<char>,
    p: Seq<char>,
    q: Seq<char>,
)
    requires
        is_longest_match(tbl, t, p),
        is_longest_match(tbl, t, q),
    ensures
        p == q,
{
    assert(p.len() == q.len());
    assert(p =~= t.subrange(0, p.len() as int));
    assert(q =~= t.subrange(0, q.len() as int));
}

/// A model whose name holds the reasoning marker is answered in the reasoning schema.
pub proof fn law_marker_selects_reasoning(model: Seq<char>)
    requires
        contains_seq(model, REASONING_MARKER@),
    ensures
        schema_of(model) == ChatCompletions::ReasonChatCompletion,
{
}

/// Storing settings as a record and reading the record back gives the same settings:
/// the same credential, hint and switch, and the same prefix table.
pub proof fn law_record_round_trip(c: Config, rec: ConfigRecord, back: Config)
    requires
        c.wf(),
        is_record_of(rec, c),
        is_record_of(rec, back),
    ensures
        back.api_key@ == c.api_key@,
        back.hint@ == c.hint@,
        back.forward == c.forward,
        back.prefix@ == c.prefix@,
{
}

} // verus!
