//! The prefix table (prefix → model) and the longest-prefix dispatcher.
use vstd::prelude::*;
use vstd::string::*;
use crate::text::{is_prefix_of, starts_with_chars, same_chars};

verus! {

/// One binding of a leading text to the model it routes to.
pub struct PrefixRule {
    pub prefix: String,
    pub model: String,
}

/// A table of prefix rules: keys are unique and non-empty.
pub struct PrefixTable {
    rules: Vec<PrefixRule>,
    contents: Ghost<Map<Seq<char>, Seq<char>>>,
}

/// What the dispatcher found: the chosen prefix, its model and the question after it.
pub struct RoutingMatch {
    pub prefix: String,
    pub model: String,
    pub remainder: String,
}

/// `tbl` after binding `k` to `v` where `k` is not a key yet; the first binding stays.
pub open spec fn bind_first(tbl: Map<Seq<char>, Seq<char>>, k: Seq<char>, v: Seq<char>) -> Map<
    Seq<char>,
    Seq<char>,
> {
    if tbl.dom().contains(k) {
        tbl
    } else {
        tbl.insert(k, v)
    }
}

/// The rules as (prefix, model) pairs of character sequences.
pub open spec fn rule_pairs(v: Seq<PrefixRule>) -> Seq<(Seq<char>, Seq<char>)> {
    v.map_values(|r: PrefixRule| (r.prefix@, r.model@))
}

/// The table that binding the pairs one after another gives: empty prefixes are skipped,
/// and of two pairs with one prefix the earlier stays.
pub open spec fn table_of(pairs: Seq<(Seq<char>, Seq<char>)>) -> Map<Seq<char>, Seq<char>>
    decreases pairs.len(),
{
    if pairs.len() == 0 {
        Map::empty()
    } else {
        let m = table_of(pairs.drop_last());
        let k = pairs.last().0;
        if k.len() == 0 {
            m
        } else {
            bind_first(m, k, pairs.last().1)
        }
    }
}

/// Of pairs with unique non-empty prefixes, `table_of` binds exactly each prefix to its model.
pub proof fn lemma_table_of_unique(p: Seq<(Seq<char>, Seq<char>)>)
    requires
        forall|i: int, j: int| 0 <= i < j < p.len() ==> (#[trigger] p[i]).0 != (#[trigger] p[j]).0,
        forall|i: int| 0 <= i < p.len() ==> (#[trigger] p[i]).0.len() > 0,
    ensures
        forall|i: int|
            0 <= i < p.len() ==> table_of(p).dom().contains((#[trigger] p[i]).0) && table_of(p)[p[i].0]
                == p[i].1,
        forall|k: Seq<char>|
            #[trigger] table_of(p).dom().contains(k) ==> exists|i: int| 0 <= i < p.len() && (#[trigger] p[i]).0 == k,
    decreases p.len(),
{
    if p.len() > 0 {
        let q = p.drop_last();
        assert forall|i: int, j: int| 0 <= i < j < q.len() implies (#[trigger] q[i]).0 != (#[trigger] q[j]).0 by {
            assert(p[i] == q[i] && p[j] == q[j]);
        }
        assert forall|i: int| 0 <= i < q.len() implies (#[trigger] q[i]).0.len() > 0 by {
            assert(p[i] == q[i]);
        }
        lemma_table_of_unique(q);
        let n = p.len() - 1;
        assert(!table_of(q).dom().contains(p[n].0)) by {
            if table_of(q).dom().contains(p[n].0) {
                let i = choose|i: int| 0 <= i < q.len() && (#[trigger] q[i]).0 == p[n].0;
                assert(p[i] == q[i]);
            }
        }
        assert forall|i: int| 0 <= i < p.len() implies table_of(p).dom().contains((#[trigger] p[i]).0)
            && table_of(p)[p[i].0] == p[i].1 by {
            if i < n {
                assert(p[i] == q[i]);
                assert(p[i].0 != p[n].0);
            }
        }
        assert forall|k: Seq<char>| #[trigger] table_of(p).dom().contains(k) implies exists|i: int|
            0 <= i < p.len() && (#[trigger] p[i]).0 == k by {
            if k != p[n].0 {
                let i = choose|i: int| 0 <= i < q.len() && (#[trigger] q[i]).0 == k;
                assert(p[i] == q[i]);
            }
        }
    }
}

/// `p` is a key of `tbl` that stands at the start of `t`.
pub open spec fn matches_key(tbl: Map<Seq<char>, Seq<char>>, t: Seq<char>, p: Seq<char>) -> bool {
    tbl.dom().contains(p) && is_prefix_of(p, t)
}

/// `p` is the longest key of `tbl` that stands at the start of `t`.
pub open spec fn is_longest_match(tbl: Map<Seq<char>, Seq<char>>, t: Seq<char>, p: Seq<char>) -> bool {
    matches_key(tbl, t, p) && forall|q: Seq<char>| matches_key(tbl, t, q) ==> q.len() <= p.len()
}

/// No key of `tbl` starts `t`, or `t` itself is a key, which then is the longest match and
/// leaves an empty question.
pub open spec fn no_route(tbl: Map<Seq<char>, Seq<char>>, t: Seq<char>) -> bool {
    (forall|q: Seq<char>| !matches_key(tbl, t, q)) || tbl.dom().contains(t)
}

impl View for PrefixTable {
    type V = Map<Seq<char>, Seq<char>>;

    closed spec fn view(&self) -> Map<Seq<char>, Seq<char>> {
        self.contents@
    }
}

impl PrefixTable {
    /// The table's invariant: unique non-empty keys, and the rules agree with the view.
    pub closed spec fn wf(&self) -> bool {
        let r = self.rules@;
        let m = self.contents@;
        &&& forall|i: int, j: int|
            0 <= i < j < r.len() ==> (#[trigger] r[i]).prefix@ != (#[trigger] r[j]).prefix@
        &&& forall|i: int|
            0 <= i < r.len() ==> {
                &&& m.dom().contains((#[trigger] r[i]).prefix@)
                &&& m[r[i].prefix@] == r[i].model@
                &&& r[i].prefix@.len() > 0
            }
        &&& forall|k: Seq<char>|
            #[trigger] m.dom().contains(k) ==> exists|i: int|
                0 <= i < r.len() && (#[trigger] r[i]).prefix@ == k
    }

    /// The number of rules.
    pub closed spec fn spec_len(&self) -> nat {
        self.rules@.len()
    }

    /// An empty table.
    pub fn new() -> (r: PrefixTable)
        ensures
            r.wf(),
            r@ == Map::<Seq<char>, Seq<char>>::empty(),
    {
        PrefixTable { rules: Vec::new(), contents: Ghost(Map::empty()) }
    }

    /// Every key of a well-formed table is non-empty, and its size is its number of rules.
    pub proof fn lemma_wf(&self)
        requires
            self.wf(),
        ensures
            forall|k: Seq<char>| #[trigger] self@.dom().contains(k) ==> k.len() > 0,
            self@.dom().finite(),
            self@.dom().len() == self.spec_len(),
    {
        let r = self.rules@;
        let keys = r.map_values(|x: PrefixRule| x.prefix@);
        assert forall|k: Seq<char>| #[trigger] self@.dom().contains(k) implies k.len() > 0 by {
            let i = choose|i: int| 0 <= i < r.len() && (#[trigger] r[i]).prefix@ == k;
        }
        assert(keys.no_duplicates()) by {
            assert forall|i: int, j: int| 0 <= i < keys.len() && 0 <= j < keys.len() && i != j
                implies keys[i] != keys[j] by {
                if i < j {
                    assert(r[i].prefix@ != r[j].prefix@);
                } else {
                    assert(r[j].prefix@ != r[i].prefix@);
                }
            }
        }
        assert(self@.dom() =~= keys.to_set()) by {
            assert forall|k: Seq<char>| self@.dom().contains(k) implies keys.to_set().contains(k) by {
                let i = choose|i: int| 0 <= i < r.len() && (#[trigger] r[i]).prefix@ == k;
                assert(keys[i] == k);
            }
            assert forall|k: Seq<char>| keys.to_set().contains(k) implies self@.dom().contains(k) by {
                let i = choose|i: int| 0 <= i < keys.len() && keys[i] == k;
                assert(r[i].prefix@ == k);
            }
        }
        keys.unique_seq_to_set();
    }

    /// The number of rules, which is the number of keys.
    pub fn len(&self) -> (n: usize)
        requires
            self.wf(),
        ensures
            n == self@.dom().len(),
    {
        proof {
            self.lemma_wf();
        }
        self.rules.len()
    }

    /// The rule at position `i` (the positions are in no particular order).
    pub fn rule_at(&self, i: usize) -> (r: &PrefixRule)
        requires
            self.wf(),
            i < self@.dom().len(),
        ensures
            self@.dom().contains(r.prefix@),
            self@[r.prefix@] == r.model@,
    {
        proof {
            self.lemma_wf();
        }
        &self.rules[i]
    }

    /// The table that the rules give, bound one after another (see `table_of`).
    pub fn from_rules(rules: &Vec<PrefixRule>) -> (r: PrefixTable)
        ensures
            r.wf(),
            r@ == table_of(rule_pairs(rules@)),
    {
        let mut t = PrefixTable::new();
        let ghost pairs = rule_pairs(rules@);
        let mut i: usize = 0;
        assert(pairs.take(0) =~= Seq::<(Seq<char>, Seq<char>)>::empty());
        while i < rules.len()
            invariant
                t.wf(),
                i <= rules@.len(),
                pairs == rule_pairs(rules@),
                t@ == table_of(pairs.take(i as int)),
            decreases rules@.len() - i,
        {
            assert(pairs.take(i + 1).drop_last() =~= pairs.take(i as int));
            let rule = &rules[i];
            if rule.prefix.unicode_len() > 0 {
                t.insert_if_absent(rule.prefix.clone(), rule.model.clone());
            }
            i = i + 1;
        }
        assert(pairs.take(rules@.len() as int) =~= pairs);
        t
    }

    /// The rules of the table, one per key, from which `from_rules` gives the table back.
    pub fn to_rules(&self) -> (r: Vec<PrefixRule>)
        requires
            self.wf(),
        ensures
            table_of(rule_pairs(r@)) == self@,
            r@.len() == self@.dom().len(),
    {
        let mut out: Vec<PrefixRule> = Vec::new();
        let mut i: usize = 0;
        while i < self.rules.len()
            invariant
                self.wf(),
                i <= self.rules@.len(),
                out@.len() == i,
                forall|j: int|
                    0 <= j < i ==> (#[trigger] out@[j]).prefix@ == self.rules@[j].prefix@
                        && out@[j].model@ == self.rules@[j].model@,
            decreases self.rules@.len() - i,
        {
            let rule = &self.rules[i];
            out.push(PrefixRule { prefix: rule.prefix.clone(), model: rule.model.clone() });
            i = i + 1;
        }
        proof {
            let p = rule_pairs(out@);
            let q = rule_pairs(self.rules@);
            assert(p =~= q);
            assert forall|a: int, b: int| 0 <= a < b < q.len() implies (#[trigger] q[a]).0
                != (#[trigger] q[b]).0 by {
                assert(self.rules@[a].prefix@ != self.rules@[b].prefix@);
            }
            assert forall|a: int| 0 <= a < q.len() implies (#[trigger] q[a]).0.len() > 0 by {
                assert(self.rules@[a].prefix@.len() > 0);
            }
            lemma_table_of_unique(q);
            assert forall|k: Seq<char>| table_of(q).dom().contains(k) implies self@.dom().contains(k) by {
                let a = choose|a: int| 0 <= a < q.len() && (#[trigger] q[a]).0 == k;
                assert(self.rules@[a].prefix@ == k);
            }
            assert forall|k: Seq<char>| #[trigger] self@.dom().contains(k) implies table_of(q).dom().contains(k)
                && table_of(q)[k] == self@[k] by {
                let a = choose|a: int| 0 <= a < self.rules@.len() && (#[trigger] self.rules@[a]).prefix@ == k;
                assert(q[a].0 == k);
            }
            assert(table_of(q) =~= self@);
            self.lemma_wf();
        }
        out
    }

    /// Where `key` stands among the rules, if it is a key.
    fn position(&self, key: &str) -> (r: Option<usize>)
        requires
            self.wf(),
        ensures
            r is None <==> !self@.dom().contains(key@),
            r matches Some(i) ==> i < self.rules@.len() && self.rules@[i as int].prefix@ == key@,
    {
        let mut i: usize = 0;
        while i < self.rules.len()
            invariant
                self.wf(),
                i <= self.rules@.len(),
                forall|j: int| 0 <= j < i ==> (#[trigger] self.rules@[j]).prefix@ != key@,
            decreases self.rules@.len() - i,
        {
            if same_chars(self.rules[i].prefix.as_str(), key) {
                return Some(i);
            }
            i = i + 1;
        }
        proof {
            if self@.dom().contains(key@) {
                let j = choose|j: int|
                    0 <= j < self.rules@.len() && (#[trigger] self.rules@[j]).prefix@ == key@;
            }
        }
        None
    }

    /// The model bound to `key`, if any.
    pub fn get(&self, key: &str) -> (r: Option<&String>)
        requires
            self.wf(),
        ensures
            r is Some <==> self@.dom().contains(key@),
            r matches Some(m) ==> m@ == self@[key@],
    {
        match self.position(key) {
            Some(i) => Some(&self.rules[i].model),
            None => None,
        }
    }

    /// Binds `prefix` to `model` unless `prefix` is a key already: the first binding stays.
    /// Returns whether the table changed.
    pub fn insert_if_absent(&mut self, prefix: String, model: String) -> (added: bool)
        requires
            old(self).wf(),
            prefix@.len() > 0,
        ensures
            final(self).wf(),
            added == !old(self)@.dom().contains(prefix@),
            final(self)@ == bind_first(old(self)@, prefix@, model@),
            !added ==> *final(self) == *old(self),
    {
        if self.position(prefix.as_str()).is_some() {
            return false;
        }
        let ghost old_rules = self.rules@;
        let ghost k = prefix@;
        let ghost v = model@;
        self.rules.push(PrefixRule { prefix, model });
        self.contents = Ghost(self.contents@.insert(k, v));
        proof {
            let r = self.rules@;
            assert(r.len() == old_rules.len() + 1);
            assert forall|i: int| 0 <= i < old_rules.len() implies r[i] == old_rules[i] by {}
            assert forall|i: int, j: int| 0 <= i < j < r.len() implies (#[trigger] r[i]).prefix@
                != (#[trigger] r[j]).prefix@ by {
                if j == old_rules.len() {
                    assert(old_rules[i].prefix@ != k);
                }
            }
            assert forall|kk: Seq<char>| #[trigger] self.contents@.dom().contains(kk) implies exists|
                i: int,
            | 0 <= i < r.len() && (#[trigger] r[i]).prefix@ == kk by {
                if kk == k {
                    assert(r[old_rules.len() as int].prefix@ == kk);
                } else {
                    let i = choose|i: int|
                        0 <= i < old_rules.len() && (#[trigger] old_rules[i]).prefix@ == kk;
                    assert(r[i].prefix@ == kk);
                }
            }
        }
        true
    }

    /// Removes `key` and returns the model it was bound to; leaves the table as it is
    /// when `key` is not a key.
    pub fn remove(&mut self, key: &str) -> (r: Option<String>)
        requires
            old(self).wf(),
        ensures
            final(self).wf(),
            r is Some <==> old(self)@.dom().contains(key@),
            r matches Some(m) ==> m@ == old(self)@[key@] && final(self)@ == old(self)@.remove(key@),
            r is None ==> *final(self) == *old(self),
    {
        match self.position(key) {
            None => None,
            Some(i) => {
                let ghost old_rules = self.rules@;
                let rule = self.rules.remove(i);
                self.contents = Ghost(self.contents@.remove(key@));
                proof {
                    let r = self.rules@;
                    assert forall|j: int| 0 <= j < r.len() implies #[trigger] r[j] == (if j < i {
                        old_rules[j]
                    } else {
                        old_rules[j + 1]
                    }) by {}
                    assert forall|a: int, b: int| 0 <= a < b < r.len() implies (#[trigger] r[a]).prefix@
                        != (#[trigger] r[b]).prefix@ by {
                        let a0 = if a < i { a } else { a + 1 };
                        let b0 = if b < i { b } else { b + 1 };
                        assert(old_rules[a0].prefix@ != old_rules[b0].prefix@);
                    }
                    assert forall|j: int| 0 <= j < r.len() implies {
                        &&& self.contents@.dom().contains((#[trigger] r[j]).prefix@)
                        &&& self.contents@[r[j].prefix@] == r[j].model@
                        &&& r[j].prefix@.len() > 0
                    } by {
                        let j0 = if j < i { j } else { j + 1 };
                        assert(old_rules[j0] == r[j]);
                        if j0 < i {
                            assert(old_rules[j0].prefix@ != old_rules[i as int].prefix@);
                        } else {
                            assert(old_rules[i as int].prefix@ != old_rules[j0].prefix@);
                        }
                    }
                    assert forall|kk: Seq<char>| #[trigger] self.contents@.dom().contains(kk) implies exists|
                        j: int,
                    | 0 <= j < r.len() && (#[trigger] r[j]).prefix@ == kk by {
                        let j0 = choose|j: int|
                            0 <= j < old_rules.len() && (#[trigger] old_rules[j]).prefix@ == kk;
                        assert(j0 != i);
                        let j1 = if j0 < i { j0 } else { j0 - 1 };
                        assert(r[j1].prefix@ == kk);
                    }
                }
                Some(rule.model)
            },
        }
    }

    /// Finds the longest key that starts `text`, and the question after it.
    /// There is no route where no key starts `text`, or where the longest one is all of it.
    pub fn dispatch(&self, text: &str) -> (r: Option<RoutingMatch>)
        requires
            self.wf(),
        ensures
            r is None <==> no_route(self@, text@),
            r matches Some(m) ==> {
                &&& is_longest_match(self@, text@, m.prefix@)
                &&& m.model@ == self@[m.prefix@]
                &&& m.remainder@ == text@.subrange(m.prefix@.len() as int, text@.len() as int)
                &&& m.remainder@.len() > 0
            },
    {
        let mut best: Option<usize> = None;
        let mut i: usize = 0;
        while i < self.rules.len()
            invariant
                self.wf(),
                i <= self.rules@.len(),
                best matches Some(b) ==> b < i && is_prefix_of(self.rules@[b as int].prefix@, text@),
                forall|j: int|
                    0 <= j < i && is_prefix_of((#[trigger] self.rules@[j]).prefix@, text@) ==> (
                    best matches Some(b) && self.rules@[j].prefix@.len()
                        <= self.rules@[b as int].prefix@.len()),
            decreases self.rules@.len() - i,
        {
            if starts_with_chars(text, self.rules[i].prefix.as_str()) {
                let longer = match best {
                    None => true,
                    Some(b) => self.rules[b].prefix.unicode_len() < self.rules[i].prefix.unicode_len(),
                };
                if longer {
                    best = Some(i);
                }
            }
            i = i + 1;
        }
        proof {
            assert forall|q: Seq<char>| matches_key(self@, text@, q) implies (best matches Some(b)
                && q.len() <= self.rules@[b as int].prefix@.len()) by {
                let j = choose|j: int|
                    0 <= j < self.rules@.len() && (#[trigger] self.rules@[j]).prefix@ == q;
            }
            assert(text@.subrange(0, text@.len() as int) =~= text@);
        }
        match best {
            None => None,
            Some(b) => {
                let rule = &self.rules[b];
                let plen = rule.prefix.unicode_len();
                let tlen = text.unicode_len();
                if plen == tlen {
                    proof {
                        assert(text@ =~= rule.prefix@);
                    }
                    return None;
                }
                proof {
                    assert(matches_key(self@, text@, rule.prefix@));
                    if self@.dom().contains(text@) {
                        assert(matches_key(self@, text@, text@));
                    }
                }
                let rest = text.substring_char(plen, tlen);
                Some(
                    RoutingMatch {
                        prefix: rule.prefix.clone(),
                        model: rule.model.clone(),
                        remainder: String::from_str(rest),
                    },
                )
            },
        }
    }
}

} // verus!
