//! The in-memory rule store: at most one enforced capture label per
//! extension.  Loading and saving the rule file is the caller's business.

use vstd::prelude::*;

use crate::text::lemma_lex_le_total;
use crate::text::lex_lt;
use crate::text::str_eq;
use crate::text::str_le;
use vstd::pervasive::VecAdditionalExecFns;

verus! {

/// One rule: the extension to watch and the capture label to enforce.
#[derive(Debug, Clone)]
pub struct RuleEntry {
    pub ext: String,
    pub label: String,
}

/// The rule store: entries with pairwise distinct extensions.
#[derive(Debug)]
pub struct RuleStore {
    pub entries: Vec<RuleEntry>,
}

impl RuleStore {
    pub open spec fn ext_at(self, i: int) -> Seq<char> {
        self.entries@[i].ext@
    }

    /// No two rules share an extension.
    pub open spec fn wf(self) -> bool {
        forall|i: int, j: int|
            #![trigger self.ext_at(i), self.ext_at(j)]
            0 <= i < j < self.entries@.len() ==> self.ext_at(i) != self.ext_at(j)
    }

    pub open spec fn contains_ext(self, ext: Seq<char>) -> bool {
        exists|i: int| 0 <= i < self.entries@.len() && #[trigger] self.ext_at(i) == ext
    }

    /// An empty store.
    pub fn new() -> (r: RuleStore)
        ensures
            r.wf(),
            r.entries@.len() == 0,
    {
        RuleStore { entries: Vec::new() }
    }
}

fn find_rule(store: &RuleStore, ext: &str) -> (r: Option<usize>)
    ensures
        match r {
            Some(i) => i < store.entries@.len() && store.ext_at(i as int) == ext@,
            None => !store.contains_ext(ext@),
        },
{
    let n = store.entries.len();
    let mut i: usize = 0;
    while i < n
        invariant
            0 <= i <= n == store.entries@.len(),
            forall|k: int| 0 <= k < i ==> #[trigger] store.ext_at(k) != ext@,
        decreases n - i,
    {
        if str_eq(store.entries[i].ext.as_str(), ext) {
            return Some(i);
        }
        i = i + 1;
    }
    None
}

/// Binds an extension to a capture label, replacing any earlier binding of
/// that extension and touching nothing else.
pub fn upsert_rule(store: &mut RuleStore, ext: &str, name: &str)
    requires
        old(store).wf(),
    ensures
        final(store).wf(),
        final(store).contains_ext(ext@),
        ({
            let before = old(store).entries@;
            let after = final(store).entries@;
            if old(store).contains_ext(ext@) {
                after.len() == before.len() && (exists|i: int|
                    0 <= i < before.len() && old(store).ext_at(i) == ext@
                        && #[trigger] final(store).ext_at(i) == ext@ && after[i].label@ == name@
                        && (forall|j: int|
                        0 <= j < before.len() && j != i ==> after[j] == before[j]))
            } else {
                after.len() == before.len() + 1 && final(store).ext_at(before.len() as int) == ext@
                    && after[before.len() as int].label@ == name@ && (forall|j: int|
                    0 <= j < before.len() ==> after[j] == before[j])
            }
        }),
{
    let entry = RuleEntry { ext: String::from_str(ext), label: String::from_str(name) };
    match find_rule(store, ext) {
        Some(i) => {
            store.entries.set(i, entry);
            proof {
                assert(old(store).ext_at(i as int) == ext@);
                assert(final(store).ext_at(i as int) == ext@);
                assert forall|a: int, b: int|
                    0 <= a < b < final(store).entries@.len() implies #[trigger] final(store).ext_at(
                    a,
                ) != #[trigger] final(store).ext_at(b) by {
                    assert(final(store).ext_at(a) == old(store).ext_at(a));
                    assert(final(store).ext_at(b) == old(store).ext_at(b));
                }
            }
        },
        None => {
            store.entries.push(entry);
            proof {
                let n = old(store).entries@.len() as int;
                assert(final(store).ext_at(n) == ext@);
                assert forall|a: int, b: int|
                    0 <= a < b < final(store).entries@.len() implies #[trigger] final(store).ext_at(
                    a,
                ) != #[trigger] final(store).ext_at(b) by {
                    if b < n {
                        assert(final(store).ext_at(a) == old(store).ext_at(a));
                        assert(final(store).ext_at(b) == old(store).ext_at(b));
                    } else {
                        assert(final(store).ext_at(a) == old(store).ext_at(a));
                        assert(final(store).ext_at(b) == ext@);
                    }
                }
            }
        },
    }
}

/// Removes the rule for an extension; reports whether one was there.
pub fn remove_rule(store: &mut RuleStore, ext: &str) -> (r: bool)
    requires
        old(store).wf(),
    ensures
        final(store).wf(),
        r == old(store).contains_ext(ext@),
        !final(store).contains_ext(ext@),
        if r {
            exists|i: int|
                0 <= i < old(store).entries@.len() && #[trigger] old(store).ext_at(i) == ext@
                    && final(store).entries@ == old(store).entries@.remove(i)
        } else {
            final(store).entries@ == old(store).entries@
        },
{
    match find_rule(store, ext) {
        Some(i) => {
            store.entries.remove(i);
            proof {
                let n = old(store).entries@.len() as int;
                assert(old(store).ext_at(i as int) == ext@);
                assert forall|a: int|
                    0 <= a < final(store).entries@.len() implies #[trigger] final(store).ext_at(a)
                    == (if a < i {
                    old(store).ext_at(a)
                } else {
                    old(store).ext_at(a + 1)
                }) by {
                    if a < i {
                        assert(final(store).entries@[a] == old(store).entries@[a]);
                    } else {
                        assert(final(store).entries@[a] == old(store).entries@[a + 1]);
                    }
                }
                assert forall|a: int, b: int|
                    0 <= a < b < final(store).entries@.len() implies #[trigger] final(store).ext_at(
                    a,
                ) != #[trigger] final(store).ext_at(b) by {}
                assert(!final(store).contains_ext(ext@)) by {
                    if final(store).contains_ext(ext@) {
                        let a = choose|a: int|
                            0 <= a < final(store).entries@.len() && #[trigger] final(store).ext_at(
                                a,
                            ) == ext@;
                        if a < i {
                            assert(old(store).ext_at(a) == ext@);
                        } else {
                            assert(old(store).ext_at(a + 1) == ext@);
                        }
                    }
                }
            }
            true
        },
        None => false,
    }
}

/// Whether the listed pairs hold a given (extension, label), by characters.
pub open spec fn has_pair(v: Seq<(String, String)>, e: Seq<char>, l: Seq<char>) -> bool {
    exists|k: int| 0 <= k < v.len() && (#[trigger] v[k]).0@ == e && v[k].1@ == l
}

/// Strictly ascending by extension; in particular, each extension once.
pub open spec fn pairs_strictly_sorted(v: Seq<(String, String)>) -> bool {
    forall|k: int| #![trigger v[k]] 0 <= k < v.len() - 1 ==> lex_lt(v[k].0@, v[k + 1].0@)
}

fn insert_pair_sorted(v: &mut Vec<(String, String)>, x: (String, String))
    requires
        pairs_strictly_sorted(old(v)@),
        forall|k: int| 0 <= k < old(v)@.len() ==> (#[trigger] old(v)@[k]).0@ != x.0@,
    ensures
        pairs_strictly_sorted(final(v)@),
        forall|e: Seq<char>, l: Seq<char>| #![trigger has_pair(final(v)@, e, l)]
            has_pair(final(v)@, e, l) <==> (has_pair(old(v)@, e, l) || (e == x.0@ && l == x.1@)),
{
    let n = v.len();
    let mut pos: usize = 0;
    while pos < n && str_le(v[pos].0.as_str(), x.0.as_str())
        invariant
            0 <= pos <= n == v@.len(),
            pairs_strictly_sorted(v@),
            forall|k: int| 0 <= k < v@.len() ==> (#[trigger] v@[k]).0@ != x.0@,
            forall|k: int| 0 <= k < pos ==> lex_lt((#[trigger] v@[k]).0@, x.0@),
        decreases n - pos,
    {
        pos = pos + 1;
    }
    proof {
        if pos < n {
            lemma_lex_le_total(v@[pos as int].0@, x.0@);
        }
    }
    let ghost oldv = v@;
    v.insert(pos, x);
    proof {
        assert forall|k: int| 0 <= k < v@.len() - 1 implies lex_lt(
            (#[trigger] v@[k]).0@,
            v@[k + 1].0@,
        ) by {
            if k < pos - 1 {
                assert(v@[k] == oldv[k] && v@[k + 1] == oldv[k + 1]);
            } else if k == pos - 1 {
                assert(v@[k] == oldv[k]);
            } else if k == pos {
                assert(v@[k + 1] == oldv[k]);
            } else {
                assert(v@[k] == oldv[k - 1] && v@[k + 1] == oldv[k]);
            }
        }
        assert forall|e: Seq<char>, l: Seq<char>| #![trigger has_pair(v@, e, l)]
            has_pair(v@, e, l) <==> (has_pair(oldv, e, l) || (e == x.0@ && l == x.1@)) by {
            if has_pair(v@, e, l) {
                let k = choose|k: int|
                    0 <= k < v@.len() && (#[trigger] v@[k]).0@ == e && v@[k].1@ == l;
                if k < pos {
                    assert(oldv[k].0@ == e && oldv[k].1@ == l);
                } else if k == pos {
                } else {
                    assert(oldv[k - 1].0@ == e && oldv[k - 1].1@ == l);
                }
            }
            if has_pair(oldv, e, l) {
                let k = choose|k: int|
                    0 <= k < oldv.len() && (#[trigger] oldv[k]).0@ == e && oldv[k].1@ == l;
                if k < pos {
                    assert(v@[k].0@ == e && v@[k].1@ == l);
                } else {
                    assert(v@[k + 1].0@ == e && v@[k + 1].1@ == l);
                }
            }
            if e == x.0@ && l == x.1@ {
                assert(v@[pos as int].0@ == e && v@[pos as int].1@ == l);
            }
        }
    }
}

/// All rules as (extension, label) pairs, ascending by extension.
pub fn list_rules(store: &RuleStore) -> (r: Vec<(String, String)>)
    requires
        store.wf(),
    ensures
        pairs_strictly_sorted(r@),
        forall|e: Seq<char>, l: Seq<char>| #![trigger has_pair(r@, e, l)]
            has_pair(r@, e, l) <==> (exists|i: int|
                0 <= i < store.entries@.len() && #[trigger] store.ext_at(i) == e
                    && store.entries@[i].label@ == l),
{
    let total = store.entries.len();
    let mut out: Vec<(String, String)> = Vec::new();
    let mut i: usize = 0;
    while i < total
        invariant
            store.wf(),
            0 <= i <= total == store.entries@.len(),
            pairs_strictly_sorted(out@),
            forall|e: Seq<char>, l: Seq<char>| #![trigger has_pair(out@, e, l)]
                has_pair(out@, e, l) <==> (exists|j: int|
                    0 <= j < i && #[trigger] store.ext_at(j) == e && store.entries@[j].label@
                        == l),
        decreases total - i,
    {
        let entry = &store.entries[i];
        proof {
            assert forall|k: int| 0 <= k < out@.len() implies (#[trigger] out@[k]).0@
                != entry.ext@ by {
                if out@[k].0@ == entry.ext@ {
                    assert(has_pair(out@, out@[k].0@, out@[k].1@));
                    let j = choose|j: int|
                        0 <= j < i && #[trigger] store.ext_at(j) == out@[k].0@
                            && store.entries@[j].label@ == out@[k].1@;
                    assert(store.ext_at(j) != store.ext_at(i as int));
                }
            }
        }
        let ghost oldout = out@;
        insert_pair_sorted(&mut out, (entry.ext.clone(), entry.label.clone()));
        proof {
            assert forall|e: Seq<char>, l: Seq<char>| #![trigger has_pair(out@, e, l)]
                has_pair(out@, e, l) <==> (exists|j: int|
                    0 <= j < i + 1 && #[trigger] store.ext_at(j) == e && store.entries@[j].label@
                        == l) by {
                if has_pair(out@, e, l) {
                    if has_pair(oldout, e, l) {
                        let j = choose|j: int|
                            0 <= j < i && #[trigger] store.ext_at(j) == e
                                && store.entries@[j].label@ == l;
                        assert(store.ext_at(j) == e && store.entries@[j].label@ == l);
                    } else {
                        assert(store.ext_at(i as int) == e && store.entries@[i as int].label@
                            == l);
                    }
                }
                if exists|j: int|
                    0 <= j < i + 1 && #[trigger] store.ext_at(j) == e && store.entries@[j].label@
                        == l {
                    let j = choose|j: int|
                        0 <= j < i + 1 && #[trigger] store.ext_at(j) == e
                            && store.entries@[j].label@ == l;
                    if j < i {
                        assert(has_pair(oldout, e, l));
                    } else {
                        assert(e == entry.ext@ && l == entry.label@);
                    }
                }
            }
        }
        i = i + 1;
    }
    out
}

} // verus!
