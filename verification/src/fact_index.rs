//! The facts a knowledge base is told, and the exact answers they give: the
//! objects a subject has under a predicate, and the predicates a subject is
//! used with.
use vstd::prelude::*;
use crate::text::{str_eq, string_from, views};

verus! {

/// A fact: subject, predicate, object.
pub type FactView = (Seq<char>, Seq<char>, Seq<char>);

pub open spec fn fact_views(facts: Seq<(String, String, String)>) -> Seq<FactView> {
    facts.map_values(|f: (String, String, String)| (f.0@, f.1@, f.2@))
}

/// `acc` with `x` added at the end unless it is already there.
pub open spec fn push_new(acc: Seq<Seq<char>>, x: Seq<char>) -> Seq<Seq<char>> {
    if acc.contains(x) {
        acc
    } else {
        acc.push(x)
    }
}

/// The objects of the facts `s --p--> o`, each once, in the order in which
/// they were first told.
pub open spec fn objects_of(facts: Seq<FactView>, s: Seq<char>, p: Seq<char>) -> Seq<Seq<char>>
    decreases facts.len(),
{
    if facts.len() == 0 {
        seq![]
    } else {
        let acc = objects_of(facts.drop_last(), s, p);
        let f = facts.last();
        if f.0 == s && f.1 == p {
            push_new(acc, f.2)
        } else {
            acc
        }
    }
}

/// The predicates of the facts about `s`, each once, in the order in which
/// they were first told.
pub open spec fn predicates_of(facts: Seq<FactView>, s: Seq<char>) -> Seq<Seq<char>>
    decreases facts.len(),
{
    if facts.len() == 0 {
        seq![]
    } else {
        let acc = predicates_of(facts.drop_last(), s);
        let f = facts.last();
        if f.0 == s {
            push_new(acc, f.1)
        } else {
            acc
        }
    }
}

/// The facts told so far, in order.
#[derive(Debug)]
pub struct FactIndex {
    pub facts: Vec<(String, String, String)>,
}

/// Whether `v` holds `x`.
fn holds(v: &Vec<String>, x: &str) -> (b: bool)
    ensures
        b == views(v@).contains(x@),
{
    let mut i: usize = 0;
    while i < v.len()
        invariant
            0 <= i <= v@.len(),
            forall|k: int| 0 <= k < i ==> (#[trigger] v@[k])@ != x@,
        decreases v.len() - i,
    {
        if str_eq(v[i].as_str(), x) {
            assert(views(v@)[i as int] == x@);
            return true;
        }
        i += 1;
    }
    assert(!views(v@).contains(x@)) by {
        if views(v@).contains(x@) {
            let k = choose|k: int| 0 <= k < views(v@).len() && views(v@)[k] == x@;
            assert(v@[k]@ == x@);
        }
    }
    false
}

impl FactIndex {
    pub open spec fn view_facts(&self) -> Seq<FactView> {
        fact_views(self.facts@)
    }

    pub fn new() -> (ix: FactIndex)
        ensures
            ix.facts@.len() == 0,
    {
        FactIndex { facts: Vec::new() }
    }

    /// Tells the fact `s --p--> o`.
    pub fn add_fact(&mut self, s: &str, p: &str, o: &str)
        ensures
            final(self).view_facts() == old(self).view_facts().push((s@, p@, o@)),
    {
        self.facts.push((string_from(s), string_from(p), string_from(o)));
        assert(self.view_facts() =~= old(self).view_facts().push((s@, p@, o@)));
    }

    /// The objects `s` has under `p`, each once, first told first.
    pub fn objects(&self, s: &str, p: &str) -> (r: Vec<String>)
        ensures
            views(r@) == objects_of(self.view_facts(), s@, p@),
    {
        let ghost fs = self.view_facts();
        let mut r: Vec<String> = Vec::new();
        let mut i: usize = 0;
        while i < self.facts.len()
            invariant
                0 <= i <= self.facts@.len(),
                fs == self.view_facts(),
                views(r@) == objects_of(fs.take(i as int), s@, p@),
            decreases self.facts.len() - i,
        {
            let f = &self.facts[i];
            proof {
                assert(fs.take(i + 1).drop_last() =~= fs.take(i as int));
                assert(fs.take(i + 1).last() == (f.0@, f.1@, f.2@));
            }
            if str_eq(f.0.as_str(), s) && str_eq(f.1.as_str(), p) {
                if !holds(&r, f.2.as_str()) {
                    let ghost before = r@;
                    r.push(f.2.clone());
                    assert(views(r@) =~= views(before).push(f.2@));
                }
            }
            i += 1;
        }
        assert(fs.take(fs.len() as int) =~= fs);
        r
    }

    /// The predicates `s` is used with, each once, first told first.
    pub fn predicates_used_with(&self, s: &str) -> (r: Vec<String>)
        ensures
            views(r@) == predicates_of(self.view_facts(), s@),
    {
        let ghost fs = self.view_facts();
        let mut r: Vec<String> = Vec::new();
        let mut i: usize = 0;
        while i < self.facts.len()
            invariant
                0 <= i <= self.facts@.len(),
                fs == self.view_facts(),
                views(r@) == predicates_of(fs.take(i as int), s@),
            decreases self.facts.len() - i,
        {
            let f = &self.facts[i];
            proof {
                assert(fs.take(i + 1).drop_last() =~= fs.take(i as int));
                assert(fs.take(i + 1).last() == (f.0@, f.1@, f.2@));
            }
            if str_eq(f.0.as_str(), s) {
                if !holds(&r, f.1.as_str()) {
                    let ghost before = r@;
                    r.push(f.1.clone());
                    assert(views(r@) =~= views(before).push(f.1@));
                }
            }
            i += 1;
        }
        assert(fs.take(fs.len() as int) =~= fs);
        r
    }

    pub fn len(&self) -> (n: usize)
        ensures
            n == self.facts@.len(),
    {
        self.facts.len()
    }
}

/// Every object is listed once: the answers hold no duplicates.
pub proof fn law_objects_distinct(facts: Seq<FactView>, s: Seq<char>, p: Seq<char>)
    ensures
        objects_of(facts, s, p).no_duplicates(),
    decreases facts.len(),
{
    if facts.len() > 0 {
        law_objects_distinct(facts.drop_last(), s, p);
    }
}

/// What was told is known: after `s --p--> o` is told, `o` is among the
/// objects `s` has under `p`.
pub proof fn law_told_is_known(facts: Seq<FactView>, s: Seq<char>, p: Seq<char>, o: Seq<char>)
    ensures
        objects_of(facts.push((s, p, o)), s, p).contains(o),
        predicates_of(facts.push((s, p, o)), s).contains(p),
{
    let f2 = facts.push((s, p, o));
    assert(f2.drop_last() =~= facts);
    let acc = objects_of(facts, s, p);
    if !acc.contains(o) {
        assert(acc.push(o)[acc.len() as int] == o);
    }
    let pacc = predicates_of(facts, s);
    if !pacc.contains(p) {
        assert(pacc.push(p)[pacc.len() as int] == p);
    }
}

} // verus!
