//! The vectors a knowledge base gives its entities and predicates, and the
//! bundle of each predicate.
use vstd::prelude::*;
use rand::rngs::StdRng;
use crate::fact_index::{fact_views, push_new, FactIndex, FactView};
use crate::ternary_vsa::{bipolar, TernaryVSA};
use crate::text::str_eq;

verus! {

/// Names, each once, with a vector for each.
#[derive(Debug)]
pub struct VectorTable {
    pub entries: Vec<(String, Vec<i8>)>,
}

pub open spec fn table_names(es: Seq<(String, Vec<i8>)>) -> Seq<Seq<char>> {
    es.map_values(|e: (String, Vec<i8>)| e.0@)
}

/// The names in `xs`, each once, first seen first.
pub open spec fn first_seen(xs: Seq<Seq<char>>) -> Seq<Seq<char>>
    decreases xs.len(),
{
    if xs.len() == 0 {
        seq![]
    } else {
        push_new(first_seen(xs.drop_last()), xs.last())
    }
}

/// The subjects and objects of the facts, in the order they are mentioned.
pub open spec fn entity_mentions(facts: Seq<FactView>) -> Seq<Seq<char>>
    decreases facts.len(),
{
    if facts.len() == 0 {
        seq![]
    } else {
        entity_mentions(facts.drop_last()) + seq![facts.last().0, facts.last().2]
    }
}

/// The predicates of the facts, in the order they are mentioned.
pub open spec fn predicate_mentions(facts: Seq<FactView>) -> Seq<Seq<char>>
    decreases facts.len(),
{
    if facts.len() == 0 {
        seq![]
    } else {
        predicate_mentions(facts.drop_last()).push(facts.last().1)
    }
}

/// Every vector of the table is bipolar and `dim` long.
pub open spec fn vectors_ok(es: Seq<(String, Vec<i8>)>, dim: nat) -> bool {
    forall|k: int| 0 <= k < es.len() ==> (#[trigger] es[k]).1@.len() == dim && bipolar(es[k].1@)
}

/// The table is sound for vectors of `dim` elements: each name is listed
/// once and every vector is bipolar and `dim` long.
pub open spec fn table_ok(es: Seq<(String, Vec<i8>)>, dim: nat) -> bool {
    vectors_ok(es, dim) && table_names(es).no_duplicates()
}

proof fn lemma_first_seen_distinct(xs: Seq<Seq<char>>)
    requires
        xs.no_duplicates(),
    ensures
        first_seen(xs) == xs,
    decreases xs.len(),
{
    if xs.len() > 0 {
        let d = xs.drop_last();
        assert(d.no_duplicates()) by {
            assert forall|i: int, j: int| 0 <= i < d.len() && 0 <= j < d.len() && i != j implies d[i] != d[j] by {
                assert(d[i] == xs[i] && d[j] == xs[j]);
            }
        }
        lemma_first_seen_distinct(d);
        if d.contains(xs.last()) {
            let k = choose|k: int| 0 <= k < d.len() && d[k] == xs.last();
            assert(xs[k] == xs[xs.len() - 1]);
        }
        assert(d.push(xs.last()) =~= xs);
    }
}

/// The vector of the first entry named `name`.
pub open spec fn vector_of(es: Seq<(String, Vec<i8>)>, name: Seq<char>) -> Seq<i8>
    decreases es.len(),
{
    if es.len() == 0 {
        seq![]
    } else if es[0].0@ == name {
        es[0].1@
    } else {
        vector_of(es.drop_first(), name)
    }
}

proof fn lemma_vector_of_index(es: Seq<(String, Vec<i8>)>, name: Seq<char>, k: int)
    requires
        0 <= k < es.len(),
        es[k].0@ == name,
        forall|j: int| 0 <= j < k ==> (#[trigger] es[j]).0@ != name,
    ensures
        vector_of(es, name) == es[k].1@,
    decreases k,
{
    if k > 0 {
        lemma_vector_of_index(es.drop_first(), name, k - 1);
    }
}

proof fn lemma_first_seen_push(xs: Seq<Seq<char>>, a: Seq<char>)
    ensures
        first_seen(xs.push(a)) == push_new(first_seen(xs), a),
{
    assert(xs.push(a).drop_last() =~= xs);
}

proof fn lemma_first_seen_contains(xs: Seq<Seq<char>>, x: Seq<char>)
    ensures
        first_seen(xs).contains(x) <==> xs.contains(x),
    decreases xs.len(),
{
    if xs.len() > 0 {
        lemma_first_seen_contains(xs.drop_last(), x);
        let fs = first_seen(xs.drop_last());
        if xs.contains(x) && !xs.drop_last().contains(x) {
            let k = choose|k: int| 0 <= k < xs.len() && xs[k] == x;
            if k < xs.len() - 1 {
                assert(xs.drop_last()[k] == x);
            }
            if !fs.contains(xs.last()) {
                assert(fs.push(xs.last())[fs.len() as int] == x);
            }
        }
        if xs.drop_last().contains(x) {
            let k = choose|k: int| 0 <= k < xs.drop_last().len() && xs.drop_last()[k] == x;
            assert(xs[k] == x);
            if !fs.contains(xs.last()) {
                let j = choose|j: int| 0 <= j < fs.len() && fs[j] == x;
                assert(fs.push(xs.last())[j] == x);
            }
        }
        if first_seen(xs).contains(x) && !fs.contains(x) {
            assert(x == xs.last());
            assert(xs[xs.len() - 1] == x);
        }
    }
}

/// The position of the first entry named `name`.
fn position(es: &Vec<(String, Vec<i8>)>, name: &str) -> (r: Option<usize>)
    ensures
        r matches Some(k) ==> k < es@.len() && es@[k as int].0@ == name@ && forall|j: int|
            0 <= j < k ==> (#[trigger] es@[j]).0@ != name@,
        r is None <==> !table_names(es@).contains(name@),
{
    let mut i: usize = 0;
    while i < es.len()
        invariant
            0 <= i <= es@.len(),
            forall|j: int| 0 <= j < i ==> (#[trigger] es@[j]).0@ != name@,
        decreases es.len() - i,
    {
        if str_eq(es[i].0.as_str(), name) {
            assert(table_names(es@)[i as int] == name@);
            return Some(i);
        }
        i += 1;
    }
    proof {
        if table_names(es@).contains(name@) {
            let k = choose|k: int| 0 <= k < table_names(es@).len() && table_names(es@)[k] == name@;
            assert(es@[k].0@ == name@);
        }
    }
    None
}

impl VectorTable {
    pub fn new() -> (t: VectorTable)
        ensures
            t.entries@.len() == 0,
    {
        VectorTable { entries: Vec::new() }
    }

    /// Whether the table is sound for vectors of `dim` elements (see
    /// [`table_ok`]).
    pub fn fits(&self, dim: usize) -> (b: bool)
        ensures
            b == table_ok(self.entries@, dim as nat),
    {
        let es = &self.entries;
        let mut i: usize = 0;
        while i < es.len()
            invariant
                0 <= i <= es@.len(),
                es@ == self.entries@,
                vectors_ok(es@.take(i as int), dim as nat),
                table_names(es@.take(i as int)).no_duplicates(),
            decreases es.len() - i,
        {
            let v = &es[i].1;
            if v.len() != dim {
                proof {
                    assert(es@[i as int].1@.len() != dim);
                    assert(!vectors_ok(self.entries@, dim as nat));
                }
                return false;
            }
            let mut j: usize = 0;
            while j < v.len()
                invariant
                    0 <= j <= v@.len(),
                    i < es@.len(),
                    v@ == es@[i as int].1@,
                    es@ == self.entries@,
                    forall|q: int| 0 <= q < j ==> #[trigger] v@[q] == 1 || v@[q] == -1,
                decreases v.len() - j,
            {
                if v[j] != 1 && v[j] != -1 {
                    proof {
                        assert(!bipolar(es@[i as int].1@)) by {
                            assert(es@[i as int].1@[j as int] == v@[j as int]);
                        }
                        assert(!vectors_ok(self.entries@, dim as nat));
                    }
                    return false;
                }
                j += 1;
            }
            let pos = position(es, es[i].0.as_str());
            proof {
                assert(table_names(es@)[i as int] == es@[i as int].0@);
            }
            match pos {
                Some(k) => {
                    if k < i {
                        proof {
                            assert(table_names(es@)[k as int] == table_names(es@)[i as int]);
                        }
                        return false;
                    }
                },
                None => {},
            }
            proof {
                let t = es@.take(i + 1);
                assert(pos is Some);
                assert(forall|j: int| 0 <= j < i ==> (#[trigger] es@[j]).0@ != es@[i as int].0@);
                assert(t.drop_last() =~= es@.take(i as int));
                assert forall|a: int, b: int| 0 <= a < t.len() && 0 <= b < t.len() && a != b implies table_names(t)[a]
                    != table_names(t)[b] by {
                    if a < i && b < i {
                        assert(table_names(t)[a] == table_names(es@.take(i as int))[a]);
                        assert(table_names(t)[b] == table_names(es@.take(i as int))[b]);
                    } else if a < i {
                        assert(table_names(t)[a] == es@[a].0@);
                        assert(table_names(t)[b] == es@[i as int].0@);
                    } else {
                        assert(table_names(t)[b] == es@[b].0@);
                        assert(table_names(t)[a] == es@[i as int].0@);
                    }
                }
                assert forall|q: int| 0 <= q < t.len() implies (#[trigger] t[q]).1@.len() == dim && bipolar(t[q].1@) by {
                    if q < i {
                        assert(t[q] == es@.take(i as int)[q]);
                    }
                }
            }
            i += 1;
        }
        assert(es@.take(es@.len() as int) =~= es@);
        true
    }

    /// The vector kept for `name`, if any.
    pub fn get(&self, name: &str) -> (r: Option<&Vec<i8>>)
        ensures
            r is None <==> !table_names(self.entries@).contains(name@),
            r matches Some(v) ==> v@ == vector_of(self.entries@, name@),
    {
        match position(&self.entries, name) {
            Some(k) => {
                proof {
                    lemma_vector_of_index(self.entries@, name@, k as int);
                }
                Some(&self.entries[k].1)
            },
            None => None,
        }
    }

    /// Draws a fresh bipolar vector for `name` unless it has one.
    fn add_new(&mut self, name: &str, vsa: &TernaryVSA, rng: &mut StdRng)
        requires
            table_ok(old(self).entries@, vsa.dim as nat),
        ensures
            table_names(final(self).entries@) == push_new(table_names(old(self).entries@), name@),
            table_ok(final(self).entries@, vsa.dim as nat),
            final(self).entries@.len() >= old(self).entries@.len(),
            forall|k: int| 0 <= k < old(self).entries@.len() ==> #[trigger] final(self).entries@[k] == old(self).entries@[k],
    {
        match position(&self.entries, name) {
            Some(_) => {},
            None => {
                let v = vsa.random_bipolar(rng);
                let ghost before = self.entries@;
                self.entries.push((name.to_string(), v));
                assert(table_names(self.entries@) =~= table_names(before).push(name@));
            },
        }
    }
}

/// The entity and predicate vectors of the facts of `index`: walking the
/// facts in order, each subject, object and predicate not seen before gets
/// a fresh random bipolar vector of `vsa.dim` elements, drawn in that order.
pub fn assign_vectors(
    index: &FactIndex,
    vsa: &TernaryVSA,
    rng: &mut StdRng,
    entities: VectorTable,
    predicates: VectorTable,
) -> (r: (VectorTable, VectorTable))
    requires
        table_ok(entities.entries@, vsa.dim as nat),
        table_ok(predicates.entries@, vsa.dim as nat),
    ensures
        table_names(r.0.entries@) == first_seen(table_names(entities.entries@) + entity_mentions(index.view_facts())),
        table_names(r.1.entries@) == first_seen(table_names(predicates.entries@) + predicate_mentions(index.view_facts())),
        table_ok(r.0.entries@, vsa.dim as nat),
        table_ok(r.1.entries@, vsa.dim as nat),
        forall|k: int| 0 <= k < entities.entries@.len() ==> #[trigger] r.0.entries@[k] == entities.entries@[k],
        forall|k: int| 0 <= k < predicates.entries@.len() ==> #[trigger] r.1.entries@[k] == predicates.entries@[k],
{
    let ghost fs = index.view_facts();
    let ghost e0 = entities.entries@;
    let ghost p0 = predicates.entries@;
    let mut entities = entities;
    let mut predicates = predicates;
    proof {
        lemma_first_seen_distinct(table_names(e0));
        lemma_first_seen_distinct(table_names(p0));
        assert(table_names(e0) + entity_mentions(fs.take(0)) =~= table_names(e0));
        assert(table_names(p0) + predicate_mentions(fs.take(0)) =~= table_names(p0));
    }
    let mut i: usize = 0;
    while i < index.facts.len()
        invariant
            0 <= i <= index.facts@.len(),
            fs == index.view_facts(),
            table_names(entities.entries@) == first_seen(table_names(e0) + entity_mentions(fs.take(i as int))),
            table_names(predicates.entries@) == first_seen(table_names(p0) + predicate_mentions(fs.take(i as int))),
            table_ok(entities.entries@, vsa.dim as nat),
            table_ok(predicates.entries@, vsa.dim as nat),
            entities.entries@.len() >= e0.len(),
            predicates.entries@.len() >= p0.len(),
            forall|k: int| 0 <= k < e0.len() ==> #[trigger] entities.entries@[k] == e0[k],
            forall|k: int| 0 <= k < p0.len() ==> #[trigger] predicates.entries@[k] == p0[k],
        decreases index.facts.len() - i,
    {
        let f = &index.facts[i];
        let ghost prev = fs.take(i as int);
        proof {
            assert(fs.take(i + 1).drop_last() =~= prev);
            assert(fs.take(i + 1).last() == (f.0@, f.1@, f.2@));
            let em = table_names(e0) + entity_mentions(prev);
            assert(table_names(e0) + entity_mentions(fs.take(i + 1)) =~= em.push(f.0@).push(f.2@));
            lemma_first_seen_push(em, f.0@);
            lemma_first_seen_push(em.push(f.0@), f.2@);
            let pm = table_names(p0) + predicate_mentions(prev);
            assert(table_names(p0) + predicate_mentions(fs.take(i + 1)) =~= pm.push(f.1@));
            lemma_first_seen_push(pm, f.1@);
        }
        entities.add_new(f.0.as_str(), vsa, rng);
        entities.add_new(f.2.as_str(), vsa, rng);
        predicates.add_new(f.1.as_str(), vsa, rng);
        i += 1;
    }
    assert(fs.take(fs.len() as int) =~= fs);
    (entities, predicates)
}

/// Element `i` of the bundle of predicate `p`: the sum, over the facts
/// `s --p--> o`, of element `i` of the product of the vectors of `s` and `o`.
pub open spec fn bundle_at(facts: Seq<FactView>, es: Seq<(String, Vec<i8>)>, p: Seq<char>, i: int) -> int
    decreases facts.len(),
{
    if facts.len() == 0 {
        0
    } else {
        let f = facts.last();
        bundle_at(facts.drop_last(), es, p, i) + if f.1 == p {
            vector_of(es, f.0)[i] * vector_of(es, f.2)[i]
        } else {
            0
        }
    }
}

proof fn lemma_bundle_bound(facts: Seq<FactView>, es: Seq<(String, Vec<i8>)>, p: Seq<char>, i: int, dim: nat)
    requires
        vectors_ok(es, dim),
        0 <= i < dim,
        forall|k: int| 0 <= k < facts.len() ==> table_names(es).contains((#[trigger] facts[k]).0) && table_names(es).contains(facts[k].2),
    ensures
        -facts.len() <= bundle_at(facts, es, p, i) <= facts.len(),
    decreases facts.len(),
{
    if facts.len() > 0 {
        let f = facts.last();
        assert forall|k: int| 0 <= k < facts.drop_last().len() implies table_names(es).contains((#[trigger] facts.drop_last()[k]).0) && table_names(es).contains(facts.drop_last()[k].2) by {
            assert(facts.drop_last()[k] == facts[k]);
        }
        lemma_bundle_bound(facts.drop_last(), es, p, i, dim);
        if f.1 == p {
            assert(facts[facts.len() - 1] == f);
            lemma_vector_bipolar(es, f.0, dim);
            lemma_vector_bipolar(es, f.2, dim);
            let a = vector_of(es, f.0)[i];
            let b = vector_of(es, f.2)[i];
            assert(a == 1 || a == -1);
            assert(b == 1 || b == -1);
            assert(-1 <= a * b <= 1) by (nonlinear_arith)
                requires
                    a == 1 || a == -1,
                    b == 1 || b == -1,
            ;
        }
    }
}

proof fn lemma_vector_bipolar(es: Seq<(String, Vec<i8>)>, name: Seq<char>, dim: nat)
    requires
        vectors_ok(es, dim),
        table_names(es).contains(name),
    ensures
        vector_of(es, name).len() == dim,
        bipolar(vector_of(es, name)),
    decreases es.len(),
{
    if es[0].0@ != name {
        assert(vectors_ok(es.drop_first(), dim)) by {
            assert forall|k: int| 0 <= k < es.drop_first().len() implies (#[trigger] es.drop_first()[k]).1@.len() == dim && bipolar(es.drop_first()[k].1@) by {
                assert(es.drop_first()[k] == es[k + 1]);
            }
        }
        let k = choose|k: int| 0 <= k < table_names(es).len() && table_names(es)[k] == name;
        assert(k != 0);
        assert(table_names(es.drop_first())[k - 1] == name);
        lemma_vector_bipolar(es.drop_first(), name, dim);
    }
}

/// The bundle of predicate `p`: for each of the `dim` elements, the sum
/// over the facts `s --p--> o` of the product of the vectors of `s` and `o`.
fn predicate_bundle(index: &FactIndex, entities: &VectorTable, p: &str, dim: usize) -> (b: Vec<i64>)
    requires
        vectors_ok(entities.entries@, dim as nat),
        forall|k: int| 0 <= k < index.view_facts().len() ==> table_names(entities.entries@).contains(
            (#[trigger] index.view_facts()[k]).0,
        ) && table_names(entities.entries@).contains(index.view_facts()[k].2),
        index.facts@.len() < i64::MAX,
    ensures
        b@.len() == dim,
        forall|i: int| 0 <= i < dim ==> #[trigger] b@[i] as int == bundle_at(index.view_facts(), entities.entries@, p@, i),
{
    let ghost fs = index.view_facts();
    let ghost es = entities.entries@;
    let mut b: Vec<i64> = Vec::new();
    let mut j: usize = 0;
    while j < dim
        invariant
            0 <= j <= dim,
            b@.len() == j,
            forall|i: int| 0 <= i < j ==> #[trigger] b@[i] == 0,
        decreases dim - j,
    {
        b.push(0);
        j += 1;
    }
    let mut k: usize = 0;
    while k < index.facts.len()
        invariant
            0 <= k <= index.facts@.len(),
            index.facts@.len() < i64::MAX,
            fs == index.view_facts(),
            fs.len() == index.facts@.len(),
            es == entities.entries@,
            vectors_ok(es, dim as nat),
            forall|q: int| 0 <= q < fs.len() ==> table_names(es).contains((#[trigger] fs[q]).0) && table_names(es).contains(fs[q].2),
            b@.len() == dim,
            forall|i: int| 0 <= i < dim ==> #[trigger] b@[i] as int == bundle_at(fs.take(k as int), es, p@, i),
        decreases index.facts.len() - k,
    {
        let f = &index.facts[k];
        proof {
            assert(fs.take(k + 1).drop_last() =~= fs.take(k as int));
            assert(fs.take(k + 1).last() == (f.0@, f.1@, f.2@));
            assert(fs[k as int] == (f.0@, f.1@, f.2@));
        }
        if str_eq(f.1.as_str(), p) {
            let sv = entities.get(f.0.as_str());
            let ov = entities.get(f.2.as_str());
            match (sv, ov) {
                (Some(sv), Some(ov)) => {
                    proof {
                        lemma_vector_bipolar(es, f.0@, dim as nat);
                        lemma_vector_bipolar(es, f.2@, dim as nat);
                    }
                    let ghost before = b@;
                    let mut i: usize = 0;
                    while i < dim
                        invariant
                            0 <= i <= dim,
                            b@.len() == dim,
                            sv@ == vector_of(es, f.0@),
                            ov@ == vector_of(es, f.2@),
                            sv@.len() == dim,
                            ov@.len() == dim,
                            bipolar(sv@),
                            bipolar(ov@),
                            k < fs.len(),
                            fs.len() == index.facts@.len(),
                            fs[k as int] == (f.0@, f.1@, f.2@),
                            f.1@ == p@,
                            index.facts@.len() < i64::MAX,
                            vectors_ok(es, dim as nat),
                            forall|q: int| 0 <= q < fs.len() ==> table_names(es).contains((#[trigger] fs[q]).0) && table_names(es).contains(fs[q].2),
                            forall|q: int| 0 <= q < dim ==> #[trigger] before[q] as int == bundle_at(fs.take(k as int), es, p@, q),
                            forall|q: int| 0 <= q < i ==> #[trigger] b@[q] as int == before[q] + sv@[q] * ov@[q],
                            forall|q: int| i <= q < dim ==> #[trigger] b@[q] == before[q],
                        decreases dim - i,
                    {
                        proof {
                            assert forall|q: int| 0 <= q < fs.take(k as int).len() implies table_names(es).contains((#[trigger] fs.take(k as int)[q]).0) && table_names(es).contains(fs.take(k as int)[q].2) by {
                                assert(fs.take(k as int)[q] == fs[q]);
                            }
                            lemma_bundle_bound(fs.take(k as int), es, p@, i as int, dim as nat);
                            assert(sv@[i as int] == 1 || sv@[i as int] == -1);
                            assert(ov@[i as int] == 1 || ov@[i as int] == -1);
                            assert(fs.take(k as int).len() == k);
                            assert(b@[i as int] == before[i as int]);
                            assert(-(k as int) <= before[i as int] <= k as int);
                        }
                        let prod: i64 = (sv[i] as i64) * (ov[i] as i64);
                        assert(-1 <= prod <= 1) by (nonlinear_arith)
                            requires
                                prod == (sv@[i as int] as i64) * (ov@[i as int] as i64),
                                sv@[i as int] == 1 || sv@[i as int] == -1,
                                ov@[i as int] == 1 || ov@[i as int] == -1,
                        ;
                        b.set(i, b[i] + prod);
                        i += 1;
                    }
                },
                _ => {
                    proof {
                        assert(table_names(es).contains(fs[k as int].0));
                        assert(table_names(es).contains(fs[k as int].2));
                    }
                },
            }
        }
        k += 1;
    }
    assert(fs.take(fs.len() as int) =~= fs);
    b
}

proof fn lemma_mentions_contain(facts: Seq<FactView>, k: int)
    requires
        0 <= k < facts.len(),
    ensures
        entity_mentions(facts).contains(facts[k].0),
        entity_mentions(facts).contains(facts[k].2),
    decreases facts.len(),
{
    let m = entity_mentions(facts);
    let rest = entity_mentions(facts.drop_last());
    if k == facts.len() - 1 {
        assert(m[rest.len() as int] == facts[k].0);
        assert(m[rest.len() as int + 1] == facts[k].2);
    } else {
        lemma_mentions_contain(facts.drop_last(), k);
        assert(facts.drop_last()[k] == facts[k]);
        let a = choose|j: int| 0 <= j < rest.len() && rest[j] == facts[k].0;
        let b = choose|j: int| 0 <= j < rest.len() && rest[j] == facts[k].2;
        assert(m[a] == facts[k].0);
        assert(m[b] == facts[k].2);
    }
}

/// Every subject and object of a fact is named in the entity table that
/// finalizing builds from a starting table and those facts, so each has a
/// vector when the bundles are made.
pub proof fn law_every_mention_named(start: Seq<Seq<char>>, facts: Seq<FactView>, k: int)
    requires
        0 <= k < facts.len(),
    ensures
        first_seen(start + entity_mentions(facts)).contains(facts[k].0),
        first_seen(start + entity_mentions(facts)).contains(facts[k].2),
{
    let all = start + entity_mentions(facts);
    lemma_mentions_contain(facts, k);
    let m = entity_mentions(facts);
    let a = choose|j: int| 0 <= j < m.len() && m[j] == facts[k].0;
    let b = choose|j: int| 0 <= j < m.len() && m[j] == facts[k].2;
    assert(all[start.len() + a] == facts[k].0);
    assert(all[start.len() + b] == facts[k].2);
    lemma_first_seen_contains(all, facts[k].0);
    lemma_first_seen_contains(all, facts[k].2);
}

/// What finalizing a knowledge base computes: the entity and predicate
/// vectors, and the bundle of each predicate (in the order of the
/// predicate table).
#[derive(Debug)]
pub struct Finalized {
    pub entities: VectorTable,
    pub predicates: VectorTable,
    pub shards: Vec<(String, Vec<i64>)>,
}

/// Draws the vectors of the facts of `index` (see [`assign_vectors`]) and
/// bundles each predicate: element `i` of its bundle is the sum, over its
/// facts `s --p--> o`, of element `i` of the product of the vectors of `s`
/// and `o`.
pub fn finalize(
    index: &FactIndex,
    dim: usize,
    rng: &mut StdRng,
    entities: VectorTable,
    predicates: VectorTable,
) -> (r: Finalized)
    requires
        index.facts@.len() < i64::MAX,
        table_ok(entities.entries@, dim as nat),
        table_ok(predicates.entries@, dim as nat),
    ensures
        table_names(r.entities.entries@) == first_seen(table_names(entities.entries@) + entity_mentions(index.view_facts())),
        table_names(r.predicates.entries@) == first_seen(table_names(predicates.entries@) + predicate_mentions(index.view_facts())),
        table_ok(r.entities.entries@, dim as nat),
        table_ok(r.predicates.entries@, dim as nat),
        forall|k: int| 0 <= k < entities.entries@.len() ==> #[trigger] r.entities.entries@[k] == entities.entries@[k],
        forall|k: int| 0 <= k < predicates.entries@.len() ==> #[trigger] r.predicates.entries@[k] == predicates.entries@[k],
        r.shards@.len() == r.predicates.entries@.len(),
        forall|k: int| 0 <= k < r.shards@.len() ==> (#[trigger] r.shards@[k]).0@ == r.predicates.entries@[k].0@
            && r.shards@[k].1@.len() == dim && forall|i: int| 0 <= i < dim ==> #[trigger] r.shards@[k].1@[i] as int
            == bundle_at(index.view_facts(), r.entities.entries@, r.shards@[k].0@, i),
{
    let vsa = TernaryVSA { dim };
    let ghost e0 = entities.entries@;
    let (entities, predicates) = assign_vectors(index, &vsa, rng, entities, predicates);
    let ghost fs = index.view_facts();
    proof {
        assert forall|k: int| 0 <= k < fs.len() implies table_names(entities.entries@).contains((#[trigger] fs[k]).0)
            && table_names(entities.entries@).contains(fs[k].2) by {
            law_every_mention_named(table_names(e0), fs, k);
        }
    }
    let mut shards: Vec<(String, Vec<i64>)> = Vec::new();
    let mut k: usize = 0;
    while k < predicates.entries.len()
        invariant
            0 <= k <= predicates.entries@.len(),
            fs == index.view_facts(),
            index.facts@.len() < i64::MAX,
            vsa.dim == dim,
            table_ok(entities.entries@, dim as nat),
            forall|q: int| 0 <= q < fs.len() ==> table_names(entities.entries@).contains((#[trigger] fs[q]).0)
                && table_names(entities.entries@).contains(fs[q].2),
            shards@.len() == k,
            forall|q: int| 0 <= q < k ==> (#[trigger] shards@[q]).0@ == predicates.entries@[q].0@ && shards@[q].1@.len()
                == dim && forall|i: int| 0 <= i < dim ==> #[trigger] shards@[q].1@[i] as int == bundle_at(
                fs,
                entities.entries@,
                shards@[q].0@,
                i,
            ),
        decreases predicates.entries.len() - k,
    {
        let name = &predicates.entries[k].0;
        let bundle = predicate_bundle(index, &entities, name.as_str(), dim);
        shards.push((name.clone(), bundle));
        k += 1;
    }
    Finalized { entities, predicates, shards }
}

} // verus!
