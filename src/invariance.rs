//! Matching depends on which distinct ingredients are present, not on their
//! order or multiplicity.
use vstd::prelude::*;
use crate::strs::{Ident, common, dedup, drop_key, first_pos, lemma_drop_key_len, lemma_common_in, lemma_first_pos_found, lemma_dedup};
use crate::cook::{Cook, ids_of, tags_of, item_of, item_tag, match_index, strict_hit, relaxed_hit};
use crate::recipe::{AVec, RecipeBase, actors_from, tags_from, shape_matches, av_len, av_group};

verus! {

broadcast use {vstd::set::group_set_axioms, vstd::seq_lib::seq_to_set_is_finite};

/// Each tag is the tag `t` gives its item, index by index.
pub open spec fn tagged_by(items: Seq<Ident>, tags: Seq<Ident>, t: spec_fn(Ident) -> Ident) -> bool {
    items.len() == tags.len() && forall|i: int| 0 <= i < items.len() ==> #[trigger] tags[i] == t(items[i])
}

/// Number of distinct items in `s` whose tag is `g`.
pub open spec fn tag_count(s: Set<Ident>, t: spec_fn(Ident) -> Ident, g: Ident) -> nat {
    s.filter(has_tag(t, g)).len()
}

pub open spec fn has_tag(t: spec_fn(Ident) -> Ident, g: Ident) -> spec_fn(Ident) -> bool {
    |x: Ident| t(x) == g
}

pub proof fn lemma_common_members(a: Seq<Ident>, b1: Seq<Ident>, b2: Seq<Ident>)
    requires
        b1.to_set() == b2.to_set(),
    ensures
        common(a, b1) == common(a, b2),
    decreases a.len(),
{
    if a.len() > 0 {
        lemma_common_members(a.drop_last(), b1, b2);
        assert(b1.contains(a.last()) <==> b1.to_set().contains(a.last()));
        assert(b2.contains(a.last()) <==> b2.to_set().contains(a.last()));
    }
}

pub proof fn lemma_drop_key_members(items: Seq<Ident>, tags: Seq<Ident>, x: Ident, t: spec_fn(Ident) -> Ident)
    requires
        tagged_by(items, tags, t),
    ensures
        tagged_by(drop_key(items, tags, x).0, drop_key(items, tags, x).1, t),
        drop_key(items, tags, x).0.to_set() == items.to_set().remove(x),
    decreases items.len(),
{
    let d = drop_key(items, tags, x);
    if items.len() == 0 {
        assert(d.0.to_set() =~= items.to_set().remove(x));
    } else {
        let n = items.len() - 1;
        let it = items.drop_last();
        let tg = tags.take(n);
        assert(tagged_by(it, tg, t)) by {
            assert forall|i: int| 0 <= i < it.len() implies #[trigger] tg[i] == t(it[i]) by {
                assert(tags[i] == t(items[i]));
            }
        }
        lemma_drop_key_members(it, tg, x, t);
        lemma_drop_key_len(it, tg, x);
        let r = drop_key(it, tg, x);
        assert(tags[n] == t(items[n]));
        assert forall|y: Ident| d.0.to_set().contains(y) <==> items.to_set().remove(x).contains(y) by {
            if d.0.contains(y) {
                if items.last() != x && !r.0.contains(y) {
                    let j = choose|j: int| 0 <= j < d.0.len() && d.0[j] == y;
                    if j < r.0.len() {
                        assert(r.0[j] == y);
                    }
                    assert(items[n] == y);
                } else if items.last() != x {
                    assert(r.0.to_set().contains(y));
                    assert(it.contains(y));
                    let j = choose|j: int| 0 <= j < it.len() && it[j] == y;
                    assert(items[j] == y);
                } else {
                    assert(r.0.to_set().contains(y));
                    assert(it.contains(y));
                    let j = choose|j: int| 0 <= j < it.len() && it[j] == y;
                    assert(items[j] == y);
                }
            }
            if items.contains(y) && y != x {
                let j = choose|j: int| 0 <= j < items.len() && items[j] == y;
                if j < n {
                    assert(it[j] == y);
                    assert(it.to_set().contains(y));
                    assert(r.0.to_set().contains(y));
                    let m = choose|m: int| 0 <= m < r.0.len() && r.0[m] == y;
                    if items.last() != x {
                        assert(d.0[m] == y);
                    }
                } else {
                    assert(d.0[d.0.len() - 1] == y);
                }
            }
        }
        assert(d.0.to_set() =~= items.to_set().remove(x));
    }
}

pub proof fn lemma_tag_count_positive(s: Set<Ident>, t: spec_fn(Ident) -> Ident, g: Ident)
    requires
        s.finite(),
    ensures
        tag_count(s, t, g) > 0 <==> exists|y: Ident| s.contains(y) && t(y) == g,
{
    let f = s.filter(has_tag(t, g));
    s.lemma_len_filter(has_tag(t, g));
    if exists|y: Ident| s.contains(y) && t(y) == g {
        let y = choose|y: Ident| s.contains(y) && t(y) == g;
        assert(f.contains(y));
        vstd::set_lib::lemma_set_empty_equivalency_len(f);
    }
    if tag_count(s, t, g) > 0 {
        vstd::set_lib::lemma_set_empty_equivalency_len(f);
        assert(f.len() != 0);
        assert(f != Set::<Ident>::empty());
        let y = f.choose();
        assert(f.contains(y));
        assert(s.contains(y) && t(y) == g);
    }
}

pub proof fn lemma_tag_count_remove(s: Set<Ident>, t: spec_fn(Ident) -> Ident, g: Ident, y: Ident)
    requires
        s.finite(),
        s.contains(y),
    ensures
        tag_count(s.remove(y), t, g) == tag_count(s, t, g) - (if t(y) == g { 1int } else { 0int }),
{
    let f = s.filter(has_tag(t, g));
    s.lemma_len_filter(has_tag(t, g));
    assert(s.remove(y).filter(has_tag(t, g)) =~= f.remove(y));
    vstd::set::axiom_set_remove_len(f, y);
    assert(f.contains(y) <==> t(y) == g);
}

/// Present tags are those of present items.
pub proof fn lemma_tags_present(items: Seq<Ident>, tags: Seq<Ident>, t: spec_fn(Ident) -> Ident)
    requires
        tagged_by(items, tags, t),
    ensures
        forall|g: Ident| tags.to_set().contains(g) <==> tag_count(items.to_set(), t, g) > 0,
{
    assert forall|g: Ident| tags.to_set().contains(g) <==> tag_count(items.to_set(), t, g) > 0 by {
        lemma_tag_count_positive(items.to_set(), t, g);
        if tags.contains(g) {
            let i = choose|i: int| 0 <= i < tags.len() && tags[i] == g;
            assert(items.to_set().contains(items[i]) && t(items[i]) == g);
        }
        if tag_count(items.to_set(), t, g) > 0 {
            let y = choose|y: Ident| items.to_set().contains(y) && t(y) == g;
            let i = choose|i: int| 0 <= i < items.len() && items[i] == y;
            assert(tags[i] == g);
            assert(tags.contains(g));
        }
    }
}

/// The relaxed tag stage succeeds or fails alike on two lists whose distinct
/// items carry the same tags in the same numbers.
pub proof fn lemma_tags_from_counts(
    a: &AVec,
    p: Seq<Ident>,
    tp: Seq<Ident>,
    q: Seq<Ident>,
    tq: Seq<Ident>,
    t: spec_fn(Ident) -> Ident,
    i: int,
)
    requires
        tagged_by(p, tp, t),
        tagged_by(q, tq, t),
        forall|g: Ident| tag_count(p.to_set(), t, g) == tag_count(q.to_set(), t, g),
    ensures
        tags_from(a, p, tp, i) is Some <==> tags_from(a, q, tq, i) is Some,
    decreases av_len(a) - i,
{
    if 0 <= i < av_len(a) {
        let g = av_group(a, i);
        lemma_tags_present(p, tp, t);
        lemma_tags_present(q, tq, t);
        assert(tp.to_set() =~= tq.to_set());
        lemma_common_members(g, tp, tq);
        let v = common(g, tp);
        if v.len() > 0 {
            lemma_common_in(g, tp);
            lemma_common_in(g, tq);
            assert(tp.contains(v[0]));
            assert(tq.contains(v[0]));
            lemma_first_pos_found(tp, v[0], 0);
            lemma_first_pos_found(tq, v[0], 0);
            let kp = first_pos(tp, v[0], 0);
            let kq = first_pos(tq, v[0], 0);
            let yp = p[kp];
            let yq = q[kq];
            assert(t(yp) == v[0]);
            assert(t(yq) == v[0]);
            assert(p.to_set().contains(yp));
            assert(q.to_set().contains(yq));
            lemma_drop_key_members(p, tp, yp, t);
            lemma_drop_key_members(q, tq, yq, t);
            let dp = drop_key(p, tp, yp);
            let dq = drop_key(q, tq, yq);
            assert forall|h: Ident| tag_count(dp.0.to_set(), t, h) == tag_count(dq.0.to_set(), t, h) by {
                lemma_tag_count_remove(p.to_set(), t, h, yp);
                lemma_tag_count_remove(q.to_set(), t, h, yq);
            }
            lemma_tags_from_counts(a, dp.0, dp.1, dq.0, dq.1, t, i + 1);
        }
    }
}

/// The relaxed actor stage treats two lists with the same distinct items alike.
pub proof fn lemma_actors_from_sets(
    a: &AVec,
    p: Seq<Ident>,
    tp: Seq<Ident>,
    q: Seq<Ident>,
    tq: Seq<Ident>,
    t: spec_fn(Ident) -> Ident,
    i: int,
)
    requires
        tagged_by(p, tp, t),
        tagged_by(q, tq, t),
        p.to_set() == q.to_set(),
    ensures
        actors_from(a, p, tp, i) is Some <==> actors_from(a, q, tq, i) is Some,
        actors_from(a, p, tp, i) is Some ==> {
            let rp = actors_from(a, p, tp, i)->Some_0;
            let rq = actors_from(a, q, tq, i)->Some_0;
            tagged_by(rp.0, rp.1, t) && tagged_by(rq.0, rq.1, t) && rp.0.to_set() == rq.0.to_set()
        },
    decreases av_len(a) - i,
{
    if 0 <= i < av_len(a) {
        let g = av_group(a, i);
        lemma_common_members(g, p, q);
        let v = common(g, p);
        if v.len() > 0 {
            lemma_drop_key_members(p, tp, v[0], t);
            lemma_drop_key_members(q, tq, v[0], t);
            let dp = drop_key(p, tp, v[0]);
            let dq = drop_key(q, tq, v[0]);
            lemma_actors_from_sets(a, dp.0, dp.1, dq.0, dq.1, t, i + 1);
        }
    }
}

pub proof fn lemma_drop_all(keys: Seq<Ident>, other: Seq<Ident>, x: Ident)
    requires
        keys.len() == other.len(),
        forall|i: int| 0 <= i < keys.len() ==> keys[i] == x,
    ensures
        drop_key(keys, other, x) == (Seq::<Ident>::empty(), Seq::<Ident>::empty()),
    decreases keys.len(),
{
    if keys.len() > 0 {
        let n = keys.len() - 1;
        lemma_drop_all(keys.drop_last(), other.take(n), x);
    }
}

pub proof fn lemma_dedup_no_dup(s: Seq<Ident>)
    ensures
        dedup(s).no_duplicates(),
    decreases s.len(),
{
    if s.len() > 0 {
        lemma_dedup_no_dup(s.drop_last());
    }
}

/// The number of distinct items is the size of their set.
pub proof fn lemma_dedup_len(s: Seq<Ident>)
    ensures
        dedup(s).len() == s.to_set().len(),
{
    lemma_dedup(s);
    lemma_dedup_no_dup(s);
    dedup(s).unique_seq_to_set();
    assert(dedup(s).to_set() =~= s.to_set());
}

/// A list with a single distinct item holds nothing else.
pub proof fn lemma_single(s: Seq<Ident>)
    requires
        dedup(s).len() == 1,
    ensures
        s.len() >= 1,
        forall|i: int| 0 <= i < s.len() ==> s[i] == dedup(s)[0],
        s.to_set().contains(dedup(s)[0]),
{
    lemma_dedup(s);
    assert forall|i: int| 0 <= i < s.len() implies s[i] == dedup(s)[0] by {
        assert(s.contains(s[i]));
        assert(dedup(s).contains(s[i]));
    }
    assert(dedup(s).contains(dedup(s)[0]));
}

/// The strict mode treats two lists with the same distinct items alike.
pub proof fn lemma_strict_sets(r: &RecipeBase, p: Seq<Ident>, tp: Seq<Ident>, q: Seq<Ident>, tq: Seq<Ident>, t: spec_fn(Ident) -> Ident)
    requires
        tagged_by(p, tp, t),
        tagged_by(q, tq, t),
        p.to_set() == q.to_set(),
    ensures
        shape_matches(r, p, tp, true) == shape_matches(r, q, tq, true),
{
    lemma_dedup_len(p);
    lemma_dedup_len(q);
    if dedup(p).len() == 1 {
        lemma_single(p);
        lemma_single(q);
        let x = dedup(p)[0];
        assert(q.to_set().contains(x));
        assert(dedup(q)[0] == x) by {
            let j = choose|j: int| 0 <= j < q.len() && q[j] == x;
        }
        lemma_tags_present(p, tp, t);
        lemma_tags_present(q, tq, t);
        assert(tp.to_set() =~= tq.to_set());
        if av_len(&r.actors) == 0 {
            if av_len(&r.tags) > 0 {
                let g = av_group(&r.tags, 0);
                lemma_common_members(g, tp, tq);
                let v = common(g, tp);
                if v.len() > 0 {
                    lemma_common_in(g, tp);
                    assert(tp.contains(common(g, tp)[0]));
                    let ip = choose|i: int| 0 <= i < tp.len() && tp[i] == v[0];
                    assert(tp[ip] == t(p[ip]));
                    assert(p[ip] == x);
                    assert(tp[ip] == t(x));
                    assert(v[0] == t(x));
                    assert forall|i: int| 0 <= i < tp.len() implies tp[i] == v[0] by {
                        assert(tp[i] == t(p[i]));
                    }
                    assert forall|i: int| 0 <= i < tq.len() implies tq[i] == v[0] by {
                        assert(tq[i] == t(q[i]));
                    }
                    lemma_drop_all(tp, p, v[0]);
                    lemma_drop_all(tq, q, v[0]);
                }
            }
        } else {
            let g = av_group(&r.actors, 0);
            lemma_common_members(g, p, q);
            let v = common(g, p);
            if v.len() > 0 {
                lemma_common_in(g, p);
                assert(p.contains(common(g, p)[0]));
                let ip = choose|i: int| 0 <= i < p.len() && p[i] == v[0];
                assert(v[0] == x);
                lemma_drop_all(p, tp, x);
                lemma_drop_all(q, tq, x);
            }
        }
    }
}

/// Whether a shape matches depends only on which distinct items are present
/// (each item's tag being a function of the item), not on their order or
/// multiplicity.
pub proof fn lemma_matches_sets(r: &RecipeBase, p: Seq<Ident>, tp: Seq<Ident>, q: Seq<Ident>, tq: Seq<Ident>, t: spec_fn(Ident) -> Ident, strict: bool)
    requires
        tagged_by(p, tp, t),
        tagged_by(q, tq, t),
        p.to_set() == q.to_set(),
    ensures
        shape_matches(r, p, tp, strict) == shape_matches(r, q, tq, strict),
{
    if strict {
        lemma_strict_sets(r, p, tp, q, tq, t);
    } else {
        lemma_actors_from_sets(&r.actors, p, tp, q, tq, t, 0);
        if actors_from(&r.actors, p, tp, 0) is Some {
            let rp = actors_from(&r.actors, p, tp, 0)->Some_0;
            let rq = actors_from(&r.actors, q, tq, 0)->Some_0;
            lemma_tags_from_counts(&r.tags, rp.0, rp.1, rq.0, rq.1, t, 0);
        }
    }
}

/// The tag of the item with a given internal id in catalog `c`.
pub open spec fn catalog_tag(c: &Cook) -> spec_fn(Ident) -> Ident {
    |x: Ident| item_tag(&item_of(c, x))
}

pub proof fn lemma_strict_hit_sets(c: &Cook, p: Seq<Ident>, tp: Seq<Ident>, q: Seq<Ident>, tq: Seq<Ident>, t: spec_fn(Ident) -> Ident, i: int)
    requires
        tagged_by(p, tp, t),
        tagged_by(q, tq, t),
        p.to_set() == q.to_set(),
    ensures
        strict_hit(c, p, tp, i) == strict_hit(c, q, tq, i),
    decreases c.recipes@.len() - i,
{
    if 0 <= i < c.recipes@.len() {
        lemma_matches_sets(&c.recipes@[i], p, tp, q, tq, t, true);
        lemma_strict_hit_sets(c, p, tp, q, tq, t, i + 1);
    }
}

pub proof fn lemma_relaxed_hit_sets(c: &Cook, p: Seq<Ident>, tp: Seq<Ident>, q: Seq<Ident>, tq: Seq<Ident>, t: spec_fn(Ident) -> Ident, i: int)
    requires
        tagged_by(p, tp, t),
        tagged_by(q, tq, t),
        p.to_set() == q.to_set(),
    ensures
        relaxed_hit(c, p, tp, i) == relaxed_hit(c, q, tq, i),
    decreases c.split - i,
{
    if 0 <= i < c.split {
        lemma_matches_sets(&c.recipes@[i], p, tp, q, tq, t, false);
        lemma_relaxed_hit_sets(c, p, tp, q, tq, t, i + 1);
    }
}

pub proof fn lemma_ids_sets(c: &Cook, n1: Seq<Ident>, n2: Seq<Ident>)
    requires
        n1.to_set() == n2.to_set(),
    ensures
        ids_of(c, n1).to_set() == ids_of(c, n2).to_set(),
{
    let i1 = ids_of(c, n1);
    let i2 = ids_of(c, n2);
    assert forall|y: Ident| i1.to_set().contains(y) implies i2.to_set().contains(y) by {
        let i = choose|i: int| 0 <= i < i1.len() && i1[i] == y;
        assert(n1.to_set().contains(n1[i]));
        let j = choose|j: int| 0 <= j < n2.len() && n2[j] == n1[i];
        assert(i2[j] == y);
    }
    assert forall|y: Ident| i2.to_set().contains(y) implies i1.to_set().contains(y) by {
        let j = choose|j: int| 0 <= j < i2.len() && i2[j] == y;
        assert(n2.to_set().contains(n2[j]));
        let i = choose|i: int| 0 <= i < n1.len() && n1[i] == n2[j];
        assert(i1[i] == y);
    }
    assert(i1.to_set() =~= i2.to_set());
}

/// Matching is multiset-based: permuting the ingredient list never changes
/// which shape of the catalog it resolves to.
pub proof fn lemma_match_permutation(c: &Cook, n1: Seq<Ident>, n2: Seq<Ident>)
    requires
        n1.to_multiset() == n2.to_multiset(),
    ensures
        match_index(c, ids_of(c, n1), tags_of(c, ids_of(c, n1))) == match_index(
            c,
            ids_of(c, n2),
            tags_of(c, ids_of(c, n2)),
        ),
{
    n1.to_multiset_ensures();
    n2.to_multiset_ensures();

    assert forall|x: Ident| n1.to_set().contains(x) <==> n2.to_set().contains(x) by {
        assert(n1.contains(x) <==> n1.to_multiset().count(x) > 0);
        assert(n2.contains(x) <==> n2.to_multiset().count(x) > 0);
    }
    assert(n1.to_set() =~= n2.to_set());
    lemma_ids_sets(c, n1, n2);
    let t = catalog_tag(c);
    let p = ids_of(c, n1);
    let q = ids_of(c, n2);
    assert(tagged_by(p, tags_of(c, p), t));
    assert(tagged_by(q, tags_of(c, q), t));
    lemma_strict_hit_sets(c, p, tags_of(c, p), q, tags_of(c, q), t, c.split as int);
    lemma_relaxed_hit_sets(c, p, tags_of(c, p), q, tags_of(c, q), t, 0);
}

} // verus!
