//! Recipe shapes and the multiset matcher.
use vstd::prelude::*;
use crate::strs::{Ident, common, dedup, drop_key, first_pos, inter, unique_len, drop_where, position, clone_strs, lemma_drop_key_len, lemma_common_in, lemma_first_pos_found};

verus! {

/// A requirement on actors or tags: either one flat list of alternatives, or
/// an ordered list of groups of alternatives.
#[derive(Debug, Clone)]
pub enum AVec {
    One(Vec<String>),
    Two(Vec<Vec<String>>),
}

/// Number of groups as the matcher counts them (a flat list counts its entries).
pub open spec fn av_len(a: &AVec) -> nat {
    match a {
        AVec::One(v) => v@.len(),
        AVec::Two(v) => v@.len(),
    }
}

/// The alternatives of group `i` (a flat list is its own every group).
pub open spec fn av_group(a: &AVec, i: int) -> Seq<Ident> {
    match a {
        AVec::One(v) => v.deep_view(),
        AVec::Two(v) => v@[i].deep_view(),
    }
}

/// The requirement as a list of groups.
pub open spec fn av_groups(a: &AVec) -> Seq<Seq<Ident>> {
    match a {
        AVec::One(v) => seq![v.deep_view()],
        AVec::Two(v) => v.deep_view(),
    }
}

/// A flat, non-empty list: not a valid tag requirement for the relaxed pass.
pub open spec fn is_flat_nonempty(a: &AVec) -> bool {
    match a {
        AVec::One(v) => v@.len() > 0,
        AVec::Two(_) => false,
    }
}

impl AVec {
    pub fn len(&self) -> (r: usize)
        ensures
            r == av_len(self),
    {
        match self {
            AVec::One(v) => v.len(),
            AVec::Two(v) => v.len(),
        }
    }

    pub fn id(&self, i: usize) -> (r: &[String])
        requires
            self is Two ==> i < av_len(self),
        ensures
            r.deep_view() == av_group(self, i as int),
    {
        match self {
            AVec::One(v) => {
                let r = v.as_slice();
                assert(r.deep_view() =~= v.deep_view());
                r
            },
            AVec::Two(v) => {
                let r = v[i].as_slice();
                assert(r.deep_view() =~= v[i as int].deep_view());
                r
            },
        }
    }

    /// Whether this is a flat list with at least one entry.
    pub fn is_flat_nonempty(&self) -> (r: bool)
        ensures
            r == is_flat_nonempty(self),
    {
        match self {
            AVec::One(v) => v.len() > 0,
            AVec::Two(_) => false,
        }
    }

    pub fn vec(&self) -> (r: Vec<Vec<String>>)
        ensures
            r.deep_view() == av_groups(self),
    {
        match self {
            AVec::One(v) => {
                let mut r: Vec<Vec<String>> = Vec::new();
                r.push(clone_strs(v.as_slice()));
                assert(r.deep_view() =~= seq![v.deep_view()]);
                r
            },
            AVec::Two(v) => {
                let mut r: Vec<Vec<String>> = Vec::new();
                let mut i: usize = 0;
                while i < v.len()
                    invariant
                        0 <= i <= v.len(),
                        r.deep_view() =~= v.deep_view().take(i as int),
                    decreases v.len() - i,
                {
                    let ghost old_r = r.deep_view();
                    r.push(clone_strs(v[i].as_slice()));
                    assert(r.deep_view() =~= old_r.push(v.deep_view()[i as int]));
                    i += 1;
                }
                assert(v.deep_view().take(v.len() as int) =~= v.deep_view());
                r
            },
        }
    }
}

/// `a` and `b` hold the same requirement.
pub open spec fn av_same(a: &AVec, b: &AVec) -> bool {
    match (a, b) {
        (AVec::One(x), AVec::One(y)) => x.deep_view() == y.deep_view(),
        (AVec::Two(x), AVec::Two(y)) => x.deep_view() == y.deep_view(),
        _ => false,
    }
}

impl AVec {
    /// A copy of this requirement.
    pub fn snapshot(&self) -> (r: AVec)
        ensures
            av_same(&r, self),
    {
        match self {
            AVec::One(v) => AVec::One(clone_strs(v.as_slice())),
            AVec::Two(v) => {
                let mut r: Vec<Vec<String>> = Vec::new();
                let mut i: usize = 0;
                while i < v.len()
                    invariant
                        0 <= i <= v.len(),
                        r.deep_view() =~= v.deep_view().take(i as int),
                    decreases v.len() - i,
                {
                    let ghost old_r = r.deep_view();
                    r.push(clone_strs(v[i].as_slice()));
                    assert(r.deep_view() =~= old_r.push(v.deep_view()[i as int]));
                    i += 1;
                }
                assert(v.deep_view().take(v.len() as int) =~= v.deep_view());
                AVec::Two(r)
            },
        }
    }
}

/// A recipe shape of the catalog.
#[derive(Debug, Clone)]
pub struct RecipeBase {
    /// Healing bonus added to every dish of this shape.
    pub hb: i32,
    pub name: String,
    pub tags: AVec,
    pub actors: AVec,
    pub num: i32,
    /// Position of the shape in the catalog.
    pub id: i32,
}

/// `a` and `b` describe the same shape.
pub open spec fn recipe_same(a: &RecipeBase, b: &RecipeBase) -> bool {
    &&& a.hb == b.hb
    &&& a.name@ == b.name@
    &&& av_same(&a.tags, &b.tags)
    &&& av_same(&a.actors, &b.actors)
    &&& a.num == b.num
    &&& a.id == b.id
}

impl RecipeBase {
    /// A copy of this shape, detached from the catalog.
    pub fn snapshot(&self) -> (r: RecipeBase)
        ensures
            recipe_same(&r, self),
    {
        RecipeBase {
            hb: self.hb,
            name: self.name.clone(),
            tags: self.tags.snapshot(),
            actors: self.actors.snapshot(),
            num: self.num,
            id: self.id,
        }
    }
}

/// One group of the actor stage: the first alternative present among the
/// items is removed, with every occurrence, from items and tags alike.
pub open spec fn actor_step(g: Seq<Ident>, items: Seq<Ident>, tags: Seq<Ident>) -> Option<
    (Seq<Ident>, Seq<Ident>),
> {
    let v = common(g, items);
    if v.len() == 0 {
        None
    } else {
        Some(drop_key(items, tags, v[0]))
    }
}

/// The actor groups from `i` on, applied in order.
pub open spec fn actors_from(a: &AVec, items: Seq<Ident>, tags: Seq<Ident>, i: int) -> Option<
    (Seq<Ident>, Seq<Ident>),
>
    decreases av_len(a) - i,
{
    if i < 0 || i >= av_len(a) {
        Some((items, tags))
    } else {
        match actor_step(av_group(a, i), items, tags) {
            None => None,
            Some(p) => actors_from(a, p.0, p.1, i + 1),
        }
    }
}

/// One group of the relaxed tag stage: the first alternative present among
/// the tags picks the first item that carries it, and every occurrence of that
/// item is removed.
pub open spec fn tag_step(g: Seq<Ident>, items: Seq<Ident>, tags: Seq<Ident>) -> Option<
    (Seq<Ident>, Seq<Ident>),
> {
    let v = common(g, tags);
    if v.len() == 0 {
        None
    } else {
        Some(drop_key(items, tags, items[first_pos(tags, v[0], 0)]))
    }
}

/// The tag groups from `i` on, applied in order.
pub open spec fn tags_from(a: &AVec, items: Seq<Ident>, tags: Seq<Ident>, i: int) -> Option<
    (Seq<Ident>, Seq<Ident>),
>
    decreases av_len(a) - i,
{
    if i < 0 || i >= av_len(a) {
        Some((items, tags))
    } else {
        match tag_step(av_group(a, i), items, tags) {
            None => None,
            Some(p) => tags_from(a, p.0, p.1, i + 1),
        }
    }
}

/// What the actor stage leaves of the items and tags, or `None` on failure.
pub open spec fn actor_stage(r: &RecipeBase, items: Seq<Ident>, tags: Seq<Ident>, strict: bool) -> Option<
    (Seq<Ident>, Seq<Ident>),
> {
    if strict {
        if av_len(&r.actors) == 0 {
            Some((items, tags))
        } else {
            actor_step(av_group(&r.actors, 0), items, tags)
        }
    } else {
        actors_from(&r.actors, items, tags, 0)
    }
}

/// What the tag stage leaves of the items, or `None` on failure.
pub open spec fn tag_stage(r: &RecipeBase, items: Seq<Ident>, tags: Seq<Ident>, strict: bool) -> Option<
    Seq<Ident>,
> {
    if strict {
        if av_len(&r.tags) == 0 {
            Some(items)
        } else {
            let v = common(av_group(&r.tags, 0), tags);
            if v.len() == 0 {
                None
            } else {
                Some(drop_key(tags, items, v[0]).1)
            }
        }
    } else {
        match tags_from(&r.tags, items, tags, 0) {
            None => None,
            Some(p) => Some(p.0),
        }
    }
}

/// Whether the shape `r` matches the items (with their tags, index by index).
pub open spec fn shape_matches(r: &RecipeBase, items: Seq<Ident>, tags: Seq<Ident>, strict: bool) -> bool {
    if strict && dedup(items).len() != 1 {
        false
    } else {
        match actor_stage(r, items, tags, strict) {
            None => false,
            Some(p) => match tag_stage(r, p.0, p.1, strict) {
                None => false,
                Some(rest) => !strict || rest.len() == 0,
            },
        }
    }
}

/// The deep view of a pair of identifier lists, if any.
pub open spec fn pair_view(r: Option<(Vec<String>, Vec<String>)>) -> Option<(Seq<Ident>, Seq<Ident>)> {
    match r {
        None => None,
        Some(p) => Some((p.0.deep_view(), p.1.deep_view())),
    }
}

pub open spec fn list_view(r: Option<Vec<String>>) -> Option<Seq<Ident>> {
    match r {
        None => None,
        Some(v) => Some(v.deep_view()),
    }
}

impl RecipeBase {
    /// Applies one actor group: removes every occurrence of the first
    /// alternative present among the items.
    fn actor_group(g: &[String], items_t: Vec<String>, tags_t: Vec<String>) -> (r: Option<
        (Vec<String>, Vec<String>),
    >)
        requires
            items_t.len() == tags_t.len(),
        ensures
            pair_view(r) == actor_step(g.deep_view(), items_t.deep_view(), tags_t.deep_view()),
            r matches Some(p) ==> p.0.len() == p.1.len(),
    {
        let sl = items_t.as_slice();
        proof {
            assert(sl.deep_view() =~= items_t.deep_view());
        }
        let v = inter(g, sl);
        if v.len() == 0 {
            return None;
        }
        let r = drop_where(&items_t, &tags_t, &v[0]);
        proof {
            lemma_drop_key_len(items_t.deep_view(), tags_t.deep_view(), v[0]@);
        }
        Some(r)
    }

    /// Applies one relaxed tag group: the first alternative present among the
    /// tags picks the first item carrying it; every occurrence of that item goes.
    fn tag_group(g: &[String], items_t: Vec<String>, tags_t: Vec<String>) -> (r: Option<
        (Vec<String>, Vec<String>),
    >)
        requires
            items_t.len() == tags_t.len(),
        ensures
            pair_view(r) == tag_step(g.deep_view(), items_t.deep_view(), tags_t.deep_view()),
            r matches Some(p) ==> p.0.len() == p.1.len(),
    {
        let sl = tags_t.as_slice();
        proof {
            assert(sl.deep_view() =~= tags_t.deep_view());
        }
        let v = inter(g, sl);
        if v.len() == 0 {
            return None;
        }
        let k = position(&tags_t, &v[0]);
        proof {
            lemma_common_in(g.deep_view(), tags_t.deep_view());
            assert(tags_t.deep_view().contains(v.deep_view()[0]));
            lemma_first_pos_found(tags_t.deep_view(), v[0]@, 0);
        }
        let item = items_t[k].clone();
        let r = drop_where(&items_t, &tags_t, &item);
        proof {
            lemma_drop_key_len(items_t.deep_view(), tags_t.deep_view(), item@);
        }
        Some(r)
    }

    /// The tag stage of matching.
    pub fn matches_tags(&self, items_t: Vec<String>, tags_t: Vec<String>, strict: bool) -> (r: Option<
        Vec<String>,
    >)
        requires
            items_t.len() == tags_t.len(),
            !strict ==> !is_flat_nonempty(&self.tags),
        ensures
            list_view(r) == tag_stage(self, items_t.deep_view(), tags_t.deep_view(), strict),
    {
        if strict {
            if self.tags.len() == 0 {
                return Some(items_t);
            }
            let sl = tags_t.as_slice();
            proof {
                assert(sl.deep_view() =~= tags_t.deep_view());
            }
            let v = inter(self.tags.id(0), sl);
            if v.len() == 0 {
                return None;
            }
            let r = drop_where(&tags_t, &items_t, &v[0]);
            return Some(r.1);
        }
        let n = self.tags.len();
        let ghost items0 = items_t.deep_view();
        let ghost tags0 = tags_t.deep_view();
        let mut its = items_t;
        let mut tgs = tags_t;
        let mut i: usize = 0;
        while i < n
            invariant
                !strict,
                !is_flat_nonempty(&self.tags),
                items0 == items_t.deep_view(),
                tags0 == tags_t.deep_view(),
                n == av_len(&self.tags),
                0 <= i <= n,
                its.len() == tgs.len(),
                tags_from(&self.tags, items0, tags0, 0) == tags_from(
                    &self.tags,
                    its.deep_view(),
                    tgs.deep_view(),
                    i as int,
                ),
            decreases n - i,
        {
            let ghost cur_i = its.deep_view();
            let ghost cur_t = tgs.deep_view();
            match Self::tag_group(self.tags.id(i), its, tgs) {
                None => {
                    assert(tags_from(&self.tags, cur_i, cur_t, i as int) is None);
                    return None;
                },
                Some(p) => {
                    its = p.0;
                    tgs = p.1;
                },
            }
            i += 1;
        }
        Some(its)
    }

    /// Whether this shape matches `items`, whose tags are `tags` index by
    /// index. The strict mode asks for a single distinct item that the actor
    /// and tag requirements consume whole; the relaxed mode leaves filler.
    pub fn matches(&self, items: &Vec<String>, tags: &Vec<String>, strict: bool) -> (r: bool)
        requires
            items.len() == tags.len(),
            !strict ==> !is_flat_nonempty(&self.tags),
        ensures
            r == shape_matches(self, items.deep_view(), tags.deep_view(), strict),
    {
        if strict {
            let sl = items.as_slice();
            proof {
                assert(sl.deep_view() =~= items.deep_view());
            }
            if unique_len(sl) != 1 {
                return false;
            }
        }
        let isl = items.as_slice();
        let tsl = tags.as_slice();
        let items_t = clone_strs(isl);
        let tags_t = clone_strs(tsl);
        proof {
            assert(isl.deep_view() =~= items.deep_view());
            assert(tsl.deep_view() =~= tags.deep_view());
            assert(items_t.deep_view().len() == items_t.len());
        }
        let out = match self.matches_actors(items_t, tags_t, strict) {
            Some(x) => x,
            None => return false,
        };
        let rest = match self.matches_tags(out.0, out.1, strict) {
            Some(x) => x,
            None => return false,
        };
        if strict {
            return rest.len() == 0;
        }
        true
    }

    /// The actor stage of matching.
    pub fn matches_actors(&self, items_t: Vec<String>, tags_t: Vec<String>, strict: bool) -> (r:
        Option<(Vec<String>, Vec<String>)>)
        requires
            items_t.len() == tags_t.len(),
        ensures
            pair_view(r) == actor_stage(self, items_t.deep_view(), tags_t.deep_view(), strict),
            r matches Some(p) ==> p.0.len() == p.1.len(),
    {
        if strict {
            if self.actors.len() == 0 {
                return Some((items_t, tags_t));
            }
            return Self::actor_group(self.actors.id(0), items_t, tags_t);
        }
        let n = self.actors.len();
        let ghost items0 = items_t.deep_view();
        let ghost tags0 = tags_t.deep_view();
        let mut its = items_t;
        let mut tgs = tags_t;
        let mut i: usize = 0;
        while i < n
            invariant
                !strict,
                items0 == items_t.deep_view(),
                tags0 == tags_t.deep_view(),
                n == av_len(&self.actors),
                0 <= i <= n,
                its.len() == tgs.len(),
                actors_from(&self.actors, items0, tags0, 0) == actors_from(
                    &self.actors,
                    its.deep_view(),
                    tgs.deep_view(),
                    i as int,
                ),
            decreases n - i,
        {
            let ghost cur_i = its.deep_view();
            let ghost cur_t = tgs.deep_view();
            match Self::actor_group(self.actors.id(i), its, tgs) {
                None => {
                    assert(actors_from(&self.actors, cur_i, cur_t, i as int) is None);
                    return None;
                },
                Some(p) => {
                    its = p.0;
                    tgs = p.1;
                },
            }
            i += 1;
        }
        Some((its, tgs))
    }
}

} // verus!
