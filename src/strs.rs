//! Sequences of identifiers: membership, intersection, deduplication and
//! paired removal, the building blocks of recipe matching.
use vstd::prelude::*;

verus! {

/// An identifier (item id or tag) as a sequence of characters.
pub type Ident = Seq<char>;

/// The elements of `a`, in order, that occur in `b`.
pub open spec fn common(a: Seq<Ident>, b: Seq<Ident>) -> Seq<Ident>
    decreases a.len(),
{
    if a.len() == 0 {
        Seq::empty()
    } else {
        let c = common(a.drop_last(), b);
        if b.contains(a.last()) {
            c.push(a.last())
        } else {
            c
        }
    }
}

/// `s` with every repeated element after its first occurrence left out.
pub open spec fn dedup(s: Seq<Ident>) -> Seq<Ident>
    decreases s.len(),
{
    if s.len() == 0 {
        Seq::empty()
    } else {
        let d = dedup(s.drop_last());
        if d.contains(s.last()) {
            d
        } else {
            d.push(s.last())
        }
    }
}

/// Removes from two index-aligned sequences every position where `keys` holds `x`.
pub open spec fn drop_key(keys: Seq<Ident>, other: Seq<Ident>, x: Ident) -> (Seq<Ident>, Seq<Ident>)
    decreases keys.len(),
{
    if keys.len() == 0 {
        (Seq::empty(), Seq::empty())
    } else {
        let n = keys.len() - 1;
        let r = drop_key(keys.drop_last(), other.take(n), x);
        if keys.last() == x {
            r
        } else {
            (r.0.push(keys.last()), r.1.push(other[n]))
        }
    }
}

/// The first position at or after `i` where `s` holds `x`, or `s.len()`.
pub open spec fn first_pos(s: Seq<Ident>, x: Ident, i: int) -> int
    decreases s.len() - i,
{
    if i < 0 || i >= s.len() {
        s.len() as int
    } else if s[i] == x {
        i
    } else {
        first_pos(s, x, i + 1)
    }
}

pub proof fn lemma_drop_key_len(keys: Seq<Ident>, other: Seq<Ident>, x: Ident)
    requires
        keys.len() == other.len(),
    ensures
        drop_key(keys, other, x).0.len() == drop_key(keys, other, x).1.len(),
        drop_key(keys, other, x).0.len() <= keys.len(),
        !drop_key(keys, other, x).0.contains(x),
        forall|y: Ident| #[trigger]
            drop_key(keys, other, x).0.contains(y) ==> keys.contains(y),
    decreases keys.len(),
{
    if keys.len() > 0 {
        let n = keys.len() - 1;
        lemma_drop_key_len(keys.drop_last(), other.take(n), x);
        let r = drop_key(keys.drop_last(), other.take(n), x);
        assert forall|y: Ident| #[trigger] drop_key(keys, other, x).0.contains(y) implies keys.contains(
            y,
        ) by {
            if r.0.contains(y) {
                let j = choose|j: int| 0 <= j < r.0.len() && r.0[j] == y;
                assert(keys.drop_last().contains(y));
                let m = choose|m: int| 0 <= m < keys.drop_last().len() && keys.drop_last()[m] == y;
                assert(keys[m] == y);
            } else {
                assert(keys[n] == y);
            }
        }
        if keys.last() != x {
            assert forall|y: Ident| r.0.push(keys.last()).contains(y) implies y != x by {
                if y == x {
                    let j = choose|j: int| 0 <= j < r.0.push(keys.last()).len() && r.0.push(keys.last())[j] == y;
                    if j < r.0.len() {
                        assert(r.0.contains(y));
                    }
                }
            }
        }
    }
}

pub proof fn lemma_common_in(a: Seq<Ident>, b: Seq<Ident>)
    ensures
        forall|j: int| 0 <= j < common(a, b).len() ==> #[trigger] b.contains(common(a, b)[j]),
        forall|j: int| 0 <= j < common(a, b).len() ==> #[trigger] a.contains(common(a, b)[j]),
    decreases a.len(),
{
    if a.len() > 0 {
        lemma_common_in(a.drop_last(), b);
        let c = common(a.drop_last(), b);
        assert forall|j: int| 0 <= j < common(a, b).len() implies #[trigger] a.contains(common(a, b)[j]) by {
            if j < c.len() {
                assert(a.drop_last().contains(c[j]));
                let m = choose|m: int| 0 <= m < a.drop_last().len() && a.drop_last()[m] == c[j];
                assert(a[m] == c[j]);
            } else {
                assert(a[a.len() - 1] == common(a, b)[j]);
            }
        }
    }
}

pub proof fn lemma_first_pos_found(s: Seq<Ident>, x: Ident, i: int)
    requires
        0 <= i,
        exists|j: int| i <= j < s.len() && s[j] == x,
    ensures
        i <= first_pos(s, x, i) < s.len(),
        s[first_pos(s, x, i)] == x,
    decreases s.len() - i,
{
    if s[i] != x {
        let j = choose|j: int| i <= j < s.len() && s[j] == x;
        assert(i + 1 <= j);
        lemma_first_pos_found(s, x, i + 1);
    }
}

pub proof fn lemma_dedup(s: Seq<Ident>)
    ensures
        forall|x: Ident| #[trigger] dedup(s).contains(x) <==> s.contains(x),
        dedup(s).len() <= s.len(),
        s.len() > 0 ==> dedup(s).len() >= 1,
    decreases s.len(),
{
    if s.len() > 0 {
        let t = s.drop_last();
        lemma_dedup(t);
        let d = dedup(t);
        assert forall|x: Ident| #[trigger] dedup(s).contains(x) <==> s.contains(x) by {
            if s.contains(x) {
                let j = choose|j: int| 0 <= j < s.len() && s[j] == x;
                if j < s.len() - 1 {
                    assert(t[j] == x);
                    assert(t.contains(x));
                    assert(d.contains(x));
                    if !d.contains(s.last()) {
                        let m = choose|m: int| 0 <= m < d.len() && d[m] == x;
                        assert(d.push(s.last())[m] == x);
                    }
                } else {
                    if !d.contains(s.last()) {
                        assert(d.push(s.last())[d.len() as int] == x);
                    }
                }
            }
            if dedup(s).contains(x) {
                let m = choose|m: int| 0 <= m < dedup(s).len() && dedup(s)[m] == x;
                if d.contains(s.last()) || m < d.len() {
                    if !d.contains(s.last()) {
                        assert(d[m] == x);
                    }
                    assert(d.contains(x));
                    assert(t.contains(x));
                    let j = choose|j: int| 0 <= j < t.len() && t[j] == x;
                    assert(s[j] == x);
                } else {
                    assert(s[s.len() - 1] == x);
                }
            }
        }
        if d.contains(s.last()) {
            assert(d.len() >= 1);
        }
    }
}

pub fn contains(v: &[String], x: &String) -> (r: bool)
    ensures
        r == v.deep_view().contains(x@),
{
    let mut i: usize = 0;
    while i < v.len()
        invariant
            0 <= i <= v.len(),
            forall|j: int| 0 <= j < i ==> v.deep_view()[j] != x@,
        decreases v.len() - i,
    {
        if v[i] == *x {
            assert(v.deep_view()[i as int] == x@);
            return true;
        }
        i += 1;
    }
    false
}

pub fn clone_strs(v: &[String]) -> (r: Vec<String>)
    ensures
        r.deep_view() == v.deep_view(),
{
    let mut r: Vec<String> = Vec::new();
    let mut i: usize = 0;
    while i < v.len()
        invariant
            0 <= i <= v.len(),
            r.deep_view() =~= v.deep_view().take(i as int),
        decreases v.len() - i,
    {
        let ghost old_r = r.deep_view();
        r.push(v[i].clone());
        assert(r.deep_view() =~= old_r.push(v.deep_view()[i as int]));
        i += 1;
    }
    assert(v.deep_view().take(v.len() as int) =~= v.deep_view());
    r
}

/// The identifiers of `a`, in order, that also occur in `b`.
pub fn inter(a: &[String], b: &[String]) -> (c: Vec<String>)
    ensures
        c.deep_view() == common(a.deep_view(), b.deep_view()),
{
    let mut c: Vec<String> = Vec::new();
    let mut i: usize = 0;
    while i < a.len()
        invariant
            0 <= i <= a.len(),
            c.deep_view() == common(a.deep_view().take(i as int), b.deep_view()),
        decreases a.len() - i,
    {
        assert(a.deep_view().take(i + 1).drop_last() =~= a.deep_view().take(i as int));
        if contains(b, &a[i]) {
            let ghost old_c = c.deep_view();
            c.push(a[i].clone());
            assert(c.deep_view() =~= old_c.push(a.deep_view()[i as int]));
        }
        i += 1;
    }
    assert(a.deep_view().take(a.len() as int) =~= a.deep_view());
    c
}

/// The distinct identifiers of `items`, in order of first occurrence.
pub fn unique(items: &[String]) -> (r: Vec<String>)
    ensures
        r.deep_view() == dedup(items.deep_view()),
{
    let mut r: Vec<String> = Vec::new();
    let mut i: usize = 0;
    while i < items.len()
        invariant
            0 <= i <= items.len(),
            r.deep_view() == dedup(items.deep_view().take(i as int)),
        decreases items.len() - i,
    {
        assert(items.deep_view().take(i + 1).drop_last() =~= items.deep_view().take(i as int));
        if !contains(r.as_slice(), &items[i]) {
            let ghost old_r = r.deep_view();
            r.push(items[i].clone());
            assert(r.deep_view() =~= old_r.push(items.deep_view()[i as int]));
        }
        i += 1;
    }
    assert(items.deep_view().take(items.len() as int) =~= items.deep_view());
    r
}

/// The number of distinct identifiers in `items`.
pub fn unique_len(items: &[String]) -> (r: usize)
    ensures
        r == dedup(items.deep_view()).len(),
{
    unique(items).len()
}

/// Removes from `keys` and `other`, aligned by index, every position where
/// `keys` holds `x`.
pub fn drop_where(keys: &Vec<String>, other: &Vec<String>, x: &String) -> (r: (
    Vec<String>,
    Vec<String>,
))
    requires
        keys.len() == other.len(),
    ensures
        (r.0.deep_view(), r.1.deep_view()) == drop_key(keys.deep_view(), other.deep_view(), x@),
{
    let mut a: Vec<String> = Vec::new();
    let mut b: Vec<String> = Vec::new();
    let mut i: usize = 0;
    while i < keys.len()
        invariant
            0 <= i <= keys.len(),
            keys.len() == other.len(),
            (a.deep_view(), b.deep_view()) == drop_key(
                keys.deep_view().take(i as int),
                other.deep_view().take(i as int),
                x@,
            ),
        decreases keys.len() - i,
    {
        assert(keys.deep_view().take(i + 1).drop_last() =~= keys.deep_view().take(i as int));
        assert(other.deep_view().take(i + 1).take(i as int) =~= other.deep_view().take(i as int));
        if !(keys[i] == *x) {
            let ghost old_a = a.deep_view();
            let ghost old_b = b.deep_view();
            a.push(keys[i].clone());
            b.push(other[i].clone());
            assert(a.deep_view() =~= old_a.push(keys.deep_view()[i as int]));
            assert(b.deep_view() =~= old_b.push(other.deep_view()[i as int]));
        }
        i += 1;
    }
    assert(keys.deep_view().take(keys.len() as int) =~= keys.deep_view());
    assert(other.deep_view().take(other.len() as int) =~= other.deep_view());
    (a, b)
}

/// The first position where `s` holds `x`, or `s.len()`.
pub fn position(s: &Vec<String>, x: &String) -> (r: usize)
    ensures
        r as int == first_pos(s.deep_view(), x@, 0),
{
    let mut i: usize = 0;
    while i < s.len()
        invariant
            0 <= i <= s.len(),
            first_pos(s.deep_view(), x@, 0) == first_pos(s.deep_view(), x@, i as int),
        decreases s.len() - i,
    {
        if s[i] == *x {
            return i;
        }
        i += 1;
    }
    i
}

} // verus!
