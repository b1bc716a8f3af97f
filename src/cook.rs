//! The cooking catalog, its lookups, and the dish computation.
use vstd::prelude::*;
use crate::modifier::Modifier;
use crate::recipe::{RecipeBase, is_flat_nonempty, shape_matches, recipe_same};
use crate::strs::Ident;

verus! {

/// Largest value accepted for any numeric stat of a catalog item.
pub const STAT_LIMIT: i32 = 100_000_000;

/// First index of the catalog's strict sub-range in the standard catalog.
pub const STRICT_SPLIT: usize = 125;

/// Name of the fallback shape.
pub open spec fn dubious_name() -> Seq<char> {
    "Dubious Food"@
}

pub open spec fn rock_hard_name() -> Seq<char> {
    "Rock-Hard Food"@
}

pub open spec fn fairy_tonic_name() -> Seq<char> {
    "Fairy Tonic"@
}

pub open spec fn elixir_name() -> Seq<char> {
    "Elixir"@
}

pub open spec fn monster_extract_name() -> Seq<char> {
    "Monster Extract"@
}

/// An ingredient of the catalog.
#[derive(Debug, Clone)]
pub struct Item {
    pub hp: i32,
    pub effect: Modifier,
    pub potency: i32,
    pub time: i32,
    /// Category tags; a valid item carries at most one.
    pub tags: Vec<String>,
    pub name: String,
    pub time_boost: i32,
    pub hp_boost: i32,
    pub cook_low_price: bool,
    pub key_item: bool,
    pub roast_item: bool,
    pub sell_price: i32,
    pub buy_price: i32,
    pub boost_success_rate: i32,
}

pub open spec fn stat_ok(x: i32) -> bool {
    0 <= x <= STAT_LIMIT
}

/// An item that the catalog accepts: at most one tag, every stat in range.
pub open spec fn item_ok(it: &Item) -> bool {
    &&& it.tags@.len() <= 1
    &&& stat_ok(it.hp)
    &&& stat_ok(it.potency)
    &&& stat_ok(it.time)
    &&& stat_ok(it.time_boost)
    &&& stat_ok(it.hp_boost)
    &&& stat_ok(it.sell_price)
    &&& stat_ok(it.buy_price)
    &&& stat_ok(it.boost_success_rate)
}

/// The category tag of an item, empty when it has none.
pub open spec fn item_tag(it: &Item) -> Ident {
    if it.tags@.len() == 0 {
        Seq::empty()
    } else {
        it.tags@[0]@
    }
}

impl Item {
    /// Whether the catalog accepts this item.
    pub fn is_valid(&self) -> (r: bool)
        ensures
            r == item_ok(self),
    {
        self.tags.len() <= 1 && 0 <= self.hp && self.hp <= STAT_LIMIT && 0 <= self.potency
            && self.potency <= STAT_LIMIT && 0 <= self.time && self.time <= STAT_LIMIT && 0
            <= self.time_boost && self.time_boost <= STAT_LIMIT && 0 <= self.hp_boost
            && self.hp_boost <= STAT_LIMIT && 0 <= self.sell_price && self.sell_price
            <= STAT_LIMIT && 0 <= self.buy_price && self.buy_price <= STAT_LIMIT && 0
            <= self.boost_success_rate && self.boost_success_rate <= STAT_LIMIT
    }

    /// The item's category tag, empty when it has none.
    pub fn tag(&self) -> (r: String)
        ensures
            r@ == item_tag(self),
    {
        if self.tags.len() == 0 {
            String::new()
        } else {
            self.tags[0].clone()
        }
    }
}

/// Duration and threshold metadata of one effect type.
#[derive(Debug, Clone)]
pub struct Effect {
    pub base_time: i32,
    pub max: i32,
    pub min: i32,
    pub ssa: i32,
    pub kind: Modifier,
    pub xtype: String,
}

/// What can go wrong when building a catalog or cooking.
#[derive(Debug)]
pub enum CookError {
    UnknownItem(String),
    UnknownEffect(Modifier),
    NotFound,
    EmptyInput,
    /// A catalog entry that breaks the catalog's rules.
    Invalid(String),
}

/// The value of a `CookError`.
pub enum ErrorView {
    UnknownItem(Seq<char>),
    UnknownEffect(Modifier),
    NotFound,
    EmptyInput,
    Invalid(Seq<char>),
}

impl View for CookError {
    type V = ErrorView;

    open spec fn view(&self) -> ErrorView {
        match self {
            CookError::UnknownItem(s) => ErrorView::UnknownItem(s@),
            CookError::UnknownEffect(m) => ErrorView::UnknownEffect(*m),
            CookError::NotFound => ErrorView::NotFound,
            CookError::EmptyInput => ErrorView::EmptyInput,
            CookError::Invalid(s) => ErrorView::Invalid(s@),
        }
    }
}

/// First position at or after `i` whose key is `k`, or `s.len()`.
pub open spec fn pair_pos(s: Seq<(Ident, Ident)>, k: Ident, i: int) -> int
    decreases s.len() - i,
{
    if i < 0 || i >= s.len() {
        s.len() as int
    } else if s[i].0 == k {
        i
    } else {
        pair_pos(s, k, i + 1)
    }
}

/// First position at or after `i` of the item with id `k`, or `s.len()`.
pub open spec fn item_pos(s: Seq<(String, Item)>, k: Ident, i: int) -> int
    decreases s.len() - i,
{
    if i < 0 || i >= s.len() {
        s.len() as int
    } else if s[i].0@ == k {
        i
    } else {
        item_pos(s, k, i + 1)
    }
}

/// First position at or after `i` of the metadata of `m`, or `s.len()`.
pub open spec fn effect_pos(s: Seq<Effect>, m: Modifier, i: int) -> int
    decreases s.len() - i,
{
    if i < 0 || i >= s.len() {
        s.len() as int
    } else if s[i].kind == m {
        i
    } else {
        effect_pos(s, m, i + 1)
    }
}

pub proof fn lemma_pair_pos_bounds(s: Seq<(Ident, Ident)>, k: Ident, i: int)
    requires
        0 <= i <= s.len(),
    ensures
        i <= pair_pos(s, k, i) <= s.len(),
        pair_pos(s, k, i) < s.len() ==> s[pair_pos(s, k, i)].0 == k,
    decreases s.len() - i,
{
    if i < s.len() && s[i].0 != k {
        lemma_pair_pos_bounds(s, k, i + 1);
    }
}

pub proof fn lemma_item_pos_bounds(s: Seq<(String, Item)>, k: Ident, i: int)
    requires
        0 <= i <= s.len(),
    ensures
        i <= item_pos(s, k, i) <= s.len(),
        item_pos(s, k, i) < s.len() ==> s[item_pos(s, k, i)].0@ == k,
    decreases s.len() - i,
{
    if i < s.len() && s[i].0@ != k {
        lemma_item_pos_bounds(s, k, i + 1);
    }
}

pub proof fn lemma_effect_pos_bounds(s: Seq<Effect>, m: Modifier, i: int)
    requires
        0 <= i <= s.len(),
    ensures
        i <= effect_pos(s, m, i) <= s.len(),
        effect_pos(s, m, i) < s.len() ==> s[effect_pos(s, m, i)].kind == m,
    decreases s.len() - i,
{
    if i < s.len() && s[i].kind != m {
        lemma_effect_pos_bounds(s, m, i + 1);
    }
}

fn find_pair(s: &Vec<(String, String)>, k: &String) -> (r: usize)
    ensures
        r == pair_pos(s.deep_view(), k@, 0),
{
    let mut i: usize = 0;
    while i < s.len()
        invariant
            0 <= i <= s.len(),
            pair_pos(s.deep_view(), k@, 0) == pair_pos(s.deep_view(), k@, i as int),
        decreases s.len() - i,
    {
        if s[i].0 == *k {
            return i;
        }
        i += 1;
    }
    i
}

fn find_item(s: &Vec<(String, Item)>, k: &String) -> (r: usize)
    ensures
        r == item_pos(s@, k@, 0),
{
    let mut i: usize = 0;
    while i < s.len()
        invariant
            0 <= i <= s.len(),
            item_pos(s@, k@, 0) == item_pos(s@, k@, i as int),
        decreases s.len() - i,
    {
        if s[i].0 == *k {
            return i;
        }
        i += 1;
    }
    i
}

pub(crate) fn find_effect(s: &Vec<Effect>, m: Modifier) -> (r: usize)
    ensures
        r == effect_pos(s@, m, 0),
{
    let mut i: usize = 0;
    while i < s.len()
        invariant
            0 <= i <= s.len(),
            effect_pos(s@, m, 0) == effect_pos(s@, m, i as int),
        decreases s.len() - i,
    {
        if s[i].kind == m {
            return i;
        }
        i += 1;
    }
    i
}

/// `p` is a prefix of `s`.
pub open spec fn is_prefix(p: Seq<char>, s: Seq<char>) -> bool {
    p.len() <= s.len() && s.subrange(0, p.len() as int) == p
}

/// Relies on `str::starts_with`: true exactly when `prefix` is a prefix of `s`.
#[verifier::external_body]
fn starts_with(s: &str, prefix: &str) -> (r: bool)
    ensures
        r == is_prefix(prefix@, s@),
{
    s.starts_with(prefix)
}

/// Sets the value of key `k` to `v`: in place where `k` is present, else appended.
pub open spec fn upsert(s: Seq<(Ident, Ident)>, k: Ident, v: Ident) -> Seq<(Ident, Ident)> {
    let p = pair_pos(s, k, 0);
    if p < s.len() {
        s.update(p, (k, v))
    } else {
        s.push((k, v))
    }
}

pub open spec fn has_key(s: Seq<(Ident, Ident)>, k: Ident) -> bool {
    pair_pos(s, k, 0) < s.len()
}

/// The display-name resolver built from the first `n` entries of `names`
/// (internal id, display name): every id present in `data` is registered
/// under its display name, a later id taking over an earlier one, except that
/// an `Animal_` id never takes over a display name already taken.
pub open spec fn resolver(names: Seq<(Ident, Ident)>, data: Seq<(String, Item)>, n: nat) -> Seq<
    (Ident, Ident),
>
    decreases n,
{
    if n == 0 {
        Seq::empty()
    } else {
        let m = resolver(names, data, (n - 1) as nat);
        let key = names[n - 1].0;
        let value = names[n - 1].1;
        if item_pos(data, key, 0) >= data.len() {
            m
        } else if has_key(m, value) && is_prefix("Animal_"@, key) {
            m
        } else {
            upsert(m, value, key)
        }
    }
}

/// Display names whose resolution is fixed, whichever id came last.
pub open spec fn preferred() -> Seq<(Ident, Ident)> {
    seq![
        ("Hearty Radish"@, "Item_PlantGet_B"@),
        ("Big Hearty Radish"@, "Item_PlantGet_C"@),
        ("Endura Carrot"@, "Item_PlantGet_Q"@),
        ("Swift Carrot"@, "Item_PlantGet_M"@),
        ("Silent Princess"@, "Item_PlantGet_J"@),
        ("Octo Balloon"@, "Item_Enemy_57"@),
        ("Master Sword"@, "Item_Sword_080"@),
    ]
}

/// `m` with the first `n` preferences applied to display names it already holds.
pub open spec fn with_preferences(m: Seq<(Ident, Ident)>, prefs: Seq<(Ident, Ident)>, n: nat) -> Seq<
    (Ident, Ident),
>
    decreases n,
{
    if n == 0 {
        m
    } else {
        let m2 = with_preferences(m, prefs, (n - 1) as nat);
        if has_key(m2, prefs[n - 1].0) {
            upsert(m2, prefs[n - 1].0, prefs[n - 1].1)
        } else {
            m2
        }
    }
}

/// The resolver of a catalog built from `names` and `data`.
pub open spec fn resolver_of(names: Seq<(Ident, Ident)>, data: Seq<(String, Item)>) -> Seq<
    (Ident, Ident),
> {
    with_preferences(resolver(names, data, names.len()), preferred(), preferred().len())
}

/// First index at or after `i` of an item that the catalog refuses, or `data.len()`.
pub open spec fn first_bad_item(data: Seq<(String, Item)>, i: int) -> int
    decreases data.len() - i,
{
    if i < 0 || i >= data.len() {
        data.len() as int
    } else if !item_ok(&data[i].1) {
        i
    } else {
        first_bad_item(data, i + 1)
    }
}

/// First index at or after `i`, below `split`, of a shape with a flat non-empty
/// tag list, or `split`.
pub open spec fn first_flat(recipes: Seq<RecipeBase>, split: int, i: int) -> int
    decreases split - i,
{
    if i < 0 || i >= split {
        split
    } else if is_flat_nonempty(&recipes[i].tags) {
        i
    } else {
        first_flat(recipes, split, i + 1)
    }
}

/// First index at or after `i` of the shape named `name`, or `recipes.len()`.
pub open spec fn named_pos(recipes: Seq<RecipeBase>, name: Seq<char>, i: int) -> int
    decreases recipes.len() - i,
{
    if i < 0 || i >= recipes.len() {
        recipes.len() as int
    } else if recipes[i].name@ == name {
        i
    } else {
        named_pos(recipes, name, i + 1)
    }
}

pub proof fn lemma_named_pos(recipes: Seq<RecipeBase>, name: Seq<char>, i: int)
    requires
        0 <= i <= recipes.len(),
    ensures
        i <= named_pos(recipes, name, i) <= recipes.len(),
        named_pos(recipes, name, i) < recipes.len() ==> recipes[named_pos(recipes, name, i)].name@
            == name,
    decreases recipes.len() - i,
{
    if i < recipes.len() && recipes[i].name@ != name {
        lemma_named_pos(recipes, name, i + 1);
    }
}

pub proof fn lemma_first_flat(recipes: Seq<RecipeBase>, split: int, i: int)
    requires
        0 <= i <= split <= recipes.len(),
        first_flat(recipes, split, i) == split,
    ensures
        forall|j: int| i <= j < split ==> !is_flat_nonempty(#[trigger] &recipes[j].tags),
    decreases split - i,
{
    if i < split {
        lemma_first_flat(recipes, split, i + 1);
    }
}

pub proof fn lemma_first_bad_item(data: Seq<(String, Item)>, i: int)
    requires
        0 <= i <= data.len(),
        first_bad_item(data, i) == data.len(),
    ensures
        forall|j: int| i <= j < data.len() ==> item_ok(#[trigger] &data[j].1),
    decreases data.len() - i,
{
    if i < data.len() {
        lemma_first_bad_item(data, i + 1);
    }
}

/// Why a catalog cannot be built from these tables, if it cannot.
pub open spec fn catalog_error(data: Seq<(String, Item)>, recipes: Seq<RecipeBase>, split: int) -> Option<
    ErrorView,
> {
    if first_bad_item(data, 0) < data.len() {
        Some(ErrorView::Invalid(data[first_bad_item(data, 0)].0@))
    } else if first_flat(recipes, split, 0) < split {
        Some(ErrorView::Invalid(recipes[first_flat(recipes, split, 0)].name@))
    } else if named_pos(recipes, dubious_name(), 0) >= recipes.len() {
        Some(ErrorView::NotFound)
    } else {
        None
    }
}

/// The read-only catalog that dishes are cooked against.
pub struct Cook {
    pub effects: Vec<Effect>,
    /// (internal id, display name) pairs, as loaded.
    pub names: Vec<(String, String)>,
    /// The resolver: (display name, internal id) pairs, keys distinct.
    pub inames: Vec<(String, String)>,
    pub tags: Vec<String>,
    /// (internal id, item) pairs.
    pub data: Vec<(String, Item)>,
    /// The ordered catalog of shapes.
    pub recipes: Vec<RecipeBase>,
    /// Index of the fallback shape.
    pub dubious: usize,
    /// Shapes below this index form the relaxed sub-range, the others the strict one.
    pub split: usize,
    pub verbose: bool,
}

fn find_named(recipes: &Vec<RecipeBase>, name: &String) -> (r: usize)
    ensures
        r == named_pos(recipes@, name@, 0),
{
    let mut i: usize = 0;
    while i < recipes.len()
        invariant
            0 <= i <= recipes@.len(),
            named_pos(recipes@, name@, 0) == named_pos(recipes@, name@, i as int),
        decreases recipes.len() - i,
    {
        if recipes[i].name == *name {
            return i;
        }
        i += 1;
    }
    i
}

fn upsert_pair(m: &mut Vec<(String, String)>, k: String, v: String)
    ensures
        final(m).deep_view() == upsert(old(m).deep_view(), k@, v@),
{
    let p = find_pair(m, &k);
    let ghost old_m = m.deep_view();
    proof {
        lemma_pair_pos_bounds(old_m, k@, 0);
    }
    if p < m.len() {
        m.set(p, (k, v));
        assert(m.deep_view() =~= old_m.update(p as int, (k@, v@)));
    } else {
        m.push((k, v));
        assert(m.deep_view() =~= old_m.push((k@, v@)));
    }
}

fn pair_of(a: &str, b: &str) -> (r: (String, String))
    ensures
        r.0@ == a@,
        r.1@ == b@,
{
    (a.to_owned(), b.to_owned())
}

fn preferred_pairs() -> (r: Vec<(String, String)>)
    ensures
        r.deep_view() == preferred(),
{
    let mut r: Vec<(String, String)> = Vec::new();
    r.push(pair_of("Hearty Radish", "Item_PlantGet_B"));
    r.push(pair_of("Big Hearty Radish", "Item_PlantGet_C"));
    r.push(pair_of("Endura Carrot", "Item_PlantGet_Q"));
    r.push(pair_of("Swift Carrot", "Item_PlantGet_M"));
    r.push(pair_of("Silent Princess", "Item_PlantGet_J"));
    r.push(pair_of("Octo Balloon", "Item_Enemy_57"));
    r.push(pair_of("Master Sword", "Item_Sword_080"));
    assert(r.deep_view() =~= preferred());
    r
}

/// Builds the display-name resolver from (internal id, display name) pairs.
fn build_resolver(names: &Vec<(String, String)>, data: &Vec<(String, Item)>) -> (r: Vec<
    (String, String),
>)
    ensures
        r.deep_view() == resolver_of(names.deep_view(), data@),
{
    let mut m: Vec<(String, String)> = Vec::new();
    let mut i: usize = 0;
    while i < names.len()
        invariant
            0 <= i <= names.len(),
            m.deep_view() == resolver(names.deep_view(), data@, i as nat),
        decreases names.len() - i,
    {
        let key = &names[i].0;
        let value = &names[i].1;
        let known = find_item(data, key) < data.len();
        if known {
            let taken = find_pair(&m, value) < m.len();
            if !(taken && starts_with(key.as_str(), "Animal_")) {
                upsert_pair(&mut m, value.clone(), key.clone());
            }
        }
        i += 1;
    }
    let prefs = preferred_pairs();
    let mut j: usize = 0;
    while j < prefs.len()
        invariant
            0 <= j <= prefs.len(),
            prefs.deep_view() == preferred(),
            m.deep_view() == with_preferences(
                resolver(names.deep_view(), data@, names@.len()),
                preferred(),
                j as nat,
            ),
        decreases prefs.len() - j,
    {
        if find_pair(&m, &prefs[j].0) < m.len() {
            upsert_pair(&mut m, prefs[j].0.clone(), prefs[j].1.clone());
        }
        j += 1;
    }
    m
}

impl Cook {
    /// Builds a catalog from its loaded tables: items are checked, shapes
    /// numbered by position, the fallback shape located and the display-name
    /// resolver built.
    pub fn new(
        names: Vec<(String, String)>,
        data: Vec<(String, Item)>,
        tags: Vec<String>,
        recipes: Vec<RecipeBase>,
        effects: Vec<Effect>,
        split: usize,
    ) -> (r: Result<Cook, CookError>)
        requires
            split <= recipes@.len(),
            recipes@.len() <= i32::MAX,
        ensures
            match r {
                Err(e) => catalog_error(data@, recipes@, split as int) == Some(e@),
                Ok(c) => {
                    &&& catalog_error(data@, recipes@, split as int) is None
                    &&& c.wf()
                    &&& c.data == data
                    &&& c.names == names
                    &&& c.tags == tags
                    &&& c.effects == effects
                    &&& c.split == split
                    &&& c.dubious == named_pos(recipes@, dubious_name(), 0)
                    &&& c.inames.deep_view() == resolver_of(names.deep_view(), data@)
                    &&& c.recipes@.len() == recipes@.len()
                    &&& forall|i: int|
                        0 <= i < recipes@.len() ==> #[trigger] c.recipes@[i] == (RecipeBase {
                            id: i as i32,
                            ..recipes@[i]
                        })
                    &&& !c.verbose
                },
            },
    {
        let mut i: usize = 0;
        while i < data.len()
            invariant
                0 <= i <= data.len(),
                first_bad_item(data@, 0) == first_bad_item(data@, i as int),
            decreases data.len() - i,
        {
            if !data[i].1.is_valid() {
                return Err(CookError::Invalid(data[i].0.clone()));
            }
            i += 1;
        }
        let mut i: usize = 0;
        while i < split
            invariant
                split <= recipes@.len(),
                first_bad_item(data@, 0) == data@.len(),
                0 <= i <= split,
                first_flat(recipes@, split as int, 0) == first_flat(recipes@, split as int, i as int),
            decreases split - i,
        {
            if recipes[i].tags.is_flat_nonempty() {
                return Err(CookError::Invalid(recipes[i].name.clone()));
            }
            i += 1;
        }
        let fallback = "Dubious Food".to_owned();
        let dubious = find_named(&recipes, &fallback);
        if dubious == recipes.len() {
            return Err(CookError::NotFound);
        }
        proof {
            lemma_named_pos(recipes@, dubious_name(), 0);
            lemma_first_flat(recipes@, split as int, 0);
            lemma_first_bad_item(data@, 0);
        }
        let inames = build_resolver(&names, &data);
        let ghost given = recipes@;
        let mut recipes = recipes;
        let mut k: usize = 0;
        while k < recipes.len()
            invariant
                recipes@.len() == given.len(),
                given.len() <= i32::MAX,
                0 <= k <= recipes@.len(),
                forall|i: int| 0 <= i < k ==> #[trigger] recipes@[i] == (RecipeBase {
                    id: i as i32,
                    ..given[i]
                }),
                forall|i: int| k <= i < recipes@.len() ==> #[trigger] recipes@[i] == given[i],
                split <= given.len(),
                dubious < given.len(),
                given[dubious as int].name@ == dubious_name(),
                forall|j: int| 0 <= j < split ==> !is_flat_nonempty(#[trigger] &given[j].tags),
            decreases given.len() - k,
        {
            recipes[k].id = k as i32;
            k += 1;
        }
        let c = Cook { effects, names, inames, tags, data, recipes, dubious, split, verbose: false };
        assert forall|j: int| 0 <= j < c.split implies !is_flat_nonempty(#[trigger] &c.recipes@[j].tags) by {
            assert(c.recipes@[j] == (RecipeBase { id: j as i32, ..given[j] }));
        }
        assert(c.recipes@[dubious as int] == (RecipeBase { id: dubious as i32, ..given[dubious as int] }));
        Ok(c)
    }
}

/// Position in the resolver of display name `d`, or its length.
pub open spec fn iname_pos(c: &Cook, d: Ident) -> int {
    pair_pos(c.inames.deep_view(), d, 0)
}

/// First position at or after `i` of a display name that does not resolve, or `names.len()`.
pub open spec fn first_unresolved(c: &Cook, names: Seq<Ident>, i: int) -> int
    decreases names.len() - i,
{
    if i < 0 || i >= names.len() {
        names.len() as int
    } else if iname_pos(c, names[i]) >= c.inames@.len() {
        i
    } else {
        first_unresolved(c, names, i + 1)
    }
}

/// The internal ids that the display names resolve to.
pub open spec fn ids_of(c: &Cook, names: Seq<Ident>) -> Seq<Ident> {
    Seq::new(names.len(), |i: int| c.inames.deep_view()[iname_pos(c, names[i])].1)
}

/// First position at or after `i` of an id that names no item, or `ids.len()`.
pub open spec fn first_missing(c: &Cook, ids: Seq<Ident>, i: int) -> int
    decreases ids.len() - i,
{
    if i < 0 || i >= ids.len() {
        ids.len() as int
    } else if item_pos(c.data@, ids[i], 0) >= c.data@.len() {
        i
    } else {
        first_missing(c, ids, i + 1)
    }
}

/// The internal ids of display names, or the first name or id that is unknown.
pub open spec fn resolve(c: &Cook, names: Seq<Ident>) -> Result<Seq<Ident>, ErrorView> {
    if first_unresolved(c, names, 0) < names.len() {
        Err(ErrorView::UnknownItem(names[first_unresolved(c, names, 0)]))
    } else if first_missing(c, ids_of(c, names), 0) < names.len() {
        Err(ErrorView::UnknownItem(ids_of(c, names)[first_missing(c, ids_of(c, names), 0)]))
    } else {
        Ok(ids_of(c, names))
    }
}

/// The item of the catalog with internal id `id`.
pub open spec fn item_of(c: &Cook, id: Ident) -> Item {
    c.data@[item_pos(c.data@, id, 0)].1
}

/// The tags of the items with these ids.
pub open spec fn tags_of(c: &Cook, ids: Seq<Ident>) -> Seq<Ident> {
    Seq::new(ids.len(), |i: int| item_tag(&item_of(c, ids[i])))
}

/// First index at or after `i` of a strict-range shape that matches strictly, or the catalog's length.
pub open spec fn strict_hit(c: &Cook, items: Seq<Ident>, tags: Seq<Ident>, i: int) -> int
    decreases c.recipes@.len() - i,
{
    if i < 0 || i >= c.recipes@.len() {
        c.recipes@.len() as int
    } else if shape_matches(&c.recipes@[i], items, tags, true) {
        i
    } else {
        strict_hit(c, items, tags, i + 1)
    }
}

/// First index at or after `i` of a relaxed-range shape that matches, or the split point.
pub open spec fn relaxed_hit(c: &Cook, items: Seq<Ident>, tags: Seq<Ident>, i: int) -> int
    decreases c.split - i,
{
    if i < 0 || i >= c.split {
        c.split as int
    } else if shape_matches(&c.recipes@[i], items, tags, false) {
        i
    } else {
        relaxed_hit(c, items, tags, i + 1)
    }
}

/// Index of the shape that items with these tags resolve to: the first strict
/// match, else the first relaxed match, else the fallback.
pub open spec fn match_index(c: &Cook, items: Seq<Ident>, tags: Seq<Ident>) -> int {
    let s = strict_hit(c, items, tags, c.split as int);
    if s < c.recipes@.len() {
        s
    } else {
        let r = relaxed_hit(c, items, tags, 0);
        if r < c.split {
            r
        } else {
            c.dubious as int
        }
    }
}

impl Cook {
    pub fn set_verbose(&mut self, verbose: bool)
        ensures
            final(self).verbose == verbose,
            final(self).effects == old(self).effects,
            final(self).names == old(self).names,
            final(self).inames == old(self).inames,
            final(self).tags == old(self).tags,
            final(self).data == old(self).data,
            final(self).recipes == old(self).recipes,
            final(self).dubious == old(self).dubious,
            final(self).split == old(self).split,
    {
        self.verbose = verbose;
    }

    /// The internal ids of display names.
    pub fn item_names(&self, items: &[String]) -> (r: Result<Vec<String>, CookError>)
        ensures
            match r {
                Ok(v) => first_unresolved(self, items.deep_view(), 0) == items@.len()
                    && v.deep_view() == ids_of(self, items.deep_view()),
                Err(e) => first_unresolved(self, items.deep_view(), 0) < items@.len()
                    && e@ == ErrorView::UnknownItem(
                    items.deep_view()[first_unresolved(self, items.deep_view(), 0)],
                ),
            },
    {
        let mut out: Vec<String> = Vec::new();
        let mut i: usize = 0;
        while i < items.len()
            invariant
                0 <= i <= items@.len(),
                first_unresolved(self, items.deep_view(), 0) == first_unresolved(self, items.deep_view(), i as int),
                out.deep_view() =~= ids_of(self, items.deep_view()).take(i as int),
            decreases items.len() - i,
        {
            let p = find_pair(&self.inames, &items[i]);
            if p >= self.inames.len() {
                return Err(CookError::UnknownItem(items[i].clone()));
            }
            let ghost old_out = out.deep_view();
            out.push(self.inames[p].1.clone());
            assert(out.deep_view() =~= old_out.push(ids_of(self, items.deep_view())[i as int]));
            i += 1;
        }
        assert(ids_of(self, items.deep_view()).take(items@.len() as int) =~= ids_of(self, items.deep_view()));
        Ok(out)
    }
}

impl Cook {
    /// Resolves display names to internal ids, their tags, and the positions
    /// of their items in the catalog.
    pub(crate) fn resolve_items(&self, items: &[String]) -> (r: Result<(Vec<String>, Vec<String>, Vec<usize>), CookError>)
        ensures
            match r {
                Ok(t) => {
                    &&& resolve(self, items.deep_view()) == Ok::<Seq<Ident>, ErrorView>(t.0.deep_view())
                    &&& t.1.deep_view() == tags_of(self, t.0.deep_view())
                    &&& t.2@.len() == items@.len()
                    &&& t.0@.len() == items@.len()
                    &&& forall|i: int| 0 <= i < items@.len() ==> #[trigger] t.2@[i] == item_pos(self.data@, t.0.deep_view()[i], 0)
                        && t.2@[i] < self.data@.len()
                },
                Err(e) => resolve(self, items.deep_view()) == Err::<Seq<Ident>, ErrorView>(e@),
            },
    {
        let ids = match self.item_names(items) {
            Ok(v) => v,
            Err(e) => return Err(e),
        };
        let ghost idv = ids.deep_view();
        let mut tags: Vec<String> = Vec::new();
        let mut pos: Vec<usize> = Vec::new();
        let mut i: usize = 0;
        while i < ids.len()
            invariant
                idv == ids.deep_view(),
                idv == ids_of(self, items.deep_view()),
                first_unresolved(self, items.deep_view(), 0) == items@.len(),
                ids@.len() == items@.len(),
                0 <= i <= ids@.len(),
                first_missing(self, idv, 0) == first_missing(self, idv, i as int),
                tags.deep_view() =~= tags_of(self, idv).take(i as int),
                pos@.len() == i,
                forall|j: int| 0 <= j < i ==> #[trigger] pos@[j] == item_pos(self.data@, idv[j], 0)
                    && pos@[j] < self.data@.len(),
            decreases ids.len() - i,
        {
            let p = find_item(&self.data, &ids[i]);
            if p >= self.data.len() {
                return Err(CookError::UnknownItem(ids[i].clone()));
            }
            proof {
                lemma_item_pos_bounds(self.data@, idv[i as int], 0);
            }
            let ghost old_tags = tags.deep_view();
            tags.push(self.data[p].1.tag());
            assert(tags.deep_view() =~= old_tags.push(tags_of(self, idv)[i as int]));
            pos.push(p);
            i += 1;
        }
        assert(tags_of(self, idv).take(ids@.len() as int) =~= tags_of(self, idv));
        Ok((ids, tags, pos))
    }

    /// Index of the shape that the items (with their tags) resolve to.
    pub(crate) fn match_shape(&self, ids: &Vec<String>, tags: &Vec<String>) -> (r: usize)
        requires
            self.wf(),
            ids@.len() == tags@.len(),
        ensures
            r == match_index(self, ids.deep_view(), tags.deep_view()),
            r < self.recipes@.len(),
    {
        let mut i: usize = self.split;
        while i < self.recipes.len()
            invariant
                self.wf(),
                ids@.len() == tags@.len(),
                self.split <= i <= self.recipes@.len(),
                strict_hit(self, ids.deep_view(), tags.deep_view(), self.split as int) == strict_hit(
                    self,
                    ids.deep_view(),
                    tags.deep_view(),
                    i as int,
                ),
            decreases self.recipes.len() - i,
        {
            if self.recipes[i].matches(ids, tags, true) {
                return i;
            }
            i += 1;
        }
        let mut j: usize = 0;
        while j < self.split
            invariant
                self.wf(),
                ids@.len() == tags@.len(),
                0 <= j <= self.split,
                strict_hit(self, ids.deep_view(), tags.deep_view(), self.split as int) == self.recipes@.len(),
                relaxed_hit(self, ids.deep_view(), tags.deep_view(), 0) == relaxed_hit(
                    self,
                    ids.deep_view(),
                    tags.deep_view(),
                    j as int,
                ),
            decreases self.split - j,
        {
            if self.recipes[j].matches(ids, tags, false) {
                return j;
            }
            j += 1;
        }
        self.dubious
    }

    /// The metadata of an effect type.
    pub fn get_effect(&self, name: Modifier) -> (r: Result<&Effect, CookError>)
        ensures
            match r {
                Ok(e) => effect_pos(self.effects@, name, 0) < self.effects@.len() && *e
                    == self.effects@[effect_pos(self.effects@, name, 0)],
                Err(e) => effect_pos(self.effects@, name, 0) >= self.effects@.len() && e@
                    == ErrorView::UnknownEffect(name),
            },
    {
        let k = find_effect(&self.effects, name);
        if k >= self.effects.len() {
            return Err(CookError::UnknownEffect(name));
        }
        Ok(&self.effects[k])
    }

    /// The item that a display name resolves to.
    pub fn item(&self, name: &str) -> (r: Result<&Item, CookError>)
        ensures
            ({
                let p = iname_pos(self, name@);
                match r {
                    Ok(it) => p < self.inames@.len() && item_pos(
                        self.data@,
                        self.inames.deep_view()[p].1,
                        0,
                    ) < self.data@.len() && *it == item_of(self, self.inames.deep_view()[p].1),
                    Err(e) => if p >= self.inames@.len() {
                        e@ == ErrorView::UnknownItem(name@)
                    } else {
                        item_pos(self.data@, self.inames.deep_view()[p].1, 0) >= self.data@.len()
                            && e@ == ErrorView::UnknownItem(self.inames.deep_view()[p].1)
                    },
                }
            }),
    {
        let key = name.to_owned();
        let p = find_pair(&self.inames, &key);
        if p >= self.inames.len() {
            return Err(CookError::UnknownItem(key));
        }
        let id = &self.inames[p].1;
        let k = find_item(&self.data, id);
        if k >= self.data.len() {
            return Err(CookError::UnknownItem(id.clone()));
        }
        Ok(&self.data[k].1)
    }

    /// The shape that a list of display names resolves to.
    pub fn find_recipe(&self, items: &Vec<String>) -> (r: Result<RecipeBase, CookError>)
        requires
            self.wf(),
        ensures
            match r {
                Ok(b) => resolve(self, items.deep_view()) is Ok && recipe_same(
                    &b,
                    &self.recipes@[match_index(
                        self,
                        ids_of(self, items.deep_view()),
                        tags_of(self, ids_of(self, items.deep_view())),
                    )],
                ),
                Err(e) => resolve(self, items.deep_view()) == Err::<Seq<Ident>, ErrorView>(e@),
            },
    {
        let sl = items.as_slice();
        proof {
            assert(sl.deep_view() =~= items.deep_view());
        }
        let (ids, tags, _pos) = match self.resolve_items(sl) {
            Ok(t) => t,
            Err(e) => return Err(e),
        };
        proof {
            assert(ids.deep_view().len() == ids@.len());
            assert(tags.deep_view().len() == tags@.len());
        }
        let k = self.match_shape(&ids, &tags);
        Ok(self.recipes[k].snapshot())
    }
}

impl Cook {
    /// The catalog's rules.
    pub open spec fn wf(&self) -> bool {
        &&& self.split <= self.recipes@.len()
        &&& self.dubious < self.recipes@.len()
        &&& self.recipes@[self.dubious as int].name@ == dubious_name()
        &&& forall|i: int| 0 <= i < self.split ==> !is_flat_nonempty(#[trigger] &self.recipes@[i].tags)
        &&& forall|i: int| 0 <= i < self.data@.len() ==> item_ok(#[trigger] &self.data@[i].1)
    }
}

} // verus!
