//! The cooked dish and the rules that compute it from the matched shape and
//! the ingredients' stats.
use vstd::prelude::*;
use crate::cook::{
    Cook, Item, Effect, ErrorView, effect_pos, resolve, item_of, tags_of, match_index, dubious_name,
    rock_hard_name, fairy_tonic_name, elixir_name, monster_extract_name,
};
use crate::modifier::{Modifier, Potency, elixir_of, potency_level, threshold_of};
use crate::recipe::{RecipeBase, av_groups};
use crate::cook::{CookError, STAT_LIMIT, item_ok, item_pos, ids_of};
use crate::strs::{Ident, dedup, contains, lemma_dedup, clone_strs};
use crate::wmc::{WMC, decode};

verus! {

/// A cooked dish.
///
/// Healing `hp` is in quarter hearts (a heart is 4), so the dish restores
/// `hp / 4` hearts. Stamina values are in tenths of a wheel.
#[derive(Debug, Clone)]
pub struct Recipe {
    pub name: String,
    pub id: i32,
    pub actors: Vec<Vec<String>>,
    pub tags: Vec<Vec<String>>,
    pub items: Vec<String>,
    pub hp: i32,
    pub time: i32,
    pub potency: i32,
    pub effect_level_name: Potency,
    pub level: i32,
    pub effect: Modifier,
    pub price: i32,
    pub hp_crit: i32,
    pub time_crit: i32,
    pub level_crit: i32,
    pub crit_rate: i32,
    pub monster_rng: bool,
    pub stamina: i32,
    pub stamina_crit: i32,
    pub stamina_extra: i32,
    pub stamina_extra_crit: i32,
    pub wmc: WMC,
}

/// The value of a cooked dish.
pub struct DishView {
    pub name: Seq<char>,
    pub id: int,
    pub actors: Seq<Seq<Ident>>,
    pub tags: Seq<Seq<Ident>>,
    pub items: Seq<Ident>,
    pub hp: int,
    pub time: int,
    pub potency: int,
    pub effect_level_name: Potency,
    pub level: int,
    pub effect: Modifier,
    pub price: int,
    pub hp_crit: int,
    pub time_crit: int,
    pub level_crit: int,
    pub crit_rate: int,
    pub monster_rng: bool,
    pub stamina: int,
    pub stamina_crit: int,
    pub stamina_extra: int,
    pub stamina_extra_crit: int,
    pub wmc: WMC,
}

impl View for Recipe {
    type V = DishView;

    open spec fn view(&self) -> DishView {
        DishView {
            name: self.name@,
            id: self.id as int,
            actors: self.actors.deep_view(),
            tags: self.tags.deep_view(),
            items: self.items.deep_view(),
            hp: self.hp as int,
            time: self.time as int,
            potency: self.potency as int,
            effect_level_name: self.effect_level_name,
            level: self.level as int,
            effect: self.effect,
            price: self.price as int,
            hp_crit: self.hp_crit as int,
            time_crit: self.time_crit as int,
            level_crit: self.level_crit as int,
            crit_rate: self.crit_rate as int,
            monster_rng: self.monster_rng,
            stamina: self.stamina as int,
            stamina_crit: self.stamina_crit as int,
            stamina_extra: self.stamina_extra as int,
            stamina_extra_crit: self.stamina_extra_crit as int,
            wmc: self.wmc,
        }
    }
}

pub open spec fn min_int(a: int, b: int) -> int {
    if a < b { a } else { b }
}

pub open spec fn max_int(a: int, b: int) -> int {
    if a > b { a } else { b }
}

/// `x` clamped to `[lo, hi]`.
pub open spec fn clamp(x: int, lo: int, hi: int) -> int {
    max_int(lo, min_int(x, hi))
}

/// The items of the catalog with these ids, in order.
pub open spec fn items_seq(c: &Cook, ids: Seq<Ident>) -> Seq<Item> {
    Seq::new(ids.len(), |i: int| item_of(c, ids[i]))
}

/// Sum of the items' base healing.
pub open spec fn hp_sum(s: Seq<Item>) -> int
    decreases s.len(),
{
    if s.len() == 0 {
        0
    } else {
        hp_sum(s.drop_last()) + s.last().hp
    }
}

/// Sum of the potency of the items that carry an effect.
pub open spec fn potency_sum(s: Seq<Item>) -> int
    decreases s.len(),
{
    if s.len() == 0 {
        0
    } else {
        potency_sum(s.drop_last()) + if s.last().effect != Modifier::NoEffect {
            s.last().potency as int
        } else {
            0
        }
    }
}

/// Base duration of an effect type, from the catalog's metadata.
pub open spec fn base_time(effects: Seq<Effect>, m: Modifier) -> int {
    effects[effect_pos(effects, m, 0)].base_time as int
}

/// The duration one item contributes.
pub open spec fn time_term(effects: Seq<Effect>, it: Item) -> int {
    (if it.effect != Modifier::NoEffect {
        base_time(effects, it.effect)
    } else {
        0
    }) + if it.roast_item {
        30
    } else {
        it.time / 30
    }
}

pub open spec fn time_sum(effects: Seq<Effect>, s: Seq<Item>) -> int
    decreases s.len(),
{
    if s.len() == 0 {
        0
    } else {
        time_sum(effects, s.drop_last()) + time_term(effects, s.last())
    }
}

/// Sum of sell prices, a low-price item counting 1.
pub open spec fn sell_sum(s: Seq<Item>) -> int
    decreases s.len(),
{
    if s.len() == 0 {
        0
    } else {
        sell_sum(s.drop_last()) + if s.last().cook_low_price {
            1
        } else {
            s.last().sell_price as int
        }
    }
}

/// Sum of buy prices, a low-price item counting 1.
pub open spec fn buy_sum(s: Seq<Item>) -> int
    decreases s.len(),
{
    if s.len() == 0 {
        0
    } else {
        buy_sum(s.drop_last()) + if s.last().cook_low_price {
            1
        } else {
            s.last().buy_price as int
        }
    }
}

/// Sum of duration boosts over every occurrence.
pub open spec fn time_boost_sum(s: Seq<Item>) -> int
    decreases s.len(),
{
    if s.len() == 0 {
        0
    } else {
        time_boost_sum(s.drop_last()) + s.last().time_boost
    }
}

/// Sum of healing boosts over the first occurrence of each distinct name.
pub open spec fn hp_boost_sum(names: Seq<Ident>, s: Seq<Item>) -> int
    decreases s.len(),
{
    if s.len() == 0 {
        0
    } else {
        let n = s.len() - 1;
        hp_boost_sum(names.take(n), s.drop_last()) + if names.take(n).contains(names[n]) {
            0
        } else {
            s[n].hp_boost as int
        }
    }
}

/// The largest boost success rate (0 for no items).
pub open spec fn max_rate(s: Seq<Item>) -> int
    decreases s.len(),
{
    if s.len() == 0 {
        0
    } else {
        max_int(max_rate(s.drop_last()), s.last().boost_success_rate as int)
    }
}

/// The effects of the items that carry one, in order.
pub open spec fn effect_list(s: Seq<Item>) -> Seq<Modifier>
    decreases s.len(),
{
    if s.len() == 0 {
        Seq::empty()
    } else if s.last().effect != Modifier::NoEffect {
        effect_list(s.drop_last()).push(s.last().effect)
    } else {
        effect_list(s.drop_last())
    }
}

/// `s` with repeats after the first occurrence left out.
pub open spec fn dedup_mods(s: Seq<Modifier>) -> Seq<Modifier>
    decreases s.len(),
{
    if s.len() == 0 {
        Seq::empty()
    } else {
        let d = dedup_mods(s.drop_last());
        if d.contains(s.last()) {
            d
        } else {
            d.push(s.last())
        }
    }
}

/// The one effect type that the items carry, or none if they carry zero or several.
pub open spec fn dominant(s: Seq<Item>) -> Modifier {
    let d = dedup_mods(effect_list(s));
    if d.len() == 1 {
        d[0]
    } else {
        Modifier::NoEffect
    }
}

/// Price multiplier, in tenths, by ingredient count.
pub open spec fn price_scale(n: int) -> int {
    if n == 1 {
        15
    } else if n == 2 {
        18
    } else if n == 3 {
        21
    } else if n == 4 {
        24
    } else if n == 5 {
        28
    } else {
        0
    }
}

/// Critical-success bonus by number of distinct ingredients.
pub open spec fn crit_bonus(d: int) -> int {
    if d == 1 {
        5
    } else if d == 2 {
        10
    } else if d == 3 {
        15
    } else if d == 4 {
        20
    } else {
        25
    }
}

/// Sale price of `n` ingredients with sell sum `sell` and buy sum `buy`:
/// the scaled sum, floored, rounded up to a multiple of ten, capped at `buy`
/// and at least 2.
pub open spec fn sale_price(n: int, sell: int, buy: int) -> int {
    let f = (sell * price_scale(n)) / 10;
    let p = ((f + 9) / 10) * 10;
    max_int(2, min_int(p, buy))
}

/// The potency tier reached by `potency` under an effect's thresholds.
pub open spec fn tier(m: Modifier, potency: int) -> Potency {
    if potency >= threshold_of(m).1 {
        Potency::High
    } else if potency >= threshold_of(m).0 {
        Potency::Mid
    } else {
        Potency::Low
    }
}

/// Stamina restored, in tenths, by potency (capped at the table's end).
pub open spec fn guts_of(potency: int) -> int {
    let t = seq![0int, 2, 4, 8, 10, 14, 16, 18, 22, 24, 28, 30];
    t[min_int(max_int(potency, 0), 11)]
}

/// The (threshold, value) steps of extra stamina, value in tenths.
pub open spec fn ex_guts_steps() -> Seq<(int, int)> {
    seq![(0int, 0int), (1, 2), (4, 4), (6, 6), (8, 8), (10, 10), (12, 12), (14, 14), (16, 16), (18, 18), (20, 20)]
}

/// Value of the last of the first `n` steps whose threshold is at most `q` (0 if none).
pub open spec fn step_value(steps: Seq<(int, int)>, q: int, n: int) -> int
    decreases n,
{
    if n <= 0 {
        0
    } else if steps[n - 1].0 <= q {
        steps[n - 1].1
    } else {
        step_value(steps, q, n - 1)
    }
}

/// Extra stamina, in tenths: the last step whose threshold is at most `max(potency, 20)`.
pub open spec fn ex_guts_of(potency: int) -> int {
    step_value(ex_guts_steps(), max_int(potency, 20), 11)
}

/// The dish of a shape whose name is "Rock-Hard Food".
pub open spec fn rock_hard_dish(names: Seq<Ident>, r: &RecipeBase) -> DishView {
    DishView {
        name: rock_hard_name(),
        id: if dedup(names).len() == 1 { 126 } else { 3 },
        actors: av_groups(&r.actors),
        tags: av_groups(&r.tags),
        items: names,
        hp: 1,
        time: 0,
        potency: 0,
        effect_level_name: Potency::Low,
        level: 1,
        effect: Modifier::NoEffect,
        price: 2,
        hp_crit: 1,
        time_crit: 0,
        level_crit: 0,
        crit_rate: 0,
        monster_rng: false,
        stamina: 0,
        stamina_crit: 0,
        stamina_extra: 0,
        stamina_extra_crit: 0,
        wmc: decode(2, 1),
    }
}

/// Healing of a dubious dish: the raw sum, at least 4 and at most 120.
pub open spec fn dubious_hp(raw: int) -> int {
    clamp(raw, 4, 120)
}

/// The dish of the fallback shape.
pub open spec fn dubious_dish(names: Seq<Ident>, r: &RecipeBase, raw: int) -> DishView {
    DishView {
        name: dubious_name(),
        id: r.id as int,
        actors: av_groups(&r.actors),
        tags: av_groups(&r.tags),
        items: names,
        hp: dubious_hp(raw),
        time: 0,
        potency: 0,
        effect_level_name: Potency::Low,
        level: 1,
        effect: Modifier::NoEffect,
        price: 2,
        hp_crit: dubious_hp(raw),
        time_crit: 0,
        level_crit: 0,
        crit_rate: 0,
        monster_rng: false,
        stamina: 0,
        stamina_crit: 0,
        stamina_extra: 0,
        stamina_extra_crit: 0,
        wmc: decode(2, dubious_hp(raw) as i32),
    }
}

/// The dish of any other shape; an elixir whose effect has no elixir name is
/// an error.
pub open spec fn regular_dish(c: &Cook, names: Seq<Ident>, s: Seq<Item>, r: &RecipeBase) -> Result<
    DishView,
    ErrorView,
> {
    let eff0 = dominant(s);
    let pot = potency_sum(s);
    let t = tier(eff0, pot);
    let level = potency_level(t) as int;
    let fairy = r.name@ == fairy_tonic_name();
    let effect = if fairy {
        Modifier::NoEffect
    } else {
        eff0
    };
    let price = if fairy {
        2
    } else {
        sale_price(names.len() as int, sell_sum(s), buy_sum(s))
    };
    let hp = clamp(2 * hp_sum(s) + hp_boost_sum(names, s) + r.hb, 0, 120);
    let time = clamp(time_sum(c.effects@, s) + time_boost_sum(s), 0, 1800);
    let hp_crit = hp + 12;
    let life = effect == Modifier::LifeMaxUp;
    let elixir = r.name@ == elixir_name() && effect != Modifier::NoEffect;
    let name = if elixir {
        elixir_of(effect)
    } else {
        r.name@
    };
    let monster = names.contains(monster_extract_name());
    let hp_final = if life {
        0
    } else if name == fairy_tonic_name() && monster {
        min_int(hp_crit, 120)
    } else {
        hp
    };
    let guts = effect == Modifier::GutsRecover;
    let ex_guts = effect == Modifier::ExGutsMaxUp;
    if elixir && elixir_of(effect).len() == 0 {
        Err(ErrorView::UnknownEffect(effect))
    } else {
        Ok(
            DishView {
                name,
                id: r.id as int,
                actors: av_groups(&r.actors),
                tags: av_groups(&r.tags),
                items: names,
                hp: hp_final,
                time,
                potency: pot,
                effect_level_name: t,
                level: if life {
                    pot / 4
                } else {
                    level
                },
                effect,
                price,
                hp_crit,
                time_crit: min_int(time + 300, 1800),
                level_crit: if life {
                    pot / 4 + 1
                } else {
                    min_int(level + 1, 3)
                },
                crit_rate: min_int(100, max_rate(s) + crit_bonus(dedup(names).len() as int)),
                monster_rng: monster,
                stamina: if guts {
                    guts_of(pot)
                } else {
                    0
                },
                stamina_crit: if guts {
                    min_int(guts_of(pot) + 4, 30)
                } else {
                    0
                },
                stamina_extra: if ex_guts {
                    ex_guts_of(pot)
                } else {
                    0
                },
                stamina_extra_crit: if ex_guts {
                    min_int(ex_guts_of(pot) + 4, 20)
                } else {
                    0
                },
                wmc: decode(price as i32, hp_final as i32),
            },
        )
    }
}

/// First position at or after `i` of an item whose effect has no metadata, or `s.len()`.
pub open spec fn first_unknown_effect(effects: Seq<Effect>, s: Seq<Item>, i: int) -> int
    decreases s.len() - i,
{
    if i < 0 || i >= s.len() {
        s.len() as int
    } else if s[i].effect != Modifier::NoEffect && effect_pos(effects, s[i].effect, 0)
        >= effects.len() {
        i
    } else {
        first_unknown_effect(effects, s, i + 1)
    }
}

/// What cooking the ingredients with these display names gives.
pub open spec fn cook_spec(c: &Cook, names: Seq<Ident>) -> Result<DishView, ErrorView> {
    if names.len() == 0 {
        Err(ErrorView::EmptyInput)
    } else {
        match resolve(c, names) {
            Err(e) => Err(e),
            Ok(ids) => {
                let s = items_seq(c, ids);
                let u = first_unknown_effect(c.effects@, s, 0);
                if u < s.len() {
                    Err(ErrorView::UnknownEffect(s[u].effect))
                } else {
                    let r = c.recipes@[match_index(c, ids, tags_of(c, ids))];
                    if r.name@ == rock_hard_name() {
                        Ok(rock_hard_dish(names, &r))
                    } else if r.name@ == dubious_name() {
                        Ok(dubious_dish(names, &r, hp_sum(s)))
                    } else {
                        regular_dish(c, names, s, &r)
                    }
                }
            },
        }
    }
}

/// The view of a cooking outcome.
pub open spec fn outcome(r: Result<Recipe, crate::cook::CookError>) -> Result<DishView, ErrorView> {
    match r {
        Ok(d) => Ok(d@),
        Err(e) => Err(e@),
    }
}

/// The distinct effect types of `items`, in order of first occurrence.
pub fn unique_mod(items: &[Modifier]) -> (r: Vec<Modifier>)
    ensures
        r@ == dedup_mods(items@),
{
    let mut r: Vec<Modifier> = Vec::new();
    let mut i: usize = 0;
    while i < items.len()
        invariant
            0 <= i <= items@.len(),
            r@ == dedup_mods(items@.take(i as int)),
        decreases items.len() - i,
    {
        assert(items@.take(i + 1).drop_last() =~= items@.take(i as int));
        let mut seen = false;
        let mut j: usize = 0;
        while j < r.len()
            invariant
                0 <= i < items@.len(),
                0 <= j <= r@.len(),
                seen == exists|m: int| 0 <= m < j && r@[m] == items@[i as int],
            decreases r.len() - j,
        {
            if r[j] == items[i] {
                seen = true;
            }
            j += 1;
        }
        assert(seen == r@.contains(items@[i as int]));
        if !seen {
            r.push(items[i]);
        }
        i += 1;
    }
    assert(items@.take(items@.len() as int) =~= items@);
    r
}

fn price_scale_of(n: usize) -> (r: i64)
    ensures
        r == price_scale(n as int),
{
    if n == 1 {
        15
    } else if n == 2 {
        18
    } else if n == 3 {
        21
    } else if n == 4 {
        24
    } else if n == 5 {
        28
    } else {
        0
    }
}

fn crit_bonus_of(d: usize) -> (r: i64)
    ensures
        r == crit_bonus(d as int),
{
    if d == 1 {
        5
    } else if d == 2 {
        10
    } else if d == 3 {
        15
    } else if d == 4 {
        20
    } else {
        25
    }
}

fn guts(potency: i64) -> (r: i32)
    requires
        potency >= 0,
    ensures
        r == guts_of(potency as int),
{
    let t: [i32; 12] = [0, 2, 4, 8, 10, 14, 16, 18, 22, 24, 28, 30];
    let k: usize = if potency > 11 { 11 } else { potency as usize };
    assert(t@ =~= seq![0i32, 2, 4, 8, 10, 14, 16, 18, 22, 24, 28, 30]);
    t[k]
}

fn ex_guts(potency: i64) -> (r: i32)
    ensures
        r == ex_guts_of(potency as int),
{
    let steps: [(i64, i32); 11] = [
        (0, 0),
        (1, 2),
        (4, 4),
        (6, 6),
        (8, 8),
        (10, 10),
        (12, 12),
        (14, 14),
        (16, 16),
        (18, 18),
        (20, 20),
    ];
    assert(steps@ =~= seq![(0i64, 0i32), (1, 2), (4, 4), (6, 6), (8, 8), (10, 10), (12, 12), (14, 14), (16, 16), (18, 18), (20, 20)]);
    let q: i64 = if potency > 20 { potency } else { 20 };
    let mut v: i32 = 0;
    let mut i: usize = 0;
    while i < 11
        invariant
            0 <= i <= 11,
            steps@ == seq![(0i64, 0i32), (1, 2), (4, 4), (6, 6), (8, 8), (10, 10), (12, 12), (14, 14), (16, 16), (18, 18), (20, 20)],
            q == max_int(potency as int, 20),
            v == step_value(ex_guts_steps(), q as int, i as int),
        decreases 11 - i,
    {
        if steps[i].0 <= q {
            v = steps[i].1;
        }
        i += 1;
    }
    v
}

fn sale(n: usize, sell: i64, buy: i64) -> (r: i64)
    requires
        0 <= sell <= 1_000_000_000,
        0 <= buy <= 1_000_000_000,
    ensures
        r == sale_price(n as int, sell as int, buy as int),
{
    let f = (sell * price_scale_of(n)) / 10;
    let p = ((f + 9) / 10) * 10;
    let capped = if p < buy { p } else { buy };
    if capped > 2 { capped } else { 2 }
}

/// Bound on the magnitude of a summed duration: five ingredients, each adding
/// at most an effect's base time (an `i32`), a stat-limited time and 30.
pub open spec fn time_bound() -> int {
    5 * 2_247_483_678int
}

/// The raw aggregates of a list of ingredients.
struct Totals {
    hp: i64,
    potency: i64,
    time: i64,
    sell: i64,
    buy: i64,
    time_boost: i64,
    hp_boost: i64,
    rate: i64,
    distinct: usize,
    effects: Vec<Modifier>,
}

/// Folds over the ingredients, whose items stand at `pos` in the catalog.
fn totals(c: &Cook, names: &[String], ids: &Vec<String>, pos: &Vec<usize>) -> (r: Result<Totals, CookError>)
    requires
        c.wf(),
        names@.len() <= 5,
        ids@.len() == names@.len(),
        pos@.len() == names@.len(),
        forall|i: int| 0 <= i < names@.len() ==> #[trigger] pos@[i] == item_pos(c.data@, ids.deep_view()[i], 0)
            && pos@[i] < c.data@.len(),
    ensures
        ({
            let s = items_seq(c, ids.deep_view());
            match r {
                Err(e) => first_unknown_effect(c.effects@, s, 0) < s.len() && e@ == ErrorView::UnknownEffect(
                    s[first_unknown_effect(c.effects@, s, 0)].effect,
                ),
                Ok(t) => {
                    &&& first_unknown_effect(c.effects@, s, 0) == s.len()
                    &&& t.hp == hp_sum(s)
                    &&& t.potency == potency_sum(s)
                    &&& t.time == time_sum(c.effects@, s)
                    &&& t.sell == sell_sum(s)
                    &&& t.buy == buy_sum(s)
                    &&& t.time_boost == time_boost_sum(s)
                    &&& t.hp_boost == hp_boost_sum(names.deep_view(), s)
                    &&& t.rate == max_rate(s)
                    &&& t.distinct == dedup(names.deep_view()).len()
                    &&& t.effects@ == effect_list(s)
                    &&& 0 <= t.hp <= 5 * STAT_LIMIT
                    &&& 0 <= t.potency <= 5 * STAT_LIMIT
                    &&& -time_bound() <= t.time <= time_bound()
                    &&& 0 <= t.sell <= 5 * STAT_LIMIT
                    &&& 0 <= t.buy <= 5 * STAT_LIMIT
                    &&& 0 <= t.time_boost <= 5 * STAT_LIMIT
                    &&& 0 <= t.hp_boost <= 5 * STAT_LIMIT
                    &&& 0 <= t.rate <= STAT_LIMIT
                },
            }
        }),
{
    let ghost s = items_seq(c, ids.deep_view());
    let ghost nv = names.deep_view();
    let n = names.len();
    let mut t = Totals {
        hp: 0,
        potency: 0,
        time: 0,
        sell: 0,
        buy: 0,
        time_boost: 0,
        hp_boost: 0,
        rate: 0,
        distinct: 0,
        effects: Vec::new(),
    };
    let mut seen: Vec<String> = Vec::new();
    let mut i: usize = 0;
    while i < n
        invariant
            c.wf(),
            n == names@.len(),
            n <= 5,
            s == items_seq(c, ids.deep_view()),
            nv == names.deep_view(),
            ids@.len() == n,
            pos@.len() == n,
            forall|k: int| 0 <= k < n ==> #[trigger] pos@[k] == item_pos(c.data@, ids.deep_view()[k], 0)
                && pos@[k] < c.data@.len(),
            0 <= i <= n,
            first_unknown_effect(c.effects@, s, 0) == first_unknown_effect(c.effects@, s, i as int),
            t.hp == hp_sum(s.take(i as int)),
            t.potency == potency_sum(s.take(i as int)),
            t.time == time_sum(c.effects@, s.take(i as int)),
            t.sell == sell_sum(s.take(i as int)),
            t.buy == buy_sum(s.take(i as int)),
            t.time_boost == time_boost_sum(s.take(i as int)),
            t.hp_boost == hp_boost_sum(nv.take(i as int), s.take(i as int)),
            t.rate == max_rate(s.take(i as int)),
            t.effects@ == effect_list(s.take(i as int)),
            seen.deep_view() == dedup(nv.take(i as int)),
            0 <= t.hp <= i * STAT_LIMIT,
            0 <= t.potency <= i * STAT_LIMIT,
            -(i * 2_247_483_678) <= t.time <= i * 2_247_483_678,
            0 <= t.sell <= i * STAT_LIMIT,
            0 <= t.buy <= i * STAT_LIMIT,
            0 <= t.time_boost <= i * STAT_LIMIT,
            0 <= t.hp_boost <= i * STAT_LIMIT,
            0 <= t.rate <= STAT_LIMIT,
        decreases n - i,
    {
        let it = &c.data[pos[i]].1;
        proof {
            assert(item_ok(&c.data@[pos@[i as int] as int].1));
            assert(s[i as int] == *it);
            assert(s.take(i + 1).drop_last() =~= s.take(i as int));
            assert(s.take(i + 1).last() == *it);
            assert(nv.take(i + 1).take(i as int) =~= nv.take(i as int));
            assert(nv.take(i + 1).drop_last() =~= nv.take(i as int));
            assert(nv.take(i + 1)[i as int] == nv[i as int]);
        }
        let has_effect = it.effect != Modifier::NoEffect;
        let mut term: i64 = 0;
        if has_effect {
            let e = crate::cook::find_effect(&c.effects, it.effect);
            if e >= c.effects.len() {
                return Err(CookError::UnknownEffect(it.effect));
            }
            proof {
                crate::cook::lemma_effect_pos_bounds(c.effects@, it.effect, 0);
            }
            term = c.effects[e].base_time as i64;
            t.potency = t.potency + it.potency as i64;
            t.effects.push(it.effect);
        }
        if it.roast_item {
            term = term + 30;
        } else {
            term = term + (it.time / 30) as i64;
        }
        assert(term == time_term(c.effects@, *it));
        assert(-2_247_483_678 <= term <= 2_247_483_678);
        t.time = t.time + term;
        t.hp = t.hp + it.hp as i64;
        if it.cook_low_price {
            t.sell = t.sell + 1;
            t.buy = t.buy + 1;
        } else {
            t.sell = t.sell + it.sell_price as i64;
            t.buy = t.buy + it.buy_price as i64;
        }
        t.time_boost = t.time_boost + it.time_boost as i64;
        if it.boost_success_rate as i64 > t.rate {
            t.rate = it.boost_success_rate as i64;
        }
        proof {
            lemma_dedup(nv.take(i as int));
        }
        if !contains(seen.as_slice(), &names[i]) {
            t.hp_boost = t.hp_boost + it.hp_boost as i64;
            let ghost old_seen = seen.deep_view();
            seen.push(names[i].clone());
            assert(seen.deep_view() =~= old_seen.push(nv[i as int]));
        }
        i += 1;
    }
    proof {
        assert(s.take(n as int) =~= s);
        assert(nv.take(n as int) =~= nv);
        assert(n * STAT_LIMIT <= 5 * STAT_LIMIT) by (nonlinear_arith)
            requires
                n <= 5,
        ;
        assert(n * 2_247_483_678 <= 5 * 2_247_483_678) by (nonlinear_arith)
            requires
                n <= 5,
        ;
    }
    t.distinct = seen.len();
    Ok(t)
}

fn clamp_i64(x: i64, lo: i64, hi: i64) -> (r: i64)
    requires
        lo <= hi,
    ensures
        r == clamp(x as int, lo as int, hi as int),
{
    if x > hi {
        hi
    } else if x < lo {
        lo
    } else {
        x
    }
}

impl Recipe {
    fn rock_hard_food(items: &[String], r: &RecipeBase, distinct: usize) -> (d: Recipe)
        ensures
            distinct == dedup(items.deep_view()).len() ==> d@ == rock_hard_dish(items.deep_view(), r),
    {
        let d = Recipe {
            name: "Rock-Hard Food".to_owned(),
            id: if distinct == 1 { 126 } else { 3 },
            actors: r.actors.vec(),
            tags: r.tags.vec(),
            items: clone_strs(items),
            hp: 1,
            time: 0,
            potency: 0,
            effect_level_name: Potency::Low,
            level: 1,
            effect: Modifier::NoEffect,
            price: 2,
            hp_crit: 1,
            time_crit: 0,
            level_crit: 0,
            crit_rate: 0,
            monster_rng: false,
            stamina: 0,
            stamina_crit: 0,
            stamina_extra: 0,
            stamina_extra_crit: 0,
            wmc: WMC::new(2, 1),
        };
        d
    }

    fn dubious_food(raw_hp: i64, items: &[String], r: &RecipeBase) -> (d: Recipe)
        ensures
            d@ == dubious_dish(items.deep_view(), r, raw_hp as int),
    {
        let hp = clamp_i64(raw_hp, 4, 120) as i32;
        Recipe {
            name: "Dubious Food".to_owned(),
            id: r.id,
            actors: r.actors.vec(),
            tags: r.tags.vec(),
            items: clone_strs(items),
            hp,
            time: 0,
            potency: 0,
            effect_level_name: Potency::Low,
            level: 1,
            effect: Modifier::NoEffect,
            price: 2,
            hp_crit: hp,
            time_crit: 0,
            level_crit: 0,
            crit_rate: 0,
            monster_rng: false,
            stamina: 0,
            stamina_crit: 0,
            stamina_extra: 0,
            stamina_extra_crit: 0,
            wmc: WMC::new(2, hp),
        }
    }
}

/// The dish of a shape that is neither rock-hard nor dubious.
fn regular(c: &Cook, items: &[String], r: &RecipeBase, t: &Totals, Ghost(s): Ghost<Seq<Item>>) -> (res:
    Result<Recipe, CookError>)
    requires
        1 <= items@.len() <= 5,
        s.len() == items@.len(),
        t.hp == hp_sum(s),
        t.potency == potency_sum(s),
        t.time == time_sum(c.effects@, s),
        t.sell == sell_sum(s),
        t.buy == buy_sum(s),
        t.time_boost == time_boost_sum(s),
        t.hp_boost == hp_boost_sum(items.deep_view(), s),
        t.rate == max_rate(s),
        t.distinct == dedup(items.deep_view()).len(),
        t.effects@ == effect_list(s),
        0 <= t.hp <= 5 * STAT_LIMIT,
        0 <= t.potency <= 5 * STAT_LIMIT,
        -time_bound() <= t.time <= time_bound(),
        0 <= t.sell <= 5 * STAT_LIMIT,
        0 <= t.buy <= 5 * STAT_LIMIT,
        0 <= t.time_boost <= 5 * STAT_LIMIT,
        0 <= t.hp_boost <= 5 * STAT_LIMIT,
        0 <= t.rate <= STAT_LIMIT,
    ensures
        outcome(res) == regular_dish(c, items.deep_view(), s, r),
{
    let ghost names = items.deep_view();
    let kinds = unique_mod(t.effects.as_slice());
    let eff0 = if kinds.len() == 1 { kinds[0] } else { Modifier::NoEffect };
    let th = eff0.threshold();
    let (potency_level, effect_level): (Potency, i64) = if t.potency >= th[1] as i64 {
        (Potency::High, 3)
    } else if t.potency >= th[0] as i64 {
        (Potency::Mid, 2)
    } else {
        (Potency::Low, 1)
    };
    let fairy = r.name == "Fairy Tonic".to_owned();
    let effect = if fairy { Modifier::NoEffect } else { eff0 };
    let price: i64 = if fairy { 2 } else { sale(items.len(), t.sell, t.buy) };
    let hp = clamp_i64(2 * t.hp + t.hp_boost + r.hb as i64, 0, 120);
    let time = clamp_i64(t.time + t.time_boost, 0, 1800);
    let time_crit: i64 = if time + 300 < 1800 { time + 300 } else { 1800 };
    let hp_crit = hp + 12;
    let life = effect == Modifier::LifeMaxUp;
    let elixir = r.name == "Elixir".to_owned() && effect != Modifier::NoEffect;
    let name = if elixir {
        let e = effect.elixir();
        if e.is_empty() {
            return Err(CookError::UnknownEffect(effect));
        }
        e.to_owned()
    } else {
        r.name.clone()
    };
    let monster_name = "Monster Extract".to_owned();
    let monster = contains(items, &monster_name);
    let hp_final: i64 = if life {
        0
    } else if name == "Fairy Tonic".to_owned() && monster {
        if hp_crit < 120 { hp_crit } else { 120 }
    } else {
        hp
    };
    let level: i64 = if life { t.potency / 4 } else { effect_level };
    let level_crit: i64 = if life {
        t.potency / 4 + 1
    } else if effect_level + 1 < 3 {
        effect_level + 1
    } else {
        3
    };
    let raw_crit = t.rate + crit_bonus_of(t.distinct);
    let crit_rate: i64 = if raw_crit < 100 { raw_crit } else { 100 };
    let (stamina, stamina_crit): (i32, i32) = if effect == Modifier::GutsRecover {
        let g = guts(t.potency);
        (g, if g + 4 < 30 { g + 4 } else { 30 })
    } else {
        (0, 0)
    };
    let (stamina_extra, stamina_extra_crit): (i32, i32) = if effect == Modifier::ExGutsMaxUp {
        let g = ex_guts(t.potency);
        assert(g <= 20) by {
            reveal_with_fuel(step_value, 12);
        }
        (g, if g + 4 < 20 { g + 4 } else { 20 })
    } else {
        (0, 0)
    };
    Ok(
        Recipe {
            name,
            id: r.id,
            actors: r.actors.vec(),
            tags: r.tags.vec(),
            items: clone_strs(items),
            hp: hp_final as i32,
            time: time as i32,
            potency: t.potency as i32,
            effect_level_name: potency_level,
            level: level as i32,
            effect,
            price: price as i32,
            hp_crit: hp_crit as i32,
            time_crit: time_crit as i32,
            level_crit: level_crit as i32,
            crit_rate: crit_rate as i32,
            monster_rng: monster,
            stamina,
            stamina_crit,
            stamina_extra,
            stamina_extra_crit,
            wmc: WMC::new(price as i32, hp_final as i32),
        },
    )
}

/// Whatever the ingredients, a cooked dish keeps its duration within
/// `[0, 1800]` and its healing within `[0, 120]`; its price is at least 2, and
/// at most the sum of the ingredients' buy prices whenever that sum is at least 2.
pub proof fn lemma_dish_bounds(c: &Cook, names: Seq<Ident>)
    requires
        c.wf(),
    ensures
        match cook_spec(c, names) {
            Ok(d) => {
                &&& 0 <= d.time <= 1800
                &&& 0 <= d.hp <= 120
                &&& 2 <= d.price
                &&& buy_sum(items_seq(c, ids_of(c, names))) >= 2 ==> d.price <= buy_sum(
                    items_seq(c, ids_of(c, names)),
                )
            },
            Err(_) => true,
        },
{
}

/// Cooking has no hidden state: two calls with the same catalog and the same
/// ingredients give the same outcome.
pub proof fn lemma_cook_repeatable(
    c: &Cook,
    names: Seq<Ident>,
    first: Result<Recipe, CookError>,
    second: Result<Recipe, CookError>,
)
    requires
        outcome(first) == cook_spec(c, names),
        outcome(second) == cook_spec(c, names),
    ensures
        outcome(first) == outcome(second),
{
}

impl Cook {
    /// Cooks the ingredients with these display names.
    pub fn cook(&self, items: &[String]) -> (r: Result<Recipe, CookError>)
        requires
            self.wf(),
            items@.len() <= 5,
        ensures
            outcome(r) == cook_spec(self, items.deep_view()),
    {
        if items.len() == 0 {
            return Err(CookError::EmptyInput);
        }
        let (ids, tags, pos) = match self.resolve_items(items) {
            Ok(t) => t,
            Err(e) => return Err(e),
        };
        let ghost s = items_seq(self, ids.deep_view());
        let t = match totals(self, items, &ids, &pos) {
            Ok(t) => t,
            Err(e) => return Err(e),
        };
        proof {
            assert(ids.deep_view().len() == ids@.len());
            assert(tags.deep_view().len() == tags@.len());
        }
        let k = self.match_shape(&ids, &tags);
        let r = &self.recipes[k];
        if r.name == "Rock-Hard Food".to_owned() {
            return Ok(Recipe::rock_hard_food(items, r, t.distinct));
        }
        if r.name == "Dubious Food".to_owned() {
            return Ok(Recipe::dubious_food(t.hp, items, r));
        }
        regular(self, items, r, &t, Ghost(s))
    }
}

} // verus!
