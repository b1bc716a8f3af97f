use vstd::prelude::*;

verus! {

/// Weapon-style modifiers derived from a dish's final price and healing.
///
/// Each optional or boolean field is gated by one bit of `price`. The fields
/// `long_throw`, `quick_shot` and `surf_master` are scaled values in
/// thousandths.
#[derive(Debug, Clone, Copy, PartialEq, Eq, Structural, Default)]
pub struct WMC {
    pub attack_up: Option<i32>,
    pub durability_up: bool,
    pub critical_hit: bool,
    pub long_throw: Option<i32>,
    pub multi_shot: Option<i32>,
    pub zoom: bool,
    pub quick_shot: Option<i32>,
    pub surf_master: Option<i32>,
    pub shield_guard_up: Option<i32>,
    pub yellow_modifier: bool,
    pub hp: i32,
    pub price: i32,
}

/// Whether bit `k` of `value` (two's complement) is set.
pub open spec fn bit_of(value: i32, k: u32) -> bool {
    value & (1i32 << k) != 0
}

pub open spec fn min_i32(a: i32, b: i32) -> i32 {
    if a < b { a } else { b }
}

/// `Some(v)` when `b` holds.
pub open spec fn gated(b: bool, v: i32) -> Option<i32> {
    if b { Some(v) } else { None }
}

/// The modifiers that a price and a healing value decode to.
pub open spec fn decode(price: i32, hp: i32) -> WMC {
    WMC {
        attack_up: gated(bit_of(price, 0), min_i32(hp, 120)),
        durability_up: bit_of(price, 1),
        critical_hit: bit_of(price, 2),
        long_throw: gated(bit_of(price, 3), min_i32(hp, 120)),
        multi_shot: gated(bit_of(price, 4), min_i32(hp, 10)),
        zoom: bit_of(price, 5),
        quick_shot: gated(bit_of(price, 6), min_i32(hp, 120)),
        surf_master: gated(bit_of(price, 7), min_i32(hp, 120)),
        shield_guard_up: gated(bit_of(price, 8), min_i32(hp, 120)),
        yellow_modifier: bit_of(price, 31),
        hp,
        price,
    }
}

pub fn is_bit_set(value: i32, k: i32) -> (r: bool)
    requires
        0 <= k < 32,
    ensures
        r == bit_of(value, k as u32),
{
    value & (1i32 << (k as u32)) != 0
}

fn gate(b: bool, v: i32) -> (r: Option<i32>)
    ensures
        r == gated(b, v),
{
    if b {
        Some(v)
    } else {
        None
    }
}

impl WMC {
    /// Decodes the modifiers of a dish with final `price` and healing `hp`.
    pub fn new(price: i32, hp: i32) -> (r: Self)
        ensures
            r == decode(price, hp),
    {
        let capped = if hp < 120 { hp } else { 120 };
        let shots = if hp < 10 { hp } else { 10 };
        WMC {
            attack_up: gate(is_bit_set(price, 0), capped),
            durability_up: is_bit_set(price, 1),
            critical_hit: is_bit_set(price, 2),
            long_throw: gate(is_bit_set(price, 3), capped),
            multi_shot: gate(is_bit_set(price, 4), shots),
            zoom: is_bit_set(price, 5),
            quick_shot: gate(is_bit_set(price, 6), capped),
            surf_master: gate(is_bit_set(price, 7), capped),
            shield_guard_up: gate(is_bit_set(price, 8), capped),
            yellow_modifier: is_bit_set(price, 31),
            hp,
            price,
        }
    }
}

/// Whether the field that bit `k` of the price gates is present or set in `w`.
pub open spec fn field_on(w: WMC, k: u32) -> bool {
    if k == 0 {
        w.attack_up is Some
    } else if k == 1 {
        w.durability_up
    } else if k == 2 {
        w.critical_hit
    } else if k == 3 {
        w.long_throw is Some
    } else if k == 4 {
        w.multi_shot is Some
    } else if k == 5 {
        w.zoom
    } else if k == 6 {
        w.quick_shot is Some
    } else if k == 7 {
        w.surf_master is Some
    } else if k == 8 {
        w.shield_guard_up is Some
    } else if k == 31 {
        w.yellow_modifier
    } else {
        false
    }
}

/// The bit positions of the price that gate a field.
pub open spec fn is_gating_bit(k: u32) -> bool {
    k <= 8 || k == 31
}

/// Flipping bit `j` of `p` flips that bit and keeps every other one.
pub proof fn lemma_flip_bit(p: i32, k: u32, j: u32)
    requires
        k < 32,
        j < 32,
    ensures
        bit_of(p ^ (1i32 << k), j) == (bit_of(p, j) != (j == k)),
{
    assert((p ^ (1i32 << k)) & (1i32 << j) != 0 <==> ((p & (1i32 << j) != 0) != (j == k)))
        by (bit_vector)
        requires
            k < 32,
            j < 32,
    ;
}

/// Decoding depends on the price and the healing alone, and flipping one bit
/// of the price toggles exactly the field that the bit gates (none, for a bit
/// that gates no field); every present value stays what it was.
pub proof fn lemma_decode_flip(p: i32, hp: i32, k: u32)
    requires
        k < 32,
    ensures
        decode(p, hp) == decode(p, hp),
        forall|j: u32|
            #![trigger field_on(decode(p ^ (1i32 << k), hp), j)]
            is_gating_bit(j) ==> field_on(decode(p ^ (1i32 << k), hp), j) == (field_on(
                decode(p, hp),
                j,
            ) != (j == k)),
        decode(p ^ (1i32 << k), hp).hp == hp,
        decode(p ^ (1i32 << k), hp).attack_up is Some ==> decode(p ^ (1i32 << k), hp).attack_up
            == Some(min_i32(hp, 120)),
        decode(p ^ (1i32 << k), hp).multi_shot is Some ==> decode(p ^ (1i32 << k), hp).multi_shot
            == Some(min_i32(hp, 10)),
{
    assert forall|j: u32| is_gating_bit(j) implies #[trigger] field_on(
        decode(p ^ (1i32 << k), hp),
        j,
    ) == (field_on(decode(p, hp), j) != (j == k)) by {
        lemma_flip_bit(p, k, j);
    }
}

} // verus!
