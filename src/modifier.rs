use vstd::prelude::*;

verus! {

/// Strength tier of a dish's effect.
#[derive(Debug, Clone, Copy, PartialEq, Eq, Structural, Default)]
pub enum Potency {
    #[default]
    Low,
    Mid,
    High,
}

/// The numeric level of a tier: 1, 2 or 3.
pub open spec fn potency_level(p: Potency) -> i32 {
    match p {
        Potency::Low => 1,
        Potency::Mid => 2,
        Potency::High => 3,
    }
}

impl From<Potency> for i32 {
    fn from(v: Potency) -> (r: i32)
        ensures
            r == potency_level(v),
    {
        match v {
            Potency::Low => 1,
            Potency::Mid => 2,
            Potency::High => 3,
        }
    }
}

impl vstd::std_specs::convert::FromSpecImpl<Potency> for i32 {
    open spec fn obeys_from_spec() -> bool {
        true
    }

    open spec fn from_spec(v: Potency) -> i32 {
        potency_level(v)
    }
}

impl Potency {
    /// The tier's display label.
    pub fn label(&self) -> (r: &'static str)
        ensures
            r@ == potency_label(*self),
    {
        match self {
            Potency::Low => "Low",
            Potency::Mid => "Mid",
            Potency::High => "High",
        }
    }
}

pub open spec fn potency_label(p: Potency) -> Seq<char> {
    match p {
        Potency::Low => "Low"@,
        Potency::Mid => "Mid"@,
        Potency::High => "High"@,
    }
}

/// The effect type an ingredient or a dish carries.
#[derive(Debug, Clone, Copy, PartialEq, Eq, Structural, Hash, Default)]
pub enum Modifier {
    AttackUp,
    DefenseUp,
    ResistCold,
    ResistHot,
    ResistElectric,
    Fireproof,
    MovingSpeed,
    Quietness,
    LifeMaxUp,
    GutsRecover,
    ExGutsMaxUp,
    LifeRecover,
    #[default]
    NoEffect,
}

/// Potency thresholds `[mid, high]` of an effect type.
pub open spec fn threshold_of(m: Modifier) -> (int, int) {
    match m {
        Modifier::AttackUp => (5, 7),
        Modifier::DefenseUp => (5, 7),
        Modifier::ResistCold => (6, 999),
        Modifier::ResistHot => (6, 999),
        Modifier::ResistElectric => (4, 6),
        Modifier::Fireproof => (7, 999),
        Modifier::MovingSpeed => (5, 7),
        Modifier::Quietness => (6, 9),
        _ => (999, 999),
    }
}

/// Name of the elixir that carries an effect type; empty where there is none.
pub open spec fn elixir_of(m: Modifier) -> Seq<char> {
    match m {
        Modifier::AttackUp => "Mighty Elixir"@,
        Modifier::DefenseUp => "Tough Elixir"@,
        Modifier::ResistCold => "Spicy Elixir"@,
        Modifier::ResistHot => "Chilly Elixir"@,
        Modifier::ResistElectric => "Electro Elixir"@,
        Modifier::Fireproof => "Fireproof Elixir"@,
        Modifier::MovingSpeed => "Hasty Elixir"@,
        Modifier::Quietness => "Sneaky Elixir"@,
        Modifier::ExGutsMaxUp => "Enduring Elixir"@,
        Modifier::GutsRecover => "Energizing Elixir"@,
        Modifier::LifeMaxUp => "Hearty Elixir"@,
        Modifier::LifeRecover => ""@,
        Modifier::NoEffect => ""@,
    }
}

impl Modifier {
    /// Potency at which a dish of this effect reaches the middle and the high tier.
    pub fn threshold(&self) -> (r: [i32; 2])
        ensures
            r[0] as int == threshold_of(*self).0,
            r[1] as int == threshold_of(*self).1,
    {
        match self {
            Modifier::AttackUp => [5, 7],
            Modifier::DefenseUp => [5, 7],
            Modifier::ResistCold => [6, 999],
            Modifier::ResistHot => [6, 999],
            Modifier::ResistElectric => [4, 6],
            Modifier::Fireproof => [7, 999],
            Modifier::MovingSpeed => [5, 7],
            Modifier::Quietness => [6, 9],
            Modifier::LifeMaxUp => [999, 999],
            Modifier::GutsRecover => [999, 999],
            Modifier::ExGutsMaxUp => [999, 999],
            Modifier::LifeRecover => [999, 999],
            Modifier::NoEffect => [999, 999],
        }
    }

    /// Name of the elixir that carries this effect.
    pub fn elixir(&self) -> (r: &'static str)
        ensures
            r@ == elixir_of(*self),
    {
        match self {
            Modifier::AttackUp => "Mighty Elixir",
            Modifier::DefenseUp => "Tough Elixir",
            Modifier::ResistCold => "Spicy Elixir",
            Modifier::ResistHot => "Chilly Elixir",
            Modifier::ResistElectric => "Electro Elixir",
            Modifier::Fireproof => "Fireproof Elixir",
            Modifier::MovingSpeed => "Hasty Elixir",
            Modifier::Quietness => "Sneaky Elixir",
            Modifier::ExGutsMaxUp => "Enduring Elixir",
            Modifier::GutsRecover => "Energizing Elixir",
            Modifier::LifeMaxUp => "Hearty Elixir",
            Modifier::LifeRecover => "",
            Modifier::NoEffect => "",
        }
    }

    /// The effect type's name.
    pub fn name(&self) -> (r: &'static str)
        ensures
            r@ == modifier_name(*self),
    {
        match self {
            Modifier::AttackUp => "AttackUp",
            Modifier::DefenseUp => "DefenseUp",
            Modifier::ResistCold => "ResistCold",
            Modifier::ResistHot => "ResistHot",
            Modifier::ResistElectric => "ResistElectric",
            Modifier::Fireproof => "Fireproof",
            Modifier::MovingSpeed => "MovingSpeed",
            Modifier::Quietness => "Quietness",
            Modifier::ExGutsMaxUp => "ExGutsMaxUp",
            Modifier::GutsRecover => "GutsRecover",
            Modifier::LifeMaxUp => "LifeMaxUp",
            Modifier::LifeRecover => "LifeRecover",
            Modifier::NoEffect => "None",
        }
    }
}

pub open spec fn modifier_name(m: Modifier) -> Seq<char> {
    match m {
        Modifier::AttackUp => "AttackUp"@,
        Modifier::DefenseUp => "DefenseUp"@,
        Modifier::ResistCold => "ResistCold"@,
        Modifier::ResistHot => "ResistHot"@,
        Modifier::ResistElectric => "ResistElectric"@,
        Modifier::Fireproof => "Fireproof"@,
        Modifier::MovingSpeed => "MovingSpeed"@,
        Modifier::Quietness => "Quietness"@,
        Modifier::ExGutsMaxUp => "ExGutsMaxUp"@,
        Modifier::GutsRecover => "GutsRecover"@,
        Modifier::LifeMaxUp => "LifeMaxUp"@,
        Modifier::LifeRecover => "LifeRecover"@,
        Modifier::NoEffect => "None"@,
    }
}

} // verus!
