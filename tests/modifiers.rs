use cooking::{inter, is_bit_set, unique, unique_len, unique_mod, Modifier, Potency, WMC};

fn strs(xs: &[&str]) -> Vec<String> {
    xs.iter().map(|x| x.to_string()).collect()
}

#[test]
fn wmc_test() {
    let mut w0 = WMC { ..Default::default() };
    let mut w = WMC::new(0, 0);
    assert!(w == w0);

    w0.attack_up = Some(0);
    w0.price = 1;
    w = WMC::new(1, 0);
    assert!(w == w0, "{w:?}");

    w0.attack_up = None;
    w0.yellow_modifier = true;
    w = WMC::new(-512, 0);
    w0.price = -512;
    assert!(w == w0, "{w:?}");

    w0 = WMC { ..Default::default() };

    // scaled fields are in thousandths: 0.12 is 120
    w0.attack_up = Some(120);
    w0.durability_up = true;
    w0.long_throw = Some(120);
    w0.multi_shot = Some(10);
    w0.surf_master = Some(120);
    w0.price = 155;
    w0.hp = 120;
    w = WMC::new(155, 120);
    assert!(w == w0, "{w:?}");

    w0 = WMC { ..Default::default() };

    w0.attack_up = Some(120);
    w0.multi_shot = Some(10);
    w0.surf_master = Some(120);
    w0.price = 145;
    w0.hp = 120;
    w = WMC::new(w0.price, w0.hp);
    assert!(w == w0, "{w:?}");
}

#[test]
fn decode_scales_and_caps_healing() {
    let w = WMC::new(0x1ff, 250);
    assert_eq!(w.attack_up, Some(120));
    assert_eq!(w.long_throw, Some(120));
    assert_eq!(w.multi_shot, Some(10));
    assert_eq!(w.quick_shot, Some(120));
    assert_eq!(w.surf_master, Some(120));
    assert_eq!(w.shield_guard_up, Some(120));
    assert!(w.durability_up && w.critical_hit && w.zoom);
    assert!(!w.yellow_modifier);
    let w = WMC::new(0x150, 7);
    assert_eq!(w.multi_shot, Some(7));
    assert_eq!(w.quick_shot, Some(7));
    assert_eq!(w.shield_guard_up, Some(7));
    assert_eq!(w.attack_up, None);
}

#[test]
fn flipping_one_price_bit_toggles_one_field() {
    let base = 0b1010_0110i32;
    let w = WMC::new(base, 40);
    assert_eq!(w, WMC::new(base, 40));
    for k in [0u32, 1, 2, 3, 4, 5, 6, 7, 8, 31] {
        let v = WMC::new(base ^ (1i32 << k), 40);
        let fields = |x: &WMC| {
            [
                x.attack_up.is_some(),
                x.durability_up,
                x.critical_hit,
                x.long_throw.is_some(),
                x.multi_shot.is_some(),
                x.zoom,
                x.quick_shot.is_some(),
                x.surf_master.is_some(),
                x.shield_guard_up.is_some(),
                x.yellow_modifier,
            ]
        };
        let a = fields(&w);
        let b = fields(&v);
        let changed: Vec<usize> = (0..10).filter(|&j| a[j] != b[j]).collect();
        let slot = if k == 31 { 9 } else { k as usize };
        assert_eq!(changed, vec![slot]);
    }
    let v = WMC::new(base ^ (1i32 << 12), 40);
    assert_eq!(WMC { price: base, ..v }, w);
}

#[test]
fn bit_tests() {
    assert!(is_bit_set(1, 0));
    assert!(!is_bit_set(1, 1));
    assert!(is_bit_set(-1, 31));
    assert!(!is_bit_set(i32::MAX, 31));
    assert!(is_bit_set(256, 8));
}

#[test]
fn intersections_keep_the_first_list_order() {
    let a = strs(&["c", "a", "b", "a"]);
    let b = strs(&["a", "c"]);
    assert_eq!(inter(&a, &b), strs(&["c", "a", "a"]));
    assert_eq!(inter(&b, &strs(&[])), strs(&[]));
}

#[test]
fn distinct_items() {
    let a = strs(&["x", "y", "x", "z", "y"]);
    assert_eq!(unique(&a), strs(&["x", "y", "z"]));
    assert_eq!(unique_len(&a), 3);
    assert_eq!(unique_len(&strs(&[])), 0);
    assert_eq!(
        unique_mod(&[Modifier::AttackUp, Modifier::AttackUp, Modifier::Quietness]),
        vec![Modifier::AttackUp, Modifier::Quietness]
    );
}

#[test]
fn thresholds_and_elixirs() {
    assert_eq!(Modifier::AttackUp.threshold(), [5, 7]);
    assert_eq!(Modifier::ResistElectric.threshold(), [4, 6]);
    assert_eq!(Modifier::Quietness.threshold(), [6, 9]);
    assert_eq!(Modifier::NoEffect.threshold(), [999, 999]);
    assert_eq!(Modifier::Quietness.elixir(), "Sneaky Elixir");
    assert_eq!(Modifier::ExGutsMaxUp.elixir(), "Enduring Elixir");
    assert_eq!(Modifier::LifeRecover.elixir(), "");
    assert_eq!(Modifier::GutsRecover.name(), "GutsRecover");
}

#[test]
fn potency_levels() {
    assert_eq!(i32::from(Potency::Low), 1);
    assert_eq!(i32::from(Potency::Mid), 2);
    assert_eq!(i32::from(Potency::High), 3);
    assert_eq!(Potency::High.label(), "High");
    assert_eq!(Potency::default(), Potency::Low);
}
