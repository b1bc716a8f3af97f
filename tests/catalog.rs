use cooking::{AVec, Cook, CookError, Effect, Item, Modifier, Potency, Recipe, RecipeBase, WMC};

fn s(x: &str) -> String {
    x.to_string()
}

fn strs(xs: &[&str]) -> Vec<String> {
    xs.iter().map(|x| s(x)).collect()
}

fn item(hp: i32, effect: Modifier, potency: i32, tag: &str, sell: i32, buy: i32) -> Item {
    Item {
        hp,
        effect,
        potency,
        time: 0,
        tags: if tag.is_empty() { vec![] } else { vec![s(tag)] },
        name: s(""),
        time_boost: 0,
        hp_boost: 0,
        cook_low_price: false,
        key_item: false,
        roast_item: false,
        sell_price: sell,
        buy_price: buy,
        boost_success_rate: 0,
    }
}

fn shape(name: &str, hb: i32, actors: AVec, tags: AVec) -> RecipeBase {
    RecipeBase { hb, name: s(name), tags, actors, num: 1, id: 0 }
}

fn groups(gs: &[&[&str]]) -> AVec {
    AVec::Two(gs.iter().map(|g| strs(g)).collect())
}

fn flat(xs: &[&str]) -> AVec {
    AVec::One(strs(xs))
}

fn effect(kind: Modifier, base_time: i32) -> Effect {
    Effect { base_time, max: 0, min: 0, ssa: 0, kind, xtype: s("") }
}

fn items() -> Vec<(String, Item)> {
    let mut carrot = item(4, Modifier::ExGutsMaxUp, 4, "CookPlant", 40, 160);
    carrot.roast_item = true;
    let mut apple = item(2, Modifier::NoEffect, 0, "CookFruit", 3, 12);
    apple.time_boost = 10;
    let mut golden = item(2, Modifier::NoEffect, 0, "CookFruit", 3, 12);
    golden.boost_success_rate = 90;
    let mut shroom = item(3, Modifier::NoEffect, 0, "CookMushroom", 3, 12);
    shroom.hp_boost = 2;
    let mut acorn = item(0, Modifier::NoEffect, 0, "CookNut", 2, 8);
    acorn.cook_low_price = true;
    let mut long_herb = item(1, Modifier::NoEffect, 0, "CookPlant", 2, 8);
    long_herb.time = 60000;
    let mut horn = item(0, Modifier::NoEffect, 0, "CookEnemy", 3, 12);
    horn.time = 1800;
    vec![
        (s("Item_Fairy"), item(10, Modifier::NoEffect, 0, "", 2, 10)),
        (s("Animal_Fairy"), item(99, Modifier::NoEffect, 0, "", 2, 10)),
        (s("Item_Extract"), item(0, Modifier::NoEffect, 0, "CookEnemy", 10, 40)),
        (s("Item_PlantGet_J"), item(2, Modifier::Quietness, 3, "CookPlant", 10, 40)),
        (s("Item_Flower_SP"), item(7, Modifier::NoEffect, 0, "CookPlant", 10, 40)),
        (s("Item_RoastCarrot"), carrot),
        (s("Item_Mushroom"), shroom),
        (s("Item_Stamella"), item(1, Modifier::GutsRecover, 5, "CookMushroom", 5, 20)),
        (s("Item_Fruit_A"), apple),
        (s("Item_Fruit_B"), item(2, Modifier::NoEffect, 0, "CookFruit", 3, 12)),
        (s("Item_Fruit_G"), golden),
        (s("Item_Durian"), item(12, Modifier::LifeMaxUp, 4, "CookFruit", 15, 60)),
        (s("Item_Ore_A"), item(0, Modifier::NoEffect, 0, "CookOre", 5, 20)),
        (s("Item_Nut"), acorn),
        (s("Item_Bug"), item(0, Modifier::AttackUp, 3, "CookInsect", 20, 80)),
        (s("Item_Snail"), item(0, Modifier::LifeRecover, 1, "CookInsect", 5, 20)),
        (s("Item_Horn"), horn),
        (s("Item_Pepper"), item(1, Modifier::ResistCold, 1, "CookSpice", 3, 12)),
        (s("Item_Sword_Fake"), item(0, Modifier::NoEffect, 0, "", 1, 1)),
        (s("Item_Long_Herb"), long_herb),
    ]
}

fn names() -> Vec<(String, String)> {
    [
        ("Item_Fairy", "Fairy"),
        ("Animal_Fairy", "Fairy"),
        ("Item_Extract", "Monster Extract"),
        ("Item_PlantGet_J", "Silent Princess"),
        ("Item_Flower_SP", "Silent Princess"),
        ("Item_RoastCarrot", "Roasted Endura Carrot"),
        ("Item_Mushroom", "Hylian Shroom"),
        ("Item_Stamella", "Stamella Shroom"),
        ("Item_Fruit_A", "Apple"),
        ("Item_Fruit_B", "Wildberry"),
        ("Item_Fruit_G", "Golden Apple"),
        ("Item_Durian", "Hearty Durian"),
        ("Item_Ore_A", "Flint"),
        ("Item_Nut", "Acorn"),
        ("Item_Bug", "Bladed Rhino Beetle"),
        ("Item_Snail", "Life Snail"),
        ("Item_Horn", "Bokoblin Horn"),
        ("Item_Pepper", "Spicy Pepper"),
        ("Item_Missing", "Ghost Item"),
        ("Item_Sword_Fake", "Master Sword"),
        ("Item_Long_Herb", "Long Herb"),
    ]
    .iter()
    .map(|(a, b)| (s(a), s(b)))
    .collect()
}

fn effects() -> Vec<Effect> {
    vec![
        effect(Modifier::AttackUp, 50),
        effect(Modifier::Quietness, 90),
        effect(Modifier::ExGutsMaxUp, 0),
        effect(Modifier::GutsRecover, 0),
        effect(Modifier::LifeMaxUp, 0),
        effect(Modifier::LifeRecover, 0),
    ]
}

fn shapes(fruit_first: bool) -> Vec<RecipeBase> {
    let mushroom = shape("Mushroom Skewer", 0, flat(&[]), groups(&[&["CookMushroom"]]));
    let fruit = shape("Fruit Mix", 4, flat(&[]), groups(&[&["CookFruit", "CookPlant"]]));
    let mut v = vec![
        shape("Fairy Tonic", 0, groups(&[&["Item_Fairy"]]), flat(&[])),
        shape(
            "Elixir",
            0,
            groups(&[&["Item_Bug", "Item_Snail"]]),
            groups(&[&["CookEnemy"]]),
        ),
    ];
    if fruit_first {
        v.push(fruit);
        v.push(mushroom);
    } else {
        v.push(mushroom);
        v.push(fruit);
    }
    v.push(shape("Rock-Hard Food", 0, flat(&[]), flat(&["CookOre"])));
    v.push(shape("Dubious Food", 0, flat(&["Item_Nothing"]), flat(&[])));
    v
}

fn catalog_with(fruit_first: bool) -> Cook {
    match Cook::new(names(), items(), vec![], shapes(fruit_first), effects(), 4) {
        Ok(c) => c,
        Err(_) => panic!("catalog refused"),
    }
}

fn catalog() -> Cook {
    catalog_with(false)
}

fn cook(c: &Cook, xs: &[&str]) -> Result<Recipe, CookError> {
    c.cook(&strs(xs))
}

#[test]
fn basic_type() {
    let c = catalog();
    let r = c.find_recipe(&vec!["Fairy".to_string()]);
    assert!(r.is_ok());
    let r = c.cook(&vec!["Fairy".to_string()]);
    assert!(r.is_ok());
}

#[test]
fn test_cook_empty_no_panic() {
    let c = catalog();
    let inputs: &[String] = &[];
    let r = c.cook(inputs);
    assert!(matches!(r, Err(CookError::EmptyInput)));
}

#[test]
fn wmc_meal_with_fairy() {
    let c = catalog();
    let r = cook(
        &c,
        &["Silent Princess", "Fairy", "Fairy", "Fairy", "Roasted Endura Carrot"],
    );
    let r = r.ok().unwrap();
    assert_eq!(r.name, "Fairy Tonic");
    assert_eq!(r.price, 2);
    assert_eq!(r.effect, Modifier::NoEffect);
}

#[test]
fn test_dye() {
    let c = catalog();
    let _ = cook(&c, &["Navy", "Orange", "Brown", "Gray"]);
}

#[test]
fn test_picture() {
    let c = catalog();
    let _ = cook(
        &c,
        &["Fauna Picture", "Enemy Picture", "Material Picture", "Other Picture"],
    );
    let _ = cook(&c, &["Weapon Picture", "Elite Enemy Picture"]);
}

#[test]
fn single_ore_is_rock_hard_food() {
    let c = catalog();
    let r = cook(&c, &["Flint"]).ok().unwrap();
    assert_eq!(r.name, "Rock-Hard Food");
    assert_eq!(r.id, 126);
    assert_eq!(r.hp, 1);
    assert_eq!(r.hp as f32 / 4.0, 0.25);
    assert_eq!(r.price, 2);
    assert_eq!(r.wmc, WMC::new(2, 1));
    let r = cook(&c, &["Flint", "Flint"]).ok().unwrap();
    assert_eq!(r.id, 126);
}

#[test]
fn zero_healing_food_is_dubious() {
    let c = catalog();
    let r = cook(&c, &["Acorn"]).ok().unwrap();
    assert_eq!(r.name, "Dubious Food");
    assert_eq!(r.hp, 4);
    assert_eq!(r.hp as f32 / 4.0, 1.0);
    assert_eq!(r.price, 2);
    assert_eq!(r.id, 5);
}

#[test]
fn five_plain_items_use_generic_shape() {
    let c = catalog();
    let r = cook(&c, &["Apple", "Apple", "Wildberry", "Wildberry", "Acorn"]).ok().unwrap();
    assert_eq!(r.name, "Fruit Mix");
    assert_eq!(r.id, 3);
    assert_eq!(r.hp, 20);
    assert_eq!(r.time, 20);
    assert_eq!(r.price, 40);
    assert!(r.price >= 2 && r.price <= 49);
    assert!(r.time <= 1800);
    assert_eq!(r.hp_crit, 32);
    assert_eq!(r.time_crit, 320);
    assert_eq!(r.level, 1);
    assert_eq!(r.level_crit, 2);
    assert_eq!(r.effect_level_name, Potency::Low);
    assert_eq!(r.crit_rate, 15);
    assert!(!r.monster_rng);
    assert_eq!(r.items, strs(&["Apple", "Apple", "Wildberry", "Wildberry", "Acorn"]));
}

#[test]
fn empty_list_is_refused() {
    let c = catalog();
    assert!(matches!(cook(&c, &[]), Err(CookError::EmptyInput)));
}

#[test]
fn unknown_name_is_refused() {
    let c = catalog();
    match cook(&c, &["not-a-real-item"]) {
        Err(CookError::UnknownItem(n)) => assert_eq!(n, "not-a-real-item"),
        _ => panic!("expected an unknown item"),
    }
    match cook(&c, &["Ghost Item"]) {
        Err(CookError::UnknownItem(n)) => assert_eq!(n, "Ghost Item"),
        _ => panic!("expected an unknown item"),
    }
    match cook(&c, &["Master Sword"]) {
        Err(CookError::UnknownItem(n)) => assert_eq!(n, "Item_Sword_080"),
        _ => panic!("expected an unknown item"),
    }
}

#[test]
fn cooking_twice_gives_the_same_dish() {
    let c = catalog();
    let a = cook(&c, &["Bladed Rhino Beetle", "Bokoblin Horn"]).ok().unwrap();
    let b = cook(&c, &["Bladed Rhino Beetle", "Bokoblin Horn"]).ok().unwrap();
    assert_eq!(a.name, b.name);
    assert_eq!(a.hp, b.hp);
    assert_eq!(a.time, b.time);
    assert_eq!(a.price, b.price);
    assert_eq!(a.wmc, b.wmc);
    assert_eq!(a.crit_rate, b.crit_rate);
}

#[test]
fn ingredient_order_does_not_change_the_shape() {
    let c = catalog();
    let orders: [&[&str]; 3] = [
        &["Apple", "Hylian Shroom", "Wildberry"],
        &["Wildberry", "Apple", "Hylian Shroom"],
        &["Hylian Shroom", "Wildberry", "Apple"],
    ];
    for o in orders {
        let r = c.find_recipe(&strs(o)).ok().unwrap();
        assert_eq!(r.name, "Mushroom Skewer");
    }
}

#[test]
fn catalog_order_decides_between_shapes() {
    let a = catalog_with(false);
    let b = catalog_with(true);
    let x = strs(&["Hylian Shroom", "Apple"]);
    assert_eq!(a.find_recipe(&x).ok().unwrap().name, "Mushroom Skewer");
    assert_eq!(b.find_recipe(&x).ok().unwrap().name, "Fruit Mix");
}

#[test]
fn elixir_takes_the_effect_name() {
    let c = catalog();
    let r = cook(&c, &["Bladed Rhino Beetle", "Bokoblin Horn"]).ok().unwrap();
    assert_eq!(r.name, "Mighty Elixir");
    assert_eq!(r.effect, Modifier::AttackUp);
    assert_eq!(r.time, 110);
    assert_eq!(r.time_crit, 410);
    assert_eq!(r.potency, 3);
    assert_eq!(r.level, 1);
    assert_eq!(r.level_crit, 2);
    assert_eq!(r.hp, 0);
    assert_eq!(r.hp_crit, 12);
    assert_eq!(r.price, 50);
    assert_eq!(r.crit_rate, 10);
}

#[test]
fn elixir_without_name_is_an_error() {
    let c = catalog();
    assert!(matches!(
        cook(&c, &["Life Snail", "Bokoblin Horn"]),
        Err(CookError::UnknownEffect(Modifier::LifeRecover))
    ));
}

#[test]
fn effect_without_metadata_is_an_error() {
    let c = catalog();
    assert!(matches!(
        cook(&c, &["Spicy Pepper"]),
        Err(CookError::UnknownEffect(Modifier::ResistCold))
    ));
}

#[test]
fn fairy_tonic_with_monster_extract_takes_crit_healing() {
    let c = catalog();
    let r = cook(&c, &["Fairy", "Monster Extract"]).ok().unwrap();
    assert_eq!(r.name, "Fairy Tonic");
    assert_eq!(r.hp, 32);
    assert_eq!(r.hp_crit, 32);
    assert_eq!(r.price, 2);
    assert!(r.monster_rng);
    assert_eq!(r.wmc, WMC::new(2, 32));
    assert!(r.wmc.durability_up);
}

#[test]
fn stamina_from_guts_recover() {
    let c = catalog();
    let r = cook(&c, &["Stamella Shroom"]).ok().unwrap();
    assert_eq!(r.name, "Mushroom Skewer");
    assert_eq!(r.effect, Modifier::GutsRecover);
    assert_eq!(r.stamina, 14);
    assert_eq!(r.stamina_crit, 18);
    assert_eq!(r.stamina_extra, 0);
}

#[test]
fn extra_stamina_from_ex_guts() {
    let c = catalog();
    let r = cook(&c, &["Roasted Endura Carrot"]).ok().unwrap();
    assert_eq!(r.name, "Fruit Mix");
    assert_eq!(r.effect, Modifier::ExGutsMaxUp);
    assert_eq!(r.time, 30);
    assert_eq!(r.stamina_extra, 20);
    assert_eq!(r.stamina_extra_crit, 20);
    assert_eq!(r.stamina, 0);
}

#[test]
fn life_max_up_zeroes_healing() {
    let c = catalog();
    let r = cook(&c, &["Hearty Durian"]).ok().unwrap();
    assert_eq!(r.effect, Modifier::LifeMaxUp);
    assert_eq!(r.hp, 0);
    assert_eq!(r.hp_crit, 40);
    assert_eq!(r.level, 1);
    assert_eq!(r.level_crit, 2);
    assert_eq!(r.price, 30);
    assert_eq!(r.wmc, WMC::new(30, 0));
}

#[test]
fn mixed_effects_cancel() {
    let c = catalog();
    let r = cook(&c, &["Silent Princess", "Roasted Endura Carrot"]).ok().unwrap();
    assert_eq!(r.effect, Modifier::NoEffect);
    assert_eq!(r.stamina_extra, 0);
}

#[test]
fn crit_rate_is_capped() {
    let c = catalog();
    assert_eq!(cook(&c, &["Golden Apple"]).ok().unwrap().crit_rate, 95);
    assert_eq!(cook(&c, &["Golden Apple", "Apple"]).ok().unwrap().crit_rate, 100);
}

#[test]
fn healing_boost_counts_distinct_items_once() {
    let c = catalog();
    let r = cook(&c, &["Hylian Shroom", "Hylian Shroom"]).ok().unwrap();
    assert_eq!(r.name, "Mushroom Skewer");
    assert_eq!(r.hp, 14);
}

#[test]
fn resolver_keeps_plain_ids_and_preferences() {
    let c = catalog();
    assert_eq!(c.item("Fairy").ok().unwrap().hp, 10);
    assert_eq!(c.item("Silent Princess").ok().unwrap().hp, 2);
    assert_eq!(
        c.item_names(&strs(&["Fairy", "Silent Princess"])).ok().unwrap(),
        strs(&["Item_Fairy", "Item_PlantGet_J"])
    );
    assert!(matches!(c.item("Nope"), Err(CookError::UnknownItem(_))));
}

#[test]
fn effect_metadata_lookup() {
    let c = catalog();
    assert_eq!(c.get_effect(Modifier::AttackUp).ok().unwrap().base_time, 50);
    assert!(matches!(
        c.get_effect(Modifier::Fireproof),
        Err(CookError::UnknownEffect(Modifier::Fireproof))
    ));
}

#[test]
fn catalog_refuses_bad_entries() {
    let mut bad = items();
    bad[0].1.tags = strs(&["CookA", "CookB"]);
    match Cook::new(names(), bad, vec![], shapes(false), effects(), 4) {
        Err(CookError::Invalid(n)) => assert_eq!(n, "Item_Fairy"),
        _ => panic!("expected an invalid item"),
    }
    let mut neg = items();
    neg[2].1.sell_price = -1;
    match Cook::new(names(), neg, vec![], shapes(false), effects(), 4) {
        Err(CookError::Invalid(n)) => assert_eq!(n, "Item_Extract"),
        _ => panic!("expected an invalid item"),
    }
    let mut flat_tags = shapes(false);
    flat_tags[1].tags = flat(&["CookEnemy"]);
    match Cook::new(names(), items(), vec![], flat_tags, effects(), 4) {
        Err(CookError::Invalid(n)) => assert_eq!(n, "Elixir"),
        _ => panic!("expected an invalid shape"),
    }
    let mut no_fallback = shapes(false);
    no_fallback.pop();
    assert!(matches!(
        Cook::new(names(), items(), vec![], no_fallback, effects(), 4),
        Err(CookError::NotFound)
    ));
}

#[test]
fn shapes_are_numbered_by_position() {
    let c = catalog();
    for (i, r) in c.recipes.iter().enumerate() {
        assert_eq!(r.id, i as i32);
    }
    assert_eq!(c.dubious, 5);
}

#[test]
fn potency_tiers_follow_thresholds() {
    let c = catalog();
    let r = cook(&c, &["Silent Princess", "Silent Princess"]).ok().unwrap();
    assert_eq!(r.effect, Modifier::Quietness);
    assert_eq!(r.potency, 6);
    assert_eq!(r.effect_level_name, Potency::Mid);
    assert_eq!(r.level, 2);
    assert_eq!(r.level_crit, 3);
    assert_eq!(r.time, 180);
    assert_eq!(r.price, 40);
    let r = cook(&c, &["Silent Princess", "Silent Princess", "Silent Princess"]).ok().unwrap();
    assert_eq!(r.effect_level_name, Potency::High);
    assert_eq!(r.level, 3);
    assert_eq!(r.level_crit, 3);
    assert_eq!(r.time, 270);
    assert_eq!(r.price, 70);
}

#[test]
fn duration_is_capped() {
    let c = catalog();
    let r = cook(&c, &["Long Herb"]).ok().unwrap();
    assert_eq!(r.name, "Fruit Mix");
    assert_eq!(r.time, 1800);
    assert_eq!(r.time_crit, 1800);
    assert_eq!(r.hp, 6);
    assert_eq!(r.price, 8);
}

#[test]
fn shape_matching_modes() {
    let ore = shape("Rock-Hard Food", 0, flat(&[]), flat(&["CookOre"]));
    let one = strs(&["Item_Ore_A", "Item_Ore_A"]);
    let one_tags = strs(&["CookOre", "CookOre"]);
    assert!(ore.matches(&one, &one_tags, true));
    let two = strs(&["Item_Ore_A", "Item_Ore_B"]);
    let two_tags = strs(&["CookOre", "CookOre"]);
    assert!(!ore.matches(&two, &two_tags, true));
    let left = strs(&["Item_Ore_A", "Item_Fruit_A"]);
    let left_tags = strs(&["CookOre", "CookFruit"]);
    assert!(!ore.matches(&left, &left_tags, true));

    let elixir = shape("Elixir", 0, groups(&[&["Item_Bug"]]), groups(&[&["CookEnemy"]]));
    let xs = strs(&["Item_Bug", "Item_Horn", "Item_Bug", "Item_Fruit_A"]);
    let ts = strs(&["CookInsect", "CookEnemy", "CookInsect", "CookFruit"]);
    assert!(elixir.matches(&xs, &ts, false));
    let (rest, rest_tags) = elixir.matches_actors(xs.clone(), ts.clone(), false).unwrap();
    assert_eq!(rest, strs(&["Item_Horn", "Item_Fruit_A"]));
    assert_eq!(rest_tags, strs(&["CookEnemy", "CookFruit"]));
    assert_eq!(elixir.matches_tags(rest, rest_tags, false), Some(strs(&["Item_Fruit_A"])));
    let no_part = strs(&["Item_Bug", "Item_Fruit_A"]);
    let no_part_tags = strs(&["CookInsect", "CookFruit"]);
    assert!(!elixir.matches(&no_part, &no_part_tags, false));
}

#[test]
fn find_recipe_reports_unknown_names() {
    let c = catalog();
    assert!(matches!(
        c.find_recipe(&strs(&["Apple", "Mystery"])),
        Err(CookError::UnknownItem(n)) if n == "Mystery"
    ));
    let r = c.find_recipe(&strs(&["Flint"])).ok().unwrap();
    assert_eq!(r.name, "Rock-Hard Food");
    assert_eq!(r.id, 4);
}
