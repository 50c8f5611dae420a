//! Tables, prices and inventories.

use tradscape::defs::{
    armor_def, armor_defence_bonus, armor_value, buy_price, fish_def_by_fish, fish_def_by_rod,
    is_rod_item, item_equip_slot, item_name, item_value, mob_def, mob_kind_by_id, mob_kind_id, rock_def,
    rod_value, sell_value, sword_def, sword_value, tool_def, tree_def, weapon_damage_bonus,
};
use tradscape::inventory::{
    add_inv_into, best_tool, best_usable_rod, can_receive_trade_items, choose_active_rod, coin_count,
    count_item_in, deduct_coins, deduct_item_from, equipped_rod_def, forge_recipe, has_item_in,
    highest_owned_rod, inventory_gp_value, migrate_legacy_fishing_rod, offer_items_from_slots,
    player_any_rod_available,
};
use tradscape::types::{empty_inventory, names_equip_slot, Equipment, InvSlot, Skills};

fn stack(item: &str, qty: i32) -> InvSlot {
    InvSlot { item: item.to_string(), qty }
}

fn bag(stacks: &[(&str, i32)]) -> Vec<InvSlot> {
    let mut inv = empty_inventory();
    for (k, (item, qty)) in stacks.iter().enumerate() {
        inv[k] = stack(item, *qty);
    }
    inv
}

fn pairs(inv: &[InvSlot]) -> Vec<(String, i32)> {
    inv.iter().filter(|s| !s.item.is_empty()).map(|s| (s.item.clone(), s.qty)).collect()
}

fn full_bag() -> Vec<InvSlot> {
    (0..28).map(|k| stack(&format!("thing{}", k), 1)).collect()
}

#[test]
fn creatures_by_name_and_number() {
    assert_eq!(mob_def("dragon").hp, 350);
    assert_eq!(mob_def("unheard of").kind, "goblin");
    assert_eq!(mob_kind_id("ninja"), 2);
    assert_eq!(mob_kind_id("unheard of"), 0);
    assert_eq!(mob_kind_by_id(3), "dragon");
    assert_eq!(mob_kind_by_id(4), "goblin");
    for id in 0..4u8 {
        assert_eq!(mob_kind_id(mob_kind_by_id(id)), id);
    }
}

#[test]
fn resources_by_tier() {
    assert_eq!(tree_def(2).item, "oak_logs");
    assert_eq!(tree_def(-9).item, "pine_logs");
    assert_eq!(tree_def(99).item, "magic_logs");
    assert_eq!(rock_def(0).item, "copper_ore");
    assert_eq!(rock_def(4).regrow_secs, 110);
}

#[test]
fn prices_of_things() {
    assert_eq!(buy_price("bronze_axe"), Some(10));
    assert_eq!(buy_price("bronze_pickaxe"), Some(15));
    assert_eq!(buy_price("berries"), None);
    assert_eq!(sell_value("berries"), Some(1));
    assert_eq!(sell_value("anglerfish"), Some(256));
    assert_eq!(sell_value("gold_ore"), Some(600));
    assert_eq!(sell_value("coins"), None);
    assert_eq!(armor_value("iron_plate"), Some(600));
    assert_eq!(sword_value("cobalt_sword"), Some(60000));
    assert_eq!(item_value("iron_axe"), Some(200));
    assert_eq!(item_value("nothing"), None);
}

#[test]
fn a_rod_is_worth_ten_of_its_resource() {
    for rod in ["yabbypot", "oakrod", "yewrod", "magicrod"] {
        let f = fish_def_by_rod(rod).unwrap();
        assert_eq!(rod_value(rod), Some(10 * sell_value(f.resource).unwrap()));
        assert!(is_rod_item(rod));
        assert_eq!(fish_def_by_fish(f.fish).unwrap().rod, rod);
    }
    assert_eq!(rod_value("yewrod"), Some(5000));
    assert_eq!(rod_value("stick"), None);
}

#[test]
fn what_is_worn_where() {
    assert_eq!(item_equip_slot("gold_shield"), Some("left_hand"));
    assert_eq!(item_equip_slot("steel_pickaxe"), Some("right_hand"));
    assert_eq!(item_equip_slot("old_axe"), Some("right_hand"));
    assert_eq!(item_equip_slot("oakrod"), Some("right_hand"));
    assert_eq!(item_equip_slot("coins"), None);
    assert!(names_equip_slot("chest") && !names_equip_slot("feet"));
    let mut e = Equipment::default();
    e.set("helmet", "copper_helm".to_string());
    e.set("chest", "iron_plate".to_string());
    e.set("right_hand", "gold_sword".to_string());
    e.set("feet", "boots".to_string());
    assert_eq!(e.get("chest"), "iron_plate");
    assert_eq!(e.get("feet"), "");
    assert_eq!(armor_defence_bonus(&e), 5 + 20);
    assert_eq!(weapon_damage_bonus(&e), 40);
    assert_eq!(armor_def("cobalt_greaves").unwrap().defence, 56);
    assert_eq!(sword_def("iron_sword").unwrap().damage, 20);
}

#[test]
fn names_of_items() {
    assert_eq!(item_name("oakrod"), "Oak Rod");
    assert_eq!(item_name("pine_logs"), "Pine logs");
    assert_eq!(item_name("fishing_rod"), "Fishing rod");
    assert_eq!(item_name("cobalt_shield"), "Cobalt Shield");
    assert_eq!(item_name("???"), "Item");
    assert_eq!(tool_def("steel_axe").unwrap().power, 4);
    assert!(tool_def("axe").is_none());
}

#[test]
fn items_with_a_value_have_names_of_their_own() {
    let items = [
        "berries", "yabby", "trout", "salmon", "anglerfish", "pine_logs", "oak_logs", "yew_logs",
        "magic_logs", "copper_ore", "iron_ore", "gold_ore", "cobalt_ore", "bronze_axe", "iron_axe",
        "steel_axe", "cobalt_axe", "bronze_pickaxe", "iron_pickaxe", "steel_pickaxe",
        "cobalt_pickaxe", "copper_helm", "copper_plate", "copper_greaves", "copper_shield",
        "iron_helm", "iron_plate", "iron_greaves", "iron_shield", "gold_helm", "gold_plate",
        "gold_greaves", "gold_shield", "cobalt_helm", "cobalt_plate", "cobalt_greaves",
        "cobalt_shield", "copper_sword", "iron_sword", "gold_sword", "cobalt_sword", "yabbypot",
        "oakrod", "yewrod", "magicrod",
    ];
    for a in items {
        assert!(item_value(a).is_some(), "{}", a);
        assert_ne!(item_name(a), "Item");
        for b in items {
            assert_eq!(item_name(a) == item_name(b), a == b, "{} {}", a, b);
        }
    }
}

#[test]
fn adding_stacks_and_fills() {
    let mut inv = bag(&[("coins", 5), ("berries", 0)]);
    assert!(add_inv_into(&mut inv, "coins", 7));
    assert!(add_inv_into(&mut inv, "berries", 2));
    assert_eq!(pairs(&inv), vec![("coins".into(), 12), ("berries".into(), 0), ("berries".into(), 2)]);
    assert_eq!(count_item_in(&inv, "berries"), 2);
    let mut full = full_bag();
    assert!(!add_inv_into(&mut full, "coins", 1));
    assert!(add_inv_into(&mut full, "thing3", 4));
    assert_eq!(full[3].qty, 5);
}

#[test]
fn taking_spans_slots_or_takes_nothing() {
    let mut inv = bag(&[("logs", 3), ("coins", 9), ("logs", 4)]);
    assert!(!deduct_item_from(&mut inv, "logs", 8));
    assert_eq!(count_item_in(&inv, "logs"), 7);
    assert!(deduct_item_from(&mut inv, "logs", 5));
    assert_eq!(pairs(&inv), vec![("coins".into(), 9), ("logs".into(), 2)]);
    assert!(has_item_in(&inv, "logs") && !has_item_in(&inv, "ore"));
    assert!(deduct_coins(&mut inv, 9));
    assert_eq!(coin_count(&inv), 0);
    assert!(!deduct_coins(&mut inv, 1));
}

#[test]
fn what_was_taken_can_be_put_back() {
    let mut inv = full_bag();
    inv[4] = stack("coins", 10);
    let before = coin_count(&inv);
    assert!(deduct_item_from(&mut inv, "coins", 10));
    assert!(add_inv_into(&mut inv, "coins", 10));
    assert_eq!(coin_count(&inv), before);
}

#[test]
fn the_best_tool_is_chosen() {
    let inv = bag(&[("iron_axe", 1), ("cobalt_axe", 0), ("steel_pickaxe", 1), ("steel_axe", 1), ("bronze_axe", 2)]);
    assert_eq!(best_tool(&inv, "axe").unwrap().item, "steel_axe");
    assert_eq!(best_tool(&inv, "pickaxe").unwrap().tier, 3);
    assert!(best_tool(&inv, "hammer").is_none());
}

#[test]
fn the_worth_of_an_inventory() {
    let inv = bag(&[("coins", 7), ("cobalt_plate", 2), ("junk", 50), ("berries", -4)]);
    assert_eq!(inventory_gp_value(&inv), 7 + 2 * 60000);
    assert_eq!(inventory_gp_value(&[]), 0);
}

#[test]
fn rods_in_hand_come_first() {
    let mut skills = Skills::starter();
    let none = Equipment::default();
    let inv = bag(&[("yabbypot", 1), ("yewrod", 1)]);
    assert_eq!(best_usable_rod(&skills, &inv, &none).unwrap().rod, "yabbypot");
    assert_eq!(highest_owned_rod(&inv, &none).unwrap().rod, "yewrod");
    assert_eq!(choose_active_rod(&skills, &inv, &none).unwrap().rod, "yabbypot");
    skills.fishing = 21;
    assert_eq!(choose_active_rod(&skills, &inv, &none).unwrap().rod, "yewrod");
    let mut hand = Equipment::default();
    hand.set("right_hand", "magicrod".to_string());
    assert_eq!(equipped_rod_def(&hand).unwrap().fish, "anglerfish");
    assert_eq!(choose_active_rod(&skills, &inv, &hand).unwrap().rod, "magicrod");
    assert!(player_any_rod_available(&[], &hand) && !player_any_rod_available(&[], &none));
}

#[test]
fn without_a_usable_rod_the_player_hears_why() {
    let skills = Skills::starter();
    let none = Equipment::default();
    let high = bag(&[("oakrod", 1)]);
    assert_eq!(
        choose_active_rod(&skills, &high, &none).err().unwrap(),
        "Your fishing level is too low for the Oak Rod (need 11)."
    );
    assert_eq!(choose_active_rod(&skills, &[], &none).err().unwrap(), "You need a fishing rod.");
}

#[test]
fn recipes_of_the_blacksmith() {
    assert_eq!(forge_recipe("gold_helm"), Some(("gold_helm", "Gold Helm", "gold_ore", 5)));
    assert_eq!(forge_recipe("iron_sword"), Some(("iron_sword", "Iron Sword", "iron_ore", 10)));
    assert_eq!(forge_recipe("iron_axe"), None);
}

#[test]
fn offers_must_stand() {
    let inv = bag(&[("coins", 5), ("logs", 0), ("ore", 2)]);
    let offer = offer_items_from_slots(&inv, &[2, 0]).unwrap();
    assert_eq!(offer[0].0, 2);
    assert_eq!(offer[0].1.item, "ore");
    assert!(offer_items_from_slots(&inv, &[1]).is_none());
    assert!(offer_items_from_slots(&inv, &[0, 0]).is_none());
    assert!(offer_items_from_slots(&inv, &[28]).is_none());
    assert!(offer_items_from_slots(&inv[..1], &[2]).is_none());
    assert!(offer_items_from_slots(&inv, &[]).unwrap().is_empty());
}

#[test]
fn room_is_counted_after_the_offer_left() {
    let full = full_bag();
    assert!(can_receive_trade_items(&full, &[stack("gem", 1)], &[7]));
    assert!(!can_receive_trade_items(&full, &[stack("gem", 1), stack("ring", 1)], &[7]));
    assert!(can_receive_trade_items(&full, &[stack("gem", 1), stack("gem", 3)], &[7]));
    assert!(!can_receive_trade_items(&full, &[], &[40]));
}

#[test]
fn old_rods_become_oak_rods() {
    let mut inv = bag(&[("fishing_rod", 1), ("fishing_rod", 0)]);
    let mut e = Equipment::default();
    e.set("right_hand", "fishing_rod".to_string());
    migrate_legacy_fishing_rod(&mut inv, &mut e);
    assert_eq!(inv[0].item, "oakrod");
    assert_eq!(inv[1].item, "fishing_rod");
    assert_eq!(e.get("right_hand"), "oakrod");
}
