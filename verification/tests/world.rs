//! The world: walking, gathering, fighting, trading and talking.

use tradscape::command::ClientCmd;
use tradscape::map::{MapDef, MobSpawn};
use tradscape::path::GoalKind;
use tradscape::save::{load_saved_player, PlayerSave, StoredPlayer};
use tradscape::sim::{EventRec, Sim};
use tradscape::types::{empty_inventory, Equipment, InvSlot, Intent, Obj, Skills, Tile, TPS};

const TODAY: i32 = 739000;

fn meadow(w: i32, h: i32) -> MapDef {
    let n = (w * h) as usize;
    MapDef {
        w,
        h,
        tiles: vec![Tile::Grass; n],
        objects: vec![Obj::Empty; n],
        mobs: Vec::new(),
        player_spawn: (1, 1),
    }
}

fn world_with(objects: &[(i32, i32, Obj)], mobs: &[(&'static str, i32, i32)]) -> Sim {
    let mut map = meadow(10, 8);
    for (x, y, o) in objects {
        map.objects[(y * 10 + x) as usize] = *o;
    }
    for (kind, x, y) in mobs {
        map.mobs.push(MobSpawn { kind, x: *x, y: *y });
    }
    assert!(map.is_valid());
    Sim::new(map, TODAY)
}

fn record(name: &str, x: i32, y: i32, stacks: &[(&str, i32)]) -> PlayerSave {
    let mut inv = empty_inventory();
    for (k, (item, qty)) in stacks.iter().enumerate() {
        inv[k] = InvSlot { item: item.to_string(), qty: *qty };
    }
    load_saved_player(
        &format!("id-{}", name),
        Some(StoredPlayer {
            name: name.to_string(),
            x,
            y,
            hp_cur: 10,
            skills: None,
            inv: Some(inv),
            equipment: None,
        }),
    )
    .unwrap()
}

fn enter(sim: &mut Sim, name: &str, x: i32, y: i32, stacks: &[(&str, i32)]) -> u16 {
    let rec = record(name, x, y, stacks);
    sim.join_player(&rec.uuid.clone(), name, Some(rec), TODAY)
}

fn has(sim: &Sim, pid: u16, item: &str) -> i32 {
    sim.players.inv[pid as usize].iter().filter(|s| s.item == item).map(|s| s.qty).sum()
}

fn last_line(sim: &Sim, pid: u16) -> String {
    sim.players.log[pid as usize].last().unwrap().clone()
}

fn place(sim: &Sim, pid: u16) -> (i16, i16) {
    (sim.players.xs[pid as usize], sim.players.ys[pid as usize])
}

#[test]
fn maps_must_fit_their_size() {
    assert!(meadow(3, 4).is_valid());
    assert!(meadow(0, 0).is_valid());
    let mut short = meadow(3, 4);
    short.tiles.pop();
    assert!(!short.is_valid());
    let mut odd = meadow(2, 2);
    odd.w = -2;
    odd.h = -2;
    assert!(!odd.is_valid());
}

#[test]
fn newcomers_start_with_fifty_coins() {
    let mut sim = world_with(&[], &[]);
    let pid = sim.join_player("u1", "Ann", None, TODAY);
    assert_eq!(pid, 0);
    assert_eq!(has(&sim, pid, "coins"), 50);
    assert_eq!(place(&sim, pid), (1, 1));
    assert_eq!(sim.players.hp_cur[0], 10);
    assert_eq!(last_line(&sim, pid), "Welcome to Tradscape, /help for commands.");
    assert_eq!(sim.daily_visitors, vec!["u1".to_string()]);
}

#[test]
fn stored_players_come_back_as_they_were() {
    let mut sim = world_with(&[], &[]);
    let pid = enter(&mut sim, "Ann", 4, 5, &[("coins", 3), ("oak_logs", 7)]);
    let save = sim.snapshot_player_save(pid).unwrap();
    let row = StoredPlayer {
        name: save.name.clone(),
        x: save.x,
        y: save.y,
        hp_cur: save.hp_cur,
        skills: Some(save.skills),
        inv: Some(save.inv.clone()),
        equipment: Some(save.equipment.clone()),
    };
    let back = load_saved_player(&save.uuid, Some(row)).unwrap();
    assert_eq!((back.name.as_str(), back.x, back.y, back.hp_cur), ("Ann", 4, 5, 10));
    assert_eq!(back.skills, save.skills);
    assert_eq!(back.inv[1].item, "oak_logs");
    assert_eq!(back.inv.len(), 28);
    assert!(load_saved_player("x", None).is_none());
}

#[test]
fn those_who_left_find_everything_again() {
    let mut sim = world_with(&[], &[]);
    let pid = enter(&mut sim, "Ann", 4, 5, &[("oak_logs", 7)]);
    sim.players.equipment[pid as usize].set("chest", "iron_plate".to_string());
    sim.players.hp_cur[pid as usize] = 6;
    let save = sim.snapshot_player_save(pid).unwrap();
    sim.players.despawn(pid);
    assert!(sim.snapshot_player_save(pid).is_none());
    enter(&mut sim, "Other", 7, 7, &[]);
    let back = sim.join_player("id-Ann", "Somebody", Some(save), TODAY);
    assert_eq!(sim.players.name[back as usize], "Ann");
    assert_eq!(place(&sim, back), (4, 5));
    assert_eq!(sim.players.hp_cur[back as usize], 6);
    assert_eq!(has(&sim, back, "oak_logs"), 7);
    assert_eq!(sim.players.equipment[back as usize].get("chest"), "iron_plate");
}

#[test]
fn only_real_old_rods_are_exchanged() {
    let mut sim = world_with(&[], &[]);
    let pid = enter(&mut sim, "Ann", 4, 5, &[("oak_logs", 7)]);
    sim.players.inv[pid as usize][3] = InvSlot { item: "fishing_rod".to_string(), qty: 0 };
    let save = sim.snapshot_player_save(pid).unwrap();
    let row = StoredPlayer {
        name: save.name.clone(),
        x: save.x,
        y: save.y,
        hp_cur: save.hp_cur,
        skills: Some(save.skills),
        inv: Some(save.inv.clone()),
        equipment: Some(save.equipment.clone()),
    };
    let back = load_saved_player("id-Ann", Some(row)).unwrap();
    let pairs = |inv: &[InvSlot]| -> Vec<(String, i32)> {
        inv.iter().map(|s| (s.item.clone(), s.qty)).collect()
    };
    assert_eq!(pairs(&back.inv), pairs(&save.inv));
    assert_eq!((back.inv[3].item.as_str(), back.inv[3].qty), ("fishing_rod", 0));
    assert_eq!((back.uuid.as_str(), back.name.as_str()), ("id-Ann", "Ann"));
}

#[test]
fn damaged_records_are_mended() {
    let mut skills = Skills::starter();
    skills.mining_xp = 1_000_000;
    skills.mining = -4;
    skills.hp_xp = 50;
    let row = StoredPlayer {
        name: "  ".to_string(),
        x: 2,
        y: 2,
        hp_cur: 999,
        skills: Some(skills),
        inv: Some(vec![InvSlot { item: "fishing_rod".to_string(), qty: 1 }]),
        equipment: None,
    };
    let rec = load_saved_player("u", Some(row)).unwrap();
    assert!(rec.skills.mining > 40);
    assert_eq!(rec.skills.hp, 11);
    assert_eq!(rec.inv.len(), 28);
    assert_eq!(rec.inv[0].item, "oakrod");
    let mut sim = world_with(&[], &[]);
    let pid = sim.join_player("u", "ignored", Some(rec), TODAY);
    assert_eq!(sim.players.name[pid as usize], "Adventurer");
    assert_eq!(sim.players.hp_cur[pid as usize], 11);
}

#[test]
fn slots_are_used_again_with_another_generation() {
    let mut sim = world_with(&[], &[]);
    let a = enter(&mut sim, "A", 2, 2, &[]);
    let b = enter(&mut sim, "B", 3, 2, &[]);
    let gen = sim.players.gens[a as usize];
    sim.players.despawn(a);
    assert!(!sim.players.is_alive(a) && sim.players.is_alive(b));
    assert_eq!(sim.players.iter_live(), vec![b]);
    let c = enter(&mut sim, "C", 4, 2, &[]);
    assert_eq!(c, a);
    assert_eq!(sim.players.gens[c as usize], gen + 1);
    assert_eq!(sim.players.name[b as usize], "B");
}

#[test]
fn walking_takes_the_shortest_way_around() {
    let mut map = meadow(10, 8);
    for y in 0..7 {
        map.tiles[(y * 10 + 4) as usize] = Tile::Water;
    }
    let mut sim = Sim::new(map, TODAY);
    let pid = enter(&mut sim, "A", 3, 6, &[]);
    sim.click(pid, 5, 6);
    let path = sim.bfs((3, 6), GoalKind::Step((5, 6)), pid as i32).unwrap();
    assert_eq!(path.len(), 4);
    for _ in 0..4 {
        sim.tick_world();
    }
    assert_eq!(place(&sim, pid), (5, 6));
    assert!(sim.bfs((3, 6), GoalKind::Step((4, 6)), pid as i32).is_none());
    assert!(sim.bfs((3, 6), GoalKind::Adjacent((2, 5)), pid as i32).unwrap().is_empty());
}

#[test]
fn unreachable_places_are_given_up() {
    let walls = [(0, 1, Obj::Boulder), (1, 0, Obj::Boulder), (1, 1, Obj::Boulder)];
    let mut sim = world_with(&walls, &[]);
    let pid = enter(&mut sim, "A", 0, 0, &[]);
    sim.click(pid, 5, 5);
    sim.tick_world();
    assert_eq!(last_line(&sim, pid), "Can't reach there.");
    assert_eq!(sim.players.intent[0], Intent::Idle);
    assert_eq!(place(&sim, pid), (0, 0));
}

#[test]
fn clicks_outside_the_map_do_nothing() {
    let mut sim = world_with(&[], &[]);
    let pid = enter(&mut sim, "A", 2, 2, &[]);
    for (x, y) in [(-1, 0), (10, 0), (0, 8), (i32::MAX, i32::MIN)] {
        sim.click(pid, x, y);
    }
    assert_eq!(sim.players.target[0], None);
}

#[test]
fn chopping_fells_a_tree_and_it_grows_again() {
    let mut sim = world_with(&[(3, 2, Obj::Tree { tier: 1, hp: 4 })], &[]);
    let pid = enter(&mut sim, "A", 2, 2, &[("bronze_axe", 1)]);
    sim.click(pid, 3, 2);
    assert_eq!(sim.players.intent[0], Intent::Chop);
    let mut ticks = 0;
    while has(&sim, pid, "pine_logs") == 0 && ticks < 200 {
        sim.tick_world();
        ticks += 1;
    }
    assert_eq!(has(&sim, pid, "pine_logs"), 1);
    assert_eq!(sim.players.skills[0].woodcutting_xp, 20);
    assert_eq!(sim.players.intent[0], Intent::Idle);
    let regrow = sim.tick + 25 * TPS;
    assert_eq!(*sim.obj(3, 2), Obj::Stump { tier: 1, regrow });
    assert_eq!(sim.objects_dirty.last(), Some(&23));
    while sim.tick < regrow {
        sim.tick_world();
    }
    assert_eq!(*sim.obj(3, 2), Obj::Tree { tier: 1, hp: 4 });
    assert_eq!(sim.objects_dirty, vec![23]);
}

#[test]
fn tools_must_be_good_enough() {
    let trees = [(3, 2, Obj::Tree { tier: 2, hp: 10 }), (2, 3, Obj::Rock { tier: 1, hp: 5 })];
    let mut sim = world_with(&trees, &[]);
    let pid = enter(&mut sim, "A", 2, 2, &[("bronze_axe", 1)]);
    sim.click(pid, 3, 2);
    sim.tick_world();
    assert_eq!(last_line(&sim, pid), "You need a tier 2 axe for Oak Tree.");
    sim.click(pid, 2, 3);
    sim.tick_world();
    assert_eq!(last_line(&sim, pid), "You need a pickaxe.");
    assert!(sim.events.is_empty());
}

#[test]
fn without_a_tool_no_cell_is_looked_at() {
    let mut sim = world_with(&[], &[]);
    let pid = enter(&mut sim, "A", 2, 2, &[]);
    for far in [(-5, 900), (10, 8), (i32::MAX, i32::MIN)] {
        sim.do_chop(pid, far);
        assert_eq!(last_line(&sim, pid), "You need an axe.");
        sim.do_mine(pid, far);
        assert_eq!(last_line(&sim, pid), "You need a pickaxe.");
        sim.do_fish(pid, far);
        assert_eq!(last_line(&sim, pid), "You need a fishing rod.");
    }
    assert!(sim.events.is_empty());
    assert!(sim.objects_dirty.is_empty());
}

#[test]
fn mining_a_rock_empties_it() {
    let mut sim = world_with(&[(3, 2, Obj::Rock { tier: 1, hp: 1 })], &[]);
    let pid = enter(&mut sim, "A", 2, 2, &[("bronze_pickaxe", 1)]);
    sim.click(pid, 3, 2);
    let mut ticks = 0;
    while has(&sim, pid, "copper_ore") == 0 && ticks < 200 {
        sim.tick_world();
        ticks += 1;
    }
    assert_eq!(has(&sim, pid, "copper_ore"), 1);
    assert!(matches!(sim.obj(3, 2), Obj::DepletedRock { tier: 1, .. }));
    assert_eq!(sim.players.log[0].iter().filter(|l| *l == "You mine Copper ore.").count(), 1);
}

#[test]
fn berries_are_picked_until_none_is_left() {
    let mut sim = world_with(&[(3, 2, Obj::Bush { berries: 2, regrow: 0 })], &[]);
    let pid = enter(&mut sim, "A", 2, 2, &[]);
    sim.click(pid, 3, 2);
    assert_eq!(sim.players.intent[0], Intent::Pick);
    sim.tick_world();
    // A berry is due at once, then one is picked.
    assert_eq!(has(&sim, pid, "berries"), 1);
    assert_eq!(*sim.obj(3, 2), Obj::Bush { berries: 2, regrow: sim.tick + 8 * TPS });
    sim.tick_world();
    sim.tick_world();
    assert_eq!(has(&sim, pid, "berries"), 3);
    assert_eq!(sim.players.intent[0], Intent::Idle);
    assert!(sim.events.contains(&EventRec::Pick { x: 3, y: 2 }));
}

#[test]
fn fishing_needs_water_and_a_rod() {
    let mut map = meadow(10, 8);
    map.tiles[23] = Tile::Water;
    let mut sim = Sim::new(map, TODAY);
    let dry = enter(&mut sim, "Dry", 2, 1, &[]);
    sim.click(dry, 3, 2);
    assert_eq!(sim.players.intent[dry as usize], Intent::Idle);
    let pid = enter(&mut sim, "A", 2, 3, &[("yabbypot", 1)]);
    sim.players.skills[pid as usize].fishing = 1;
    sim.click(pid, 3, 2);
    assert_eq!(sim.players.intent[pid as usize], Intent::Fish);
    let mut ticks = 0;
    while has(&sim, pid, "yabby") == 0 && ticks < 5000 {
        sim.tick_world();
        ticks += 1;
    }
    assert_eq!(has(&sim, pid, "yabby"), 1);
    assert_eq!(sim.players.skills[pid as usize].fishing_xp, 8);
}

#[test]
fn dropped_things_are_merged_and_picked_up() {
    let mut sim = world_with(&[], &[]);
    let pid = enter(&mut sim, "A", 2, 2, &[("coins", 5), ("oak_logs", 1)]);
    sim.drop_one(pid, 0);
    sim.drop_one(pid, 0);
    sim.drop_one(pid, 1);
    assert_eq!(has(&sim, pid, "coins"), 3);
    assert_eq!(sim.ground.iter_live().len(), 2);
    assert_eq!(sim.ground.qty[0], 2);
    sim.click(pid, 2, 2);
    assert_eq!(sim.players.intent[0], Intent::Pickup);
    sim.tick_world();
    assert_eq!(has(&sim, pid, "coins"), 5);
    assert_eq!(has(&sim, pid, "oak_logs"), 1);
    assert!(sim.ground.iter_live().is_empty());
}

#[test]
fn what_finds_no_room_stays_on_the_ground() {
    let mut sim = world_with(&[], &[]);
    let pid = enter(&mut sim, "A", 2, 2, &[]);
    for k in 0..28 {
        sim.players.inv[0][k] = InvSlot { item: format!("thing{}", k), qty: 1 };
    }
    sim.drop_ground(2, 2, "gem", 3);
    sim.drop_ground(2, 2, "thing4", 2);
    sim.click(pid, 2, 2);
    sim.tick_world();
    assert_eq!(last_line(&sim, pid), "Inventory full!");
    assert_eq!(has(&sim, pid, "gem"), 0);
    let lying: i32 = sim.ground.iter_live().iter().map(|h| sim.ground.qty[*h as usize]).sum();
    assert_eq!(lying + has(&sim, pid, "thing4"), 3 + 2 + 1);
    sim.drop_ground(2, 2, "gem", 0);
    sim.drop_ground(2, 2, "", 9);
    assert_eq!(sim.ground.iter_live().iter().map(|h| sim.ground.qty[*h as usize]).sum::<i32>(), lying);
}

#[test]
fn the_shop_sells_and_buys() {
    let mut sim = world_with(&[(3, 2, Obj::Trader)], &[]);
    let pid = enter(&mut sim, "A", 2, 2, &[("coins", 50), ("oak_logs", 2), ("junk", 1)]);
    sim.buy(pid, "bronze_axe");
    assert_eq!(last_line(&sim, pid), "You buy a Bronze Axe.");
    assert_eq!(has(&sim, pid, "coins"), 40);
    sim.buy(pid, "bronze_axe");
    assert_eq!(last_line(&sim, pid), "You already have a Bronze Axe.");
    sim.buy(pid, "bronze_pickaxe");
    assert_eq!(has(&sim, pid, "coins"), 25);
    sim.buy(pid, "iron_axe");
    assert_eq!(last_line(&sim, pid), "Not enough coins.");
    sim.sell(pid, 1);
    assert_eq!(last_line(&sim, pid), "Sold oak_logsx2 for 100gp.");
    assert_eq!(has(&sim, pid, "coins"), 125);
    sim.sell(pid, 2);
    assert_eq!(last_line(&sim, pid), "The trader does not buy that.");
    let lines = sim.players.log[0].len();
    sim.sell(pid, 0);
    sim.sell(pid, 99);
    sim.buy(pid, "castle");
    assert_eq!(sim.players.log[0].len(), lines);
}

#[test]
fn full_bags_get_their_coins_back() {
    let mut sim = world_with(&[(3, 2, Obj::Trader)], &[]);
    let pid = enter(&mut sim, "A", 2, 2, &[]);
    for k in 0..28 {
        sim.players.inv[0][k] = InvSlot { item: format!("thing{}", k), qty: 1 };
    }
    sim.players.inv[0][0] = InvSlot { item: "coins".to_string(), qty: 30 };
    sim.buy(pid, "bronze_axe");
    assert_eq!(last_line(&sim, pid), "Inventory full!");
    assert_eq!(has(&sim, pid, "coins"), 30);
    sim.players.inv[0][0].qty = 10;
    sim.buy(pid, "bronze_axe");
    assert_eq!(has(&sim, pid, "bronze_axe"), 1);
}

#[test]
fn far_from_the_shop_nothing_is_sold() {
    let mut sim = world_with(&[(9, 7, Obj::Trader)], &[]);
    let pid = enter(&mut sim, "A", 2, 2, &[("coins", 50)]);
    sim.buy(pid, "bronze_axe");
    assert_eq!(last_line(&sim, pid), "Stand next to the trader.");
    sim.sell(pid, 0);
    sim.forge(pid, "iron_helm");
    assert_eq!(last_line(&sim, pid), "Stand next to the blacksmith.");
    sim.angler_buy(pid, "oakrod");
    assert_eq!(last_line(&sim, pid), "Stand next to the angler.");
    sim.angel_sacrifice(pid);
    assert_eq!(last_line(&sim, pid), "Stand next to the angel.");
    assert_eq!(has(&sim, pid, "coins"), 50);
}

#[test]
fn the_blacksmith_and_the_angler_take_their_stuff() {
    let mut sim = world_with(&[(3, 2, Obj::Blacksmith), (2, 3, Obj::Angler)], &[]);
    let pid = enter(&mut sim, "A", 2, 2, &[("iron_ore", 12), ("oak_logs", 9)]);
    sim.forge(pid, "iron_plate");
    assert_eq!(last_line(&sim, pid), "The blacksmith forges a Iron Plate from 10 Iron ore.");
    assert_eq!((has(&sim, pid, "iron_plate"), has(&sim, pid, "iron_ore")), (1, 2));
    sim.forge(pid, "iron_helm");
    assert_eq!(last_line(&sim, pid), "You need 5 Iron ore to forge a Iron Helm.");
    sim.angler_buy(pid, "oakrod");
    assert_eq!(last_line(&sim, pid), "The angler wants 10 Oak logs for the Oak Rod.");
    sim.players.inv[0][1].qty = 11;
    sim.angler_buy(pid, "oakrod");
    assert_eq!(last_line(&sim, pid), "The angler hands you a Oak Rod for 10 Oak logs.");
    assert_eq!((has(&sim, pid, "oakrod"), has(&sim, pid, "oak_logs")), (1, 1));
    sim.angler_buy(pid, "oakrod");
    assert_eq!(last_line(&sim, pid), "You already have a Oak Rod.");
}

#[test]
fn eating_heals_but_not_beyond_the_most() {
    let mut sim = world_with(&[], &[]);
    let pid = enter(&mut sim, "A", 2, 2, &[("berries", 2), ("trout", 1), ("rock", 1)]);
    sim.eat(pid, 0);
    assert_eq!(last_line(&sim, pid), "You're already at full health.");
    sim.players.hp_cur[0] = 5;
    sim.eat(pid, 0);
    assert_eq!((sim.players.hp_cur[0], has(&sim, pid, "berries")), (8, 1));
    assert_eq!(last_line(&sim, pid), "You eat the berries. (+3 HP)");
    sim.eat(pid, 2);
    assert_eq!(sim.players.hp_cur[0], 8);
    sim.eat(pid, 1);
    assert_eq!((sim.players.hp_cur[0], has(&sim, pid, "trout")), (10, 0));
    assert_eq!(last_line(&sim, pid), "You eat the trout. (+8 HP)");
}

#[test]
fn equipment_is_exchanged_with_the_inventory() {
    let mut sim = world_with(&[], &[]);
    let pid = enter(&mut sim, "A", 2, 2, &[("copper_helm", 2), ("iron_helm", 1), ("coins", 4)]);
    sim.equip_from_inv(pid, 0);
    assert_eq!(sim.players.equipment[0].get("helmet"), "copper_helm");
    assert_eq!(has(&sim, pid, "copper_helm"), 1);
    sim.equip_from_inv(pid, 1);
    assert_eq!(sim.players.equipment[0].get("helmet"), "iron_helm");
    assert_eq!((has(&sim, pid, "copper_helm"), has(&sim, pid, "iron_helm")), (2, 0));
    sim.equip_from_inv(pid, 2);
    assert_eq!(has(&sim, pid, "coins"), 4);
    sim.unequip_slot(pid, "helmet");
    assert_eq!(last_line(&sim, pid), "You unequip Iron Helm.");
    sim.unequip_slot(pid, "tail");
    assert_eq!(has(&sim, pid, "iron_helm"), 1);
}

#[test]
fn what_cannot_be_kept_falls_to_the_ground() {
    let mut sim = world_with(&[], &[]);
    let pid = enter(&mut sim, "A", 2, 2, &[]);
    for k in 0..28 {
        sim.players.inv[0][k] = InvSlot { item: format!("thing{}", k), qty: 1 };
    }
    sim.players.equipment[0].set("right_hand", "oakrod".to_string());
    sim.unequip_slot(pid, "right_hand");
    assert_eq!(last_line(&sim, pid), "Oak Rod falls to the ground.");
    assert_eq!(sim.ground.item[0], "oakrod");
    assert_eq!(sim.players.equipment[0].get("right_hand"), "");
}

#[test]
fn the_angel_takes_everything() {
    let mut sim = world_with(&[(3, 2, Obj::Angel)], &[]);
    let pid = enter(&mut sim, "A", 2, 2, &[("coins", 2500), ("cobalt_ore", 1)]);
    sim.players.skills[0].mining_xp = 5000;
    sim.click(pid, 3, 2);
    assert!(sim.players.ui[0].angel_modal_open);
    sim.angel_decline(pid);
    assert!(!sim.players.ui[0].angel_modal_open);
    sim.angel_sacrifice(pid);
    assert_eq!(sim.players.skills[0].angel_points, 8);
    assert_eq!(sim.players.skills[0].mining_xp, 0);
    assert!(sim.players.inv[0].iter().all(|s| s.item.is_empty()));
    assert_eq!(
        last_line(&sim, pid),
        "Your inventory is sacrificed (8500 GP). You gain 8 angel points. All levels reset. Angel points grant +1% XP each."
    );
}

#[test]
fn fights_end_with_a_fallen_creature() {
    let mut sim = world_with(&[], &[("goblin", 4, 2)]);
    let pid = enter(&mut sim, "A", 2, 2, &[]);
    sim.players.skills[0].hp_xp = 2_000_000_000;
    sim.players.skills[0].hp = 108;
    sim.players.hp_cur[0] = 108;
    sim.click(pid, 4, 2);
    assert_eq!(sim.players.intent[0], Intent::Attack { mid: 0 });
    let mut ticks = 0;
    while sim.mobs.respawn_at[0] == 0 && ticks < 500 {
        sim.players.hp_cur[0] = 108;
        sim.players.intent[0] = Intent::Attack { mid: 0 };
        sim.tick_world();
        ticks += 1;
    }
    assert_eq!(sim.mobs.hp_cur[0], 0);
    assert_eq!(sim.mobs.respawn_at[0], sim.tick + 20 * TPS);
    assert_eq!(sim.ground.item[0], "coins");
    assert_eq!(sim.ground.qty[0], 5);
    assert!(sim.players.log[0].contains(&"You kill the goblin!".to_string()));
    assert!(sim.occupant_mid(sim.mobs.xs[0] as i32, sim.mobs.ys[0] as i32).is_none());
    let back = sim.mobs.respawn_at[0];
    while sim.tick < back {
        sim.tick_world();
    }
    assert_eq!((sim.mobs.hp_cur[0], sim.mobs.respawn_at[0]), (24, 0));
    assert_eq!((sim.mobs.xs[0], sim.mobs.ys[0]), (4, 2));
}

#[test]
fn fallen_players_wake_at_the_spawn() {
    let mut sim = world_with(&[], &[("dragon", 6, 6)]);
    let pid = enter(&mut sim, "A", 5, 6, &[]);
    let mut ticks = 0;
    while !sim.players.log[0].contains(&"You die! Respawning...".to_string()) && ticks < 300 {
        sim.players.xs[0] = 5;
        sim.players.ys[0] = 6;
        sim.players.intent[0] = Intent::Idle;
        sim.tick_world();
        ticks += 1;
    }
    assert_eq!(place(&sim, pid), (1, 1));
    assert_eq!(sim.players.hp_cur[0] as i32, sim.players.skills[0].hp);
    assert_eq!(sim.players.intent[0], Intent::Idle);
}

#[test]
fn hit_points_come_back_every_six_seconds() {
    let mut sim = world_with(&[], &[]);
    enter(&mut sim, "A", 2, 2, &[]);
    sim.players.hp_cur[0] = 4;
    for _ in 0..6 * TPS - 1 {
        sim.tick_world();
    }
    assert_eq!(sim.players.hp_cur[0], 4);
    sim.tick_world();
    assert_eq!(sim.players.hp_cur[0], 5);
}

fn trading_pair() -> (Sim, u16, u16) {
    let mut sim = world_with(&[], &[]);
    let a = enter(&mut sim, "Ann", 2, 2, &[("coins", 50), ("oak_logs", 3)]);
    let b = enter(&mut sim, "Bob", 3, 2, &[("iron_ore", 4)]);
    sim.click(a, 3, 2);
    sim.tick_world();
    assert_eq!(sim.players.trade[b as usize].request_from, Some(a as u32));
    assert_eq!(sim.players.private_chat[b as usize][0].text, "Ann wishes to trade with you.");
    sim.click(b, 2, 2);
    sim.tick_world();
    assert_eq!(sim.players.trade[a as usize].partner, Some(b as u32));
    assert_eq!(sim.players.trade[b as usize].partner, Some(a as u32));
    (sim, a, b)
}

#[test]
fn trades_move_what_was_offered() {
    let (mut sim, a, b) = trading_pair();
    sim.trade_offer_slot(a, 0);
    sim.trade_offer_slot(b, 0);
    sim.trade_accept(a);
    sim.trade_confirm(a);
    assert_eq!(has(&sim, b, "coins"), 0);
    sim.trade_accept(b);
    sim.trade_confirm(a);
    sim.trade_confirm(b);
    assert_eq!((has(&sim, a, "coins"), has(&sim, b, "coins")), (0, 50));
    assert_eq!((has(&sim, a, "iron_ore"), has(&sim, b, "iron_ore")), (4, 0));
    assert_eq!(has(&sim, a, "oak_logs"), 3);
    assert_eq!(sim.players.trade[a as usize].partner, None);
    assert_eq!(last_line(&sim, b), "Accepted trade.");
}

#[test]
fn a_new_offer_withdraws_consent() {
    let (mut sim, a, b) = trading_pair();
    sim.trade_offer_slot(a, 0);
    sim.trade_accept(a);
    sim.trade_accept(b);
    sim.trade_confirm(b);
    sim.trade_offer_slot(a, 0);
    assert!(sim.players.trade[a as usize].offer.is_empty());
    sim.trade_confirm(a);
    assert_eq!((has(&sim, a, "coins"), has(&sim, b, "coins")), (50, 0));
    assert!(!sim.players.trade[b as usize].accepted && !sim.players.trade[b as usize].confirmed);
}

#[test]
fn walking_away_ends_a_trade() {
    let (mut sim, a, b) = trading_pair();
    sim.click(a, 6, 6);
    assert_eq!(sim.players.trade[b as usize].partner, None);
    assert_eq!(last_line(&sim, b), "Trade cancelled.");
    let (mut sim, a, b) = trading_pair();
    sim.close_player_trade(b);
    assert_eq!(last_line(&sim, a), "Trade declined.");
}

#[test]
fn trades_without_room_are_cancelled() {
    let (mut sim, a, b) = trading_pair();
    for k in 0..28 {
        sim.players.inv[a as usize][k] = InvSlot { item: format!("thing{}", k), qty: 1 };
    }
    sim.trade_offer_slot(b, 0);
    sim.trade_accept(a);
    sim.trade_accept(b);
    sim.trade_confirm(a);
    sim.trade_confirm(b);
    assert_eq!(last_line(&sim, b), "Trade cancelled: not enough inventory space.");
    assert_eq!(has(&sim, b, "iron_ore"), 4);
    assert_eq!(last_line(&sim, a), "Trade cancelled.");
}

#[test]
fn nobody_trades_alone_or_with_the_absent() {
    let mut sim = world_with(&[], &[]);
    let a = enter(&mut sim, "A", 2, 2, &[]);
    let b = enter(&mut sim, "B", 5, 5, &[]);
    sim.cmd_trade(a, a);
    sim.cmd_trade(a, 77);
    sim.cmd_attack(a, 3);
    assert_eq!(sim.players.intent[0], Intent::Idle);
    sim.cmd_trade(a, b);
    sim.players.despawn(b);
    sim.tick_world();
    assert_eq!(last_line(&sim, a), "They are no longer here.");
}

#[test]
fn chat_keeps_its_last_fifty_lines() {
    let mut sim = world_with(&[], &[]);
    let pid = enter(&mut sim, "Ann", 2, 2, &[]);
    for k in 0..60 {
        assert!(!sim.add_chat(pid, &format!("line {}", k), TODAY));
    }
    assert_eq!(sim.chat.len(), 50);
    assert_eq!(sim.chat[0].text, "line 10");
    assert_eq!((sim.chat[49].text.as_str(), sim.chat[49].id, sim.chat[49].pid), ("line 59", 60, 0));
    sim.add_chat(pid, "   ", TODAY);
    sim.add_chat(pid, "\u{1}\u{2}", TODAY);
    assert_eq!(sim.chat_seq, 60);
    sim.add_chat(pid, &"x".repeat(400), TODAY);
    assert_eq!(sim.chat[49].text.len(), 160);
}

#[test]
fn chat_commands_are_obeyed() {
    let mut sim = world_with(&[], &[]);
    let pid = enter(&mut sim, "Bob", 4, 4, &[]);
    enter(&mut sim, "Ann", 5, 5, &[]);
    sim.add_chat(pid, "/help", TODAY);
    assert_eq!(sim.players.private_chat[0][0].text, "Commands: /help, /online, /nick name, /die");
    sim.add_chat(pid, "/online", TODAY);
    assert_eq!(sim.players.private_chat[0][2].text, "Online now: 2 | Unique players today: 2");
    assert_eq!(sim.players.private_chat[0][3].text, "Players: Ann, Bob");
    sim.add_chat(pid, "/nick  Zed ", TODAY);
    assert_eq!(sim.players.name[0], "Zed");
    assert_eq!(sim.chat[0].text, "Bob is now known as Zed.");
    sim.add_chat(pid, "/dance", TODAY);
    assert_eq!(sim.players.private_chat[0][4].text, "Unknown command. Try /help.");
    sim.players.hp_cur[0] = 1;
    assert!(sim.add_chat(pid, "/die", TODAY));
    assert_eq!((place(&sim, pid), sim.players.hp_cur[0]), ((1, 1), 10));
}

#[test]
fn visitors_are_counted_once_a_day() {
    let mut sim = world_with(&[], &[]);
    sim.note_player_visit_today("a", TODAY);
    sim.note_player_visit_today("b", TODAY);
    sim.note_player_visit_today("a", TODAY);
    assert_eq!(sim.daily_visitors.len(), 2);
    sim.note_player_visit_today("c", TODAY + 1);
    assert_eq!(sim.daily_visitors, vec!["c".to_string()]);
}

#[test]
fn windows_open_and_close() {
    let mut sim = world_with(&[(3, 2, Obj::Trader), (2, 3, Obj::Blacksmith)], &[]);
    let pid = enter(&mut sim, "A", 2, 2, &[]);
    sim.click(pid, 3, 2);
    sim.tick_world();
    assert!(sim.players.ui[0].trade_open && sim.players.intent[0] == Intent::Idle);
    sim.close_ui(pid, "trade");
    assert!(!sim.players.ui[0].trade_open);
    sim.click(pid, 2, 3);
    sim.stop(pid);
    assert!(sim.players.ui[0].forge_open);
    sim.handle_cmd(pid, ClientCmd::CloseForge, TODAY);
    assert!(!sim.players.ui[0].forge_open);
}

#[test]
fn what_a_player_carries_counts() {
    let mut sim = world_with(&[], &[]);
    let pid = enter(&mut sim, "A", 2, 2, &[("iron_axe", 1), ("yewrod", 1)]);
    sim.players.equipment[0].set("left_hand", "gold_shield".to_string());
    let d = sim.player_derived(pid);
    assert_eq!((d.axe_tier, d.pickaxe_tier, d.rod_tier, d.armor_defence, d.weapon_damage), (2, 0, 3, 24, 0));
    let e: &Equipment = &sim.players.equipment[0];
    assert_eq!(e.get("left_hand"), "gold_shield");
}
