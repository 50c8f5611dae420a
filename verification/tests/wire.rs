//! The wire format.

use serde_json::Value;
use sha2::{Digest, Sha256};
use tradscape::codec::{BufReader, BufWriter};
use tradscape::command::{decode_command, ClientCmd};
use tradscape::map::{MapDef, MobSpawn};
use tradscape::sim::{EventRec, Sim};
use tradscape::types::{ChatMsg, Obj, Tile};
use tradscape::views::{encode_catalogs, encode_youview};
use tradscape::wire::{
    encode_baseline, encode_chat, encode_delta, encode_events, encode_init, encode_log_lines,
    hash_prefix, schema_hash, tile_to_u8, ClientWireState, MSG_SERVER_BASELINE, MSG_SERVER_CATALOGS,
    MSG_SERVER_CHAT, MSG_SERVER_DELTA, MSG_SERVER_EVENTS, MSG_SERVER_INIT, MSG_SERVER_LOG,
    MSG_SERVER_YOUVIEW, POOL_TERMINATOR, SCHEMA_DECL,
};

fn island() -> Sim {
    let mut map = MapDef {
        w: 4,
        h: 3,
        tiles: vec![Tile::Grass; 12],
        objects: vec![Obj::Empty; 12],
        mobs: vec![MobSpawn { kind: "ninja", x: 3, y: 2 }],
        player_spawn: (1, 1),
    };
    map.tiles[0] = Tile::Water;
    map.tiles[11] = Tile::Path;
    map.objects[5] = Obj::Trader;
    Sim::new(map, 1)
}

#[test]
fn numbers_and_texts_are_read_back() {
    let mut w = BufWriter::with_capacity(3);
    w.u8(7);
    w.u16(0xBEEF);
    w.u32(0xDEAD_BEEF);
    w.i32(-12345);
    w.i16(-2);
    w.str_u8("h\u{e9}llo");
    w.str_u16("\u{1f600}");
    w.bytes(&[1, 2]);
    let v = w.into_vec();
    assert_eq!(&v[..7], &[7, 0xEF, 0xBE, 0xEF, 0xBE, 0xAD, 0xDE]);
    let mut r = BufReader::new(&v);
    assert_eq!(r.remaining(), v.len());
    assert_eq!(r.u8(), Some(7));
    assert_eq!(r.u16(), Some(0xBEEF));
    assert_eq!(r.u32(), Some(0xDEAD_BEEF));
    assert_eq!(r.i32(), Some(-12345));
    assert_eq!(r.u16(), Some(0xFFFE));
    assert_eq!(r.str_u8(), Some("h\u{e9}llo".to_string()));
    assert_eq!(r.str_u16(), Some("\u{1f600}".to_string()));
    assert_eq!(r.remaining(), 2);
    assert_eq!(r.u32(), None);
    assert_eq!(r.remaining(), 2);
}

#[test]
fn long_texts_are_cut() {
    let long = "a".repeat(300);
    let mut w = BufWriter::new();
    w.str_u8(&long);
    let v = w.into_vec();
    assert_eq!((v.len(), v[0]), (256, 255));
    let mut w = BufWriter::new();
    w.str_u16(&"b".repeat(70_000));
    assert_eq!(w.into_vec().len(), 2 + 65535);
}

#[test]
fn broken_texts_are_mended() {
    let bytes = [4, b'a', 0xFF, b'b', 0xC3];
    let mut r = BufReader::new(&bytes);
    assert_eq!(r.str_u8(), Some("a\u{fffd}b\u{fffd}".to_string()));
    let cut = [5, b'a'];
    let mut r = BufReader::new(&cut);
    assert_eq!(r.str_u8(), None);
    assert_eq!(r.pos, 1);
}

#[test]
fn the_schema_number_is_the_start_of_the_hash() {
    let h = Sha256::digest(SCHEMA_DECL.as_bytes());
    assert_eq!(schema_hash(), u32::from_le_bytes([h[0], h[1], h[2], h[3]]));
    assert_eq!(hash_prefix(&[1, 2, 3, 4, 5]), 0x04030201);
    assert_ne!(schema_hash(), hash_prefix(SCHEMA_DECL.as_bytes()));
}

#[test]
fn tiles_have_bytes_of_their_own() {
    let tiles = [Tile::Grass, Tile::Dirt, Tile::Sand, Tile::Water, Tile::Stone, Tile::Path];
    for (k, t) in tiles.iter().enumerate() {
        assert_eq!(tile_to_u8(*t), k as u8);
    }
}

#[test]
fn the_first_frame_holds_the_map() {
    let sim = island();
    let v = encode_init(&sim, 9, "me");
    let mut r = BufReader::new(&v);
    assert_eq!(r.u8(), Some(MSG_SERVER_INIT));
    assert_eq!(r.u32(), Some(schema_hash()));
    assert_eq!((r.u16(), r.u16(), r.u16()), (Some(4), Some(3), Some(9)));
    assert_eq!(r.str_u8(), Some("me".to_string()));
    assert_eq!(r.u32(), Some(12));
    assert_eq!(&v[r.pos..], &[3, 0, 0, 0, 0, 0, 0, 0, 0, 0, 0, 5]);
}

#[test]
fn the_baseline_tells_everything_once() {
    let mut sim = island();
    sim.join_player("u", "Ann", None, 1);
    sim.drop_ground(2, 2, "gem", 6);
    let mut known = ClientWireState::default();
    let v = encode_baseline(&sim, &mut known);
    let mut r = BufReader::new(&v);
    assert_eq!(r.u8(), Some(MSG_SERVER_BASELINE));
    assert_eq!(r.u32(), Some(0));
    // The player.
    assert_eq!((r.u8(), r.u16(), r.u16()), (Some(0x08), Some(0), Some(0x07FF)));
    assert_eq!((r.u16(), r.u16(), r.u16(), r.u16()), (Some(1), Some(1), Some(10), Some(10)));
    assert_eq!(r.str_u16(), Some("Ann".to_string()));
    for _ in 0..6 {
        let json: Value = serde_json::from_str(&r.str_u16().unwrap()).unwrap();
        assert_ne!(json, Value::from(1));
    }
    // The creature.
    assert_eq!((r.u8(), r.u16(), r.u16()), (Some(0x28), Some(0), Some(0x001F)));
    assert_eq!((r.u16(), r.u16(), r.u16(), r.u16(), r.u8()), (Some(3), Some(2), Some(140), Some(140), Some(2)));
    // The stack.
    assert_eq!((r.u8(), r.u16(), r.u16()), (Some(0x48), Some(0), Some(0x000F)));
    assert_eq!((r.u16(), r.u16(), r.str_u16(), r.i32()), (Some(2), Some(2), Some("gem".to_string()), Some(6)));
    // The object.
    assert_eq!((r.u8(), r.u32(), r.u16()), (Some(0x61), Some(5), Some(1)));
    assert_eq!(r.str_u16(), Some("{\"kind\":\"trader\"}".to_string()));
    assert_eq!(r.u8(), Some(POOL_TERMINATOR));
    assert_eq!(r.remaining(), 0);
    assert_eq!(known.objects[0].json, "{\"kind\":\"none\"}");
}

fn empty_delta(tick: u32, acked: u32) -> Vec<u8> {
    let mut w = BufWriter::new();
    w.u8(MSG_SERVER_DELTA);
    w.u32(tick);
    w.u32(acked);
    w.u8(POOL_TERMINATOR);
    w.into_vec()
}

#[test]
fn what_is_known_is_not_told_again() {
    let mut sim = island();
    sim.join_player("u", "Ann", None, 1);
    let mut known = ClientWireState::default();
    encode_baseline(&sim, &mut known);
    assert_eq!(encode_delta(&sim, &mut known, 3), empty_delta(0, 3));
    sim.players.hp_cur[0] = 7;
    sim.mobs.xs[0] = 1;
    sim.set_obj(2, 0, Obj::Bush { berries: 1, regrow: 9 });
    let v = encode_delta(&sim, &mut known, 4);
    let mut expected = BufWriter::new();
    expected.u8(MSG_SERVER_DELTA);
    expected.u32(0);
    expected.u32(4);
    expected.bytes(&[0x00, 0, 0, 4, 0, 7, 0]);
    expected.bytes(&[0x20, 0, 0, 1, 0, 1, 0]);
    expected.bytes(&[0x61, 2, 0, 0, 0, 1, 0]);
    expected.str_u16("{\"kind\":\"bush\",\"berries\":1,\"regrow\":9}");
    expected.u8(POOL_TERMINATOR);
    assert_eq!(v, expected.into_vec());
    assert_eq!(encode_delta(&sim, &mut known, 5), empty_delta(0, 5));
}

#[test]
fn changes_are_told_once_even_to_those_who_know_nothing() {
    let mut sim = island();
    sim.join_player("u", "Ann", None, 1);
    sim.set_obj(2, 0, Obj::Bush { berries: 1, regrow: 9 });
    let mut known = ClientWireState::default();
    let first = encode_delta(&sim, &mut known, 0);
    assert!(first.len() > empty_delta(0, 0).len());
    assert_eq!(encode_delta(&sim, &mut known, 6), empty_delta(0, 6));
    assert_eq!(encode_delta(&sim, &mut known, 7), empty_delta(0, 7));
}

#[test]
fn those_who_come_and_go_are_told() {
    let mut sim = island();
    let mut known = ClientWireState::default();
    encode_baseline(&sim, &mut known);
    let pid = sim.join_player("u", "Ann", None, 1);
    let v = encode_delta(&sim, &mut known, 0);
    assert_eq!(&v[9..12], &[0x08, 0, 0]);
    sim.players.despawn(pid);
    sim.mobs.respawn_at[0] = 50;
    let v = encode_delta(&sim, &mut known, 0);
    assert_eq!(&v[9..], &[0x10, 0, 0, 0x30, 0, 0, POOL_TERMINATOR]);
    assert_eq!(encode_delta(&sim, &mut known, 0), empty_delta(0, 0));
}

fn line(id: u64, pid: u32, name: &str, text: &str) -> ChatMsg {
    ChatMsg { id, tick: 7, pid, name: name.to_string(), text: text.to_string() }
}

#[test]
fn lines_are_sent_in_order() {
    assert!(encode_log_lines(&[]).is_none());
    let v = encode_log_lines(&["a".to_string(), "bc".to_string()]).unwrap();
    assert_eq!(v, vec![MSG_SERVER_LOG, 2, 0, 1, 0, b'a', 2, 0, b'b', b'c']);
    assert!(encode_chat(1, &[], &[]).is_none());
    let v = encode_chat(0x5_0000_0109, &[line(1, 4, "A", "x")], &[line(0x1_0000_0002, 0, "S", "y")]).unwrap();
    assert_eq!(&v[..7], &[MSG_SERVER_CHAT, 9, 1, 0, 0, 2, 0]);
    let mut r = BufReader::new(&v);
    assert_eq!((r.u8(), r.u32(), r.u16()), (Some(MSG_SERVER_CHAT), Some(0x109), Some(2)));
    assert_eq!((r.u32(), r.u32(), r.u32()), (Some(1), Some(7), Some(4)));
    assert_eq!((r.str_u16().unwrap(), r.str_u16().unwrap()), ("A".to_string(), "x".to_string()));
    assert_eq!((r.u32(), r.u32(), r.u32()), (Some(2), Some(7), Some(0)));
    assert_eq!((r.str_u16().unwrap(), r.str_u16().unwrap()), ("S".to_string(), "y".to_string()));
    assert_eq!(r.remaining(), 0);
}

#[test]
fn events_have_numbers() {
    assert!(encode_events(1, &[]).is_none());
    let events = [
        EventRec::Chop { x: 1, y: -1 },
        EventRec::Mine { x: 2, y: 3 },
        EventRec::Pick { x: 2, y: 3 },
        EventRec::Fish { x: 2, y: 3 },
        EventRec::HitMob { x: 4, y: 5, dmg: 300 },
        EventRec::MissMob { x: 4, y: 5 },
        EventRec::HitPlayer { x: 6, y: 7, dmg: 1 },
        EventRec::MissPlayer { x: 6, y: 7 },
    ];
    let v = encode_events(0x1_0000_0009, &events).unwrap();
    assert_eq!(&v[..7], &[MSG_SERVER_EVENTS, 9, 0, 0, 0, 8, 0]);
    assert_eq!(&v[7..12], &[0, 1, 0, 0xFF, 0xFF]);
    assert_eq!(&v[12..27], &[1, 2, 0, 3, 0, 2, 2, 0, 3, 0, 3, 2, 0, 3, 0]);
    assert_eq!(&v[27..34], &[4, 4, 0, 5, 0, 44, 1]);
    assert_eq!(&v[34..], &[5, 4, 0, 5, 0, 6, 6, 0, 7, 0, 1, 0, 7, 6, 0, 7, 0]);
}

#[test]
fn commands_are_decoded() {
    let mut w = BufWriter::new();
    w.u8(1);
    w.i32(-3);
    w.i32(40);
    assert!(matches!(decode_command(&w.into_vec()), Some(ClientCmd::Click { x: -3, y: 40 })));
    assert!(matches!(decode_command(&[2, 9, 0, 0, 0]), Some(ClientCmd::Attack { mid: 9 })));
    assert!(matches!(decode_command(&[3, 0, 0, 1, 0]), Some(ClientCmd::TradePlayer { pid: 0x10000 })));
    assert!(matches!(decode_command(&[4]), Some(ClientCmd::Stop)));
    assert!(matches!(decode_command(&[5, 27]), Some(ClientCmd::Eat { slot: 27 })));
    assert!(matches!(decode_command(&[6, 1]), Some(ClientCmd::Drop { slot: 1 })));
    assert!(matches!(decode_command(&[7, 2]), Some(ClientCmd::Equip { slot: 2 })));
    assert!(matches!(decode_command(&[10, 3]), Some(ClientCmd::Sell { slot: 3 })));
    assert!(matches!(decode_command(&[11]), Some(ClientCmd::CloseTrade)));
    assert!(matches!(decode_command(&[12]), Some(ClientCmd::CloseForge)));
    assert!(matches!(decode_command(&[13]), Some(ClientCmd::CloseAngler)));
    assert!(matches!(decode_command(&[16]), Some(ClientCmd::ClosePlayerTrade)));
    assert!(matches!(decode_command(&[17, 4]), Some(ClientCmd::TradeOfferSlot { slot: 4 })));
    assert!(matches!(decode_command(&[18]), Some(ClientCmd::TradeAccept)));
    assert!(matches!(decode_command(&[19]), Some(ClientCmd::TradeConfirm)));
    assert!(matches!(decode_command(&[20]), Some(ClientCmd::AngelConfirm)));
    assert!(matches!(decode_command(&[21]), Some(ClientCmd::AngelDecline)));
    for (kind, expected) in [(8u8, "legs"), (9, "iron_axe"), (14, "oakrod"), (15, "gold_helm")] {
        let mut w = BufWriter::new();
        w.u8(kind);
        w.str_u8(expected);
        let got = match decode_command(&w.into_vec()) {
            Some(ClientCmd::Unequip { slot }) => slot,
            Some(ClientCmd::Buy { item }) => item,
            Some(ClientCmd::AnglerBuy { item }) => item,
            Some(ClientCmd::Forge { item }) => item,
            _ => String::new(),
        };
        assert_eq!(got, expected);
    }
    let mut w = BufWriter::new();
    w.u8(22);
    w.str_u16("hi");
    match decode_command(&w.into_vec()) {
        Some(ClientCmd::Chat { text }) => assert_eq!(text, "hi"),
        _ => panic!("not a chat"),
    }
}

#[test]
fn cut_off_commands_are_none() {
    for b in [&[][..], &[0], &[23], &[255], &[1, 0, 0, 0, 0, 0, 0, 0], &[2, 1], &[5], &[9, 4, b'a'], &[22, 9]] {
        assert!(decode_command(b).is_none());
    }
}

#[test]
fn catalogs_list_what_there_is() {
    let v = encode_catalogs();
    assert_eq!(v[0], MSG_SERVER_CATALOGS);
    let mut r = BufReader::new(&v);
    r.pos = 1;
    let text = r.str_u16().unwrap();
    let blob: Value = serde_json::from_str(&text).unwrap();
    assert_eq!(blob["shop"].as_array().unwrap().len(), 8);
    assert_eq!(blob["shop"][4]["item"], Value::from("bronze_pickaxe"));
    assert_eq!(blob["shop"][4]["buy"], Value::from(15));
    assert_eq!(blob["sells"].as_array().unwrap().len(), 8 + 8 + 1 + 8 + 16 + 4);
    assert_eq!(blob["sells"][16]["name"], Value::from("Berries"));
    assert_eq!(blob["sells"][18]["sell"], Value::from(50));
    assert_eq!(blob["forge"].as_array().unwrap().len(), 20);
    assert_eq!(blob["forge"][19]["damage"], Value::from(80));
    assert_eq!(blob["forge"][19]["value"], Value::from(60000));
    assert_eq!(blob["angler"][3]["min_level"], Value::from(31));
    assert_eq!(blob["angler"][0]["resource_qty"], Value::from(10));
    assert_eq!(blob.to_string(), text);
}

#[test]
fn each_player_sees_its_own_view() {
    let mut sim = island();
    let a = sim.join_player("u", "Ann", None, 1);
    let b = sim.join_player("v", "Bob", None, 1);
    sim.players.ui[0].trade_open = true;
    sim.players.ui[0].forge_open = true;
    sim.begin_player_trade(a, b);
    sim.players.ui[0].trade_open = true;
    sim.trade_offer_slot(a, 0);
    let v = encode_youview(&sim, a);
    assert_eq!(v[0], MSG_SERVER_YOUVIEW);
    let mut r = BufReader::new(&v);
    r.pos = 1;
    let text = r.str_u16().unwrap();
    let blob: Value = serde_json::from_str(&text).unwrap();
    assert_eq!(blob["trade_open"], Value::from(true));
    assert_eq!(blob["forge_open"], Value::from(false));
    assert_eq!(blob["player_trade"]["partner_name"], Value::from("Bob"));
    assert_eq!(blob["player_trade"]["stage"], Value::from("offer"));
    assert_eq!(blob["player_trade"]["your_offer"][0]["name"], Value::from("Coins"));
    assert_eq!(blob["player_trade"]["your_offer"][0]["qty"], Value::from(50));
    assert_eq!(blob["player_trade"]["their_offer"].as_array().unwrap().len(), 0);
    assert_eq!(blob.to_string(), text);
    sim.players.despawn(b);
    assert_eq!(encode_youview(&sim, b), vec![MSG_SERVER_YOUVIEW]);
    assert_eq!(encode_youview(&sim, 900), vec![MSG_SERVER_YOUVIEW]);
}
