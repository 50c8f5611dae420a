//! Texts, names, identities and JSON.

use serde_json::Value;
use tradscape::chat::clean_name;
use tradscape::handle::Handle;
use tradscape::json::{
    array_text, equipment_text, intent_text, inv_text, obj_text, skills_text, stage_text, target_text,
    truth_text, ui_text,
};
use tradscape::save::valid_uuid_or_new;
use tradscape::text::{
    chars_of, clean_chars, ends_with, int_text, is_control, is_white, join_texts, lowercase, nat_text,
    not_after, same_text, sort_texts, starts_with, text_of, trim,
};
use tradscape::types::{Equipment, Intent, InvSlot, Obj, Skills, TradeStage, UiState};

#[test]
fn white_space_and_controls_are_those_of_unicode() {
    for n in 0..=0x10FFFFu32 {
        if let Some(c) = char::from_u32(n) {
            assert_eq!(is_white(c), c.is_whitespace(), "U+{:X}", n);
            assert_eq!(is_control(c), c.is_control(), "U+{:X}", n);
        }
    }
}

#[test]
fn numbers_in_decimal() {
    for n in [0, 7, 10, 99, 100, 12345, u64::MAX] {
        assert_eq!(nat_text(n), n.to_string());
    }
    for n in [0, -1, 9, -10, i64::MAX, i64::MIN] {
        assert_eq!(int_text(n), n.to_string());
    }
}

#[test]
fn small_text_functions() {
    assert!(same_text("oak", "oak") && !same_text("oak", "oaks"));
    assert_eq!(lowercase("Oak ROD 7"), "oak rod 7");
    assert!(ends_with("iron_axe", "_axe") && !ends_with("axe", "_axe"));
    assert!(starts_with(&chars_of("/nick Bo"), "/nick "));
    assert_eq!(text_of(&trim(&chars_of(" \t a b\u{a0}"))), "a b");
    assert_eq!(text_of(&clean_chars(&chars_of("a\u{7}bcd"), 3)), "abc");
    assert!(not_after("a", "b") && not_after("a", "a") && !not_after("b", "a") && not_after("a", "ab"));
}

#[test]
fn texts_are_sorted_and_joined() {
    let v: Vec<String> = ["pear", "apple", "fig", "apple", ""].iter().map(|s| s.to_string()).collect();
    let mut expected = v.clone();
    expected.sort();
    assert_eq!(sort_texts(&v), expected);
    assert_eq!(join_texts(&expected, ", "), expected.join(", "));
    assert_eq!(join_texts(&Vec::new(), ", "), "");
}

#[test]
fn names_are_cleaned() {
    assert_eq!(clean_name("  Bob  "), "Bob");
    assert_eq!(clean_name("a\nb\u{7f}c"), "abc");
    assert_eq!(clean_name(""), "Adventurer");
    assert_eq!(clean_name(" \u{3000}\t "), "Adventurer");
    assert_eq!(clean_name("abcdefghijklmnopqrstuvwxyz"), "abcdefghijklmnopqrst");
    assert_eq!(clean_name("                    abc"), "Adventurer");
}

#[test]
fn a_clean_name_stays_as_it_is() {
    for name in ["  Bob  ", "a\nb", "", "abcdefghijklmnopqrs  uvwxyz", "\u{3000}x\u{85}", "Adventurer"] {
        let once = clean_name(name);
        assert!(1 <= once.chars().count() && once.chars().count() <= 20);
        assert_eq!(clean_name(&once), once);
    }
}

#[test]
fn identities_are_put_in_order() {
    let id = "550e8400-e29b-41d4-a716-446655440000";
    assert_eq!(valid_uuid_or_new(Some("550E8400-E29B-41D4-A716-446655440000")), id);
    assert_eq!(valid_uuid_or_new(Some("550e8400e29b41d4a716446655440000")), id);
    assert_eq!(valid_uuid_or_new(Some("{550E8400-e29b-41d4-a716-446655440000}")), id);
    assert_eq!(valid_uuid_or_new(Some("urn:uuid:550e8400-e29b-41d4-a716-446655440000")), id);
}

#[test]
fn those_without_an_identity_get_one() {
    for raw in [None, Some(""), Some("nobody"), Some("550e8400-e29b-41d4-a716-44665544000g")] {
        let a = valid_uuid_or_new(raw);
        let b = valid_uuid_or_new(raw);
        assert_eq!(a.len(), 36);
        assert_eq!(&a[14..15], "4");
        assert_ne!(a, b);
        assert_eq!(valid_uuid_or_new(Some(&a)), a);
    }
}

fn parsed(s: &str) -> Value {
    serde_json::from_str(s).unwrap()
}

#[test]
fn slots_in_json_keep_their_names() {
    let inv = [
        InvSlot { item: "a \"b\" \\ \u{1} \u{1f600} /\u{7f}\n".to_string(), qty: -3 },
        InvSlot { item: String::new(), qty: 0 },
    ];
    let text = inv_text(&inv);
    let v = parsed(&text);
    assert_eq!(v[0]["item"], Value::from(inv[0].item.clone()));
    assert_eq!(v[0]["qty"], Value::from(-3));
    assert_eq!(v[1]["item"], Value::from(""));
    assert!(text.starts_with("[{\"item\":\"a \\\"b\\\" \\\\ \\u0001 "));
    assert_eq!(inv_text(&[]), "[]");
}

#[test]
fn skills_in_json() {
    let mut s = Skills::starter();
    s.hp_xp = -9;
    let text = skills_text(&s);
    assert_eq!(
        text,
        "{\"woodcutting\":1,\"mining\":1,\"fishing\":1,\"attack\":1,\"strength\":1,\"defence\":1,\"hp\":10,\
         \"woodcutting_xp\":0,\"mining_xp\":0,\"fishing_xp\":0,\"attack_xp\":0,\"strength_xp\":0,\
         \"defence_xp\":0,\"hp_xp\":-9,\"angel_points\":0}"
    );
}

#[test]
fn small_values_in_json() {
    assert_eq!(intent_text(Intent::Idle), "{\"k\":\"none\"}");
    assert_eq!(intent_text(Intent::Attack { mid: 7 }), "{\"k\":\"attack\",\"mid\":7}");
    assert_eq!(intent_text(Intent::Trade { pid: 3 }), "{\"k\":\"trade\",\"pid\":3}");
    assert_eq!(target_text(None), "null");
    assert_eq!(target_text(Some((-1, 22))), "[-1,22]");
    assert_eq!(obj_text(Obj::Empty), "{\"kind\":\"none\"}");
    assert_eq!(obj_text(Obj::DepletedRock { tier: 2, regrow: 90 }), "{\"kind\":\"depleted_rock\",\"tier\":2,\"regrow\":90}");
    assert_eq!(obj_text(Obj::Bush { berries: 3, regrow: 0 }), "{\"kind\":\"bush\",\"berries\":3,\"regrow\":0}");
    assert_eq!(stage_text(TradeStage::Confirm), "\"confirm\"");
    assert_eq!(truth_text(true), "true");
    assert_eq!(array_text(&vec!["1".to_string(), "\"x\"".to_string()]), "[1,\"x\"]");
    let ui = UiState { trade_open: true, forge_open: false, angler_open: false, angel_modal_open: false };
    let v = parsed(&ui_text(ui));
    assert_eq!(v["trade_open"], Value::from(true));
    assert_eq!(v.to_string(), ui_text(ui));
    let mut e = Equipment::default();
    e.set("left_hand", "iron_shield".to_string());
    assert_eq!(
        equipment_text(&e),
        "{\"helmet\":\"\",\"chest\":\"\",\"legs\":\"\",\"left_hand\":\"iron_shield\",\"right_hand\":\"\"}"
    );
}

#[test]
fn handles_give_back_slot_and_generation() {
    let h = Handle::new(0x1234, 0xABCD);
    assert_eq!(h.0, 0xABCD1234);
    assert_eq!(h.idx(), 0x1234);
    assert_eq!(h.gen(), 0xABCD);
    assert!(!h.is_none());
    assert!(Handle::none().is_none());
    assert_eq!(Handle::default(), Handle(0));
    assert_ne!(Handle::new(5, 1), Handle::new(5, 2));
}
