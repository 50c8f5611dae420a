//! JSON texts: compact objects with their members in a fixed order.

use vstd::prelude::*;
use crate::text::{decimal, int_text, join3, join5, join_texts, joined, nat_text};
use crate::types::{slots_of, texts_of, EquipV, SlotV};
use crate::types::{Equipment, InvSlot, Intent, Obj, Skills, TradeStage, UiState};

verus! {

/// A hexadecimal digit in lower case.
pub open spec fn hex_char(d: int) -> char {
    if d < 10 {
        (48 + d) as char
    } else {
        (87 + d) as char
    }
}

/// A character as it stands in a JSON string.
pub open spec fn escape(c: char) -> Seq<char> {
    if c == '"' {
        seq!['\\', '"']
    } else if c == '\\' {
        seq!['\\', '\\']
    } else if c as u32 == 8 {
        seq!['\\', 'b']
    } else if c as u32 == 9 {
        seq!['\\', 't']
    } else if c as u32 == 10 {
        seq!['\\', 'n']
    } else if c as u32 == 12 {
        seq!['\\', 'f']
    } else if c as u32 == 13 {
        seq!['\\', 'r']
    } else if (c as u32) < 32 {
        seq!['\\', 'u', '0', '0', hex_char(c as int / 16), hex_char(c as int % 16)]
    } else {
        seq![c]
    }
}

/// A text with its characters as they stand in a JSON string.
pub open spec fn escaped(s: Seq<char>) -> Seq<char>
    decreases s.len(),
{
    if s.len() == 0 {
        Seq::empty()
    } else {
        escaped(s.drop_last()) + escape(s.last())
    }
}

/// A text as a JSON string.
pub open spec fn quoted(s: Seq<char>) -> Seq<char> {
    seq!['"'] + escaped(s) + seq!['"']
}

/// `serde_json::to_string` of a text: the text in quotation marks; quotation marks,
/// backslashes and the characters below U+0020 are escaped, those without a letter
/// of their own by four hexadecimal digits in lower case. It does not fail on a text.
#[verifier::external_body]
pub(crate) fn json_string(s: &str) -> (r: String)
    ensures
        r@ == quoted(s@),
{
    serde_json::to_string(s).unwrap_or_default()
}

/// A truth value in JSON.
pub open spec fn truth(b: bool) -> Seq<char> {
    if b {
        "true"@
    } else {
        "false"@
    }
}

/// A truth value in JSON.
pub fn truth_text(b: bool) -> (r: &'static str)
    ensures
        r@ == truth(b),
{
    if b {
        "true"
    } else {
        "false"
    }
}

/// A JSON array of the given values.
pub open spec fn array(values: Seq<Seq<char>>) -> Seq<char> {
    "["@ + joined(values, ","@) + "]"@
}

/// A JSON array of the given values.
pub fn array_text(values: &Vec<String>) -> (r: String)
    ensures
        r@ == array(texts_of(values@)),
{
    join3("[", join_texts(values, ",").as_str(), "]")
}

/// The skills in JSON.
pub open spec fn skills_json(s: Skills) -> Seq<char> {
    "{\"woodcutting\":"@ + decimal(s.woodcutting as int)
        + ",\"mining\":"@ + decimal(s.mining as int)
        + ",\"fishing\":"@ + decimal(s.fishing as int)
        + ",\"attack\":"@ + decimal(s.attack as int)
        + ",\"strength\":"@ + decimal(s.strength as int)
        + ",\"defence\":"@ + decimal(s.defence as int)
        + ",\"hp\":"@ + decimal(s.hp as int)
        + ",\"woodcutting_xp\":"@ + decimal(s.woodcutting_xp as int)
        + ",\"mining_xp\":"@ + decimal(s.mining_xp as int)
        + ",\"fishing_xp\":"@ + decimal(s.fishing_xp as int)
        + ",\"attack_xp\":"@ + decimal(s.attack_xp as int)
        + ",\"strength_xp\":"@ + decimal(s.strength_xp as int)
        + ",\"defence_xp\":"@ + decimal(s.defence_xp as int)
        + ",\"hp_xp\":"@ + decimal(s.hp_xp as int)
        + ",\"angel_points\":"@ + decimal(s.angel_points as int)
        + "}"@
}

/// The skills in JSON.
pub fn skills_text(s: &Skills) -> (r: String)
    ensures
        r@ == skills_json(*s),
{
    let mut out: String = "{\"woodcutting\":".to_owned();
    out.append(int_text(s.woodcutting as i64).as_str());
    out.append(",\"mining\":");
    out.append(int_text(s.mining as i64).as_str());
    out.append(",\"fishing\":");
    out.append(int_text(s.fishing as i64).as_str());
    out.append(",\"attack\":");
    out.append(int_text(s.attack as i64).as_str());
    out.append(",\"strength\":");
    out.append(int_text(s.strength as i64).as_str());
    out.append(",\"defence\":");
    out.append(int_text(s.defence as i64).as_str());
    out.append(",\"hp\":");
    out.append(int_text(s.hp as i64).as_str());
    out.append(",\"woodcutting_xp\":");
    out.append(int_text(s.woodcutting_xp as i64).as_str());
    out.append(",\"mining_xp\":");
    out.append(int_text(s.mining_xp as i64).as_str());
    out.append(",\"fishing_xp\":");
    out.append(int_text(s.fishing_xp as i64).as_str());
    out.append(",\"attack_xp\":");
    out.append(int_text(s.attack_xp as i64).as_str());
    out.append(",\"strength_xp\":");
    out.append(int_text(s.strength_xp as i64).as_str());
    out.append(",\"defence_xp\":");
    out.append(int_text(s.defence_xp as i64).as_str());
    out.append(",\"hp_xp\":");
    out.append(int_text(s.hp_xp as i64).as_str());
    out.append(",\"angel_points\":");
    out.append(int_text(s.angel_points as i64).as_str());
    out.append("}");
    out
}

/// A slot in JSON.
pub open spec fn slot_json(s: SlotV) -> Seq<char> {
    "{\"item\":"@ + quoted(s.item) + ",\"qty\":"@ + decimal(s.qty as int) + "}"@
}

/// An inventory in JSON.
pub open spec fn inv_json(inv: Seq<SlotV>) -> Seq<char> {
    array(Seq::new(inv.len(), |k: int| slot_json(inv[k])))
}

fn slot_text(s: &InvSlot) -> (r: String)
    ensures
        r@ == slot_json(s@),
{
    join5(
        "{\"item\":",
        json_string(s.item.as_str()).as_str(),
        ",\"qty\":",
        int_text(s.qty as i64).as_str(),
        "}",
    )
}

/// An inventory in JSON.
pub fn inv_text(inv: &[InvSlot]) -> (r: String)
    ensures
        r@ == inv_json(slots_of(inv@)),
{
    let mut parts: Vec<String> = Vec::new();
    let mut k: usize = 0;
    while k < inv.len()
        invariant
            k <= inv.len(),
            parts@.len() == k,
            forall|j: int| 0 <= j < k ==> (#[trigger] parts@[j])@ == slot_json(inv@[j]@),
        decreases inv.len() - k,
    {
        parts.push(slot_text(&inv[k]));
        k = k + 1;
    }
    assert(texts_of(parts@) =~= Seq::new(inv@.len(), |k: int| slot_json(slots_of(inv@)[k])));
    array_text(&parts)
}

/// The equipment in JSON.
pub open spec fn equipment_json(e: EquipV) -> Seq<char> {
    "{\"helmet\":"@ + quoted(e.helmet) + ",\"chest\":"@ + quoted(e.chest) + ",\"legs\":"@ + quoted(
        e.legs,
    ) + ",\"left_hand\":"@ + quoted(e.left_hand) + ",\"right_hand\":"@ + quoted(e.right_hand)
        + "}"@
}

/// The equipment in JSON.
pub fn equipment_text(e: &Equipment) -> (r: String)
    ensures
        r@ == equipment_json(e@),
{
    let mut out: String = "{\"helmet\":".to_owned();
    out.append(json_string(e.helmet.as_str()).as_str());
    out.append(",\"chest\":");
    out.append(json_string(e.chest.as_str()).as_str());
    out.append(",\"legs\":");
    out.append(json_string(e.legs.as_str()).as_str());
    out.append(",\"left_hand\":");
    out.append(json_string(e.left_hand.as_str()).as_str());
    out.append(",\"right_hand\":");
    out.append(json_string(e.right_hand.as_str()).as_str());
    out.append("}");
    out
}

/// What a player is about to do, in JSON.
pub open spec fn intent_json(i: Intent) -> Seq<char> {
    match i {
        Intent::Idle => "{\"k\":\"none\"}"@,
        Intent::Chop => "{\"k\":\"chop\"}"@,
        Intent::Mine => "{\"k\":\"mine\"}"@,
        Intent::Pick => "{\"k\":\"pick\"}"@,
        Intent::Fish => "{\"k\":\"fish\"}"@,
        Intent::Talk => "{\"k\":\"talk\"}"@,
        Intent::Pickup => "{\"k\":\"pickup\"}"@,
        Intent::Attack { mid } => "{\"k\":\"attack\",\"mid\":"@ + decimal(mid as int) + "}"@,
        Intent::Trade { pid } => "{\"k\":\"trade\",\"pid\":"@ + decimal(pid as int) + "}"@,
    }
}

/// What a player is about to do, in JSON.
pub fn intent_text(i: Intent) -> (r: String)
    ensures
        r@ == intent_json(i),
{
    match i {
        Intent::Idle => "{\"k\":\"none\"}".to_owned(),
        Intent::Chop => "{\"k\":\"chop\"}".to_owned(),
        Intent::Mine => "{\"k\":\"mine\"}".to_owned(),
        Intent::Pick => "{\"k\":\"pick\"}".to_owned(),
        Intent::Fish => "{\"k\":\"fish\"}".to_owned(),
        Intent::Talk => "{\"k\":\"talk\"}".to_owned(),
        Intent::Pickup => "{\"k\":\"pickup\"}".to_owned(),
        Intent::Attack { mid } => join3(
            "{\"k\":\"attack\",\"mid\":",
            nat_text(mid as u64).as_str(),
            "}",
        ),
        Intent::Trade { pid } => join3(
            "{\"k\":\"trade\",\"pid\":",
            nat_text(pid as u64).as_str(),
            "}",
        ),
    }
}

/// A target in JSON: a pair of coordinates, or nothing.
pub open spec fn target_json(t: Option<(i32, i32)>) -> Seq<char> {
    match t {
        Some(p) => "["@ + decimal(p.0 as int) + ","@ + decimal(p.1 as int) + "]"@,
        None => "null"@,
    }
}

/// A target in JSON.
pub fn target_text(t: Option<(i32, i32)>) -> (r: String)
    ensures
        r@ == target_json(t),
{
    match t {
        Some(p) => join5(
            "[",
            int_text(p.0 as i64).as_str(),
            ",",
            int_text(p.1 as i64).as_str(),
            "]",
        ),
        None => "null".to_owned(),
    }
}

/// The open windows in JSON.
pub open spec fn ui_json(ui: UiState) -> Seq<char> {
    "{\"angel_modal_open\":"@ + truth(ui.angel_modal_open) + ",\"angler_open\":"@ + truth(
        ui.angler_open,
    ) + ",\"forge_open\":"@ + truth(ui.forge_open) + ",\"trade_open\":"@ + truth(ui.trade_open)
        + "}"@
}

/// The open windows in JSON.
pub fn ui_text(ui: UiState) -> (r: String)
    ensures
        r@ == ui_json(ui),
{
    let mut out: String = "{\"angel_modal_open\":".to_owned();
    out.append(truth_text(ui.angel_modal_open));
    out.append(",\"angler_open\":");
    out.append(truth_text(ui.angler_open));
    out.append(",\"forge_open\":");
    out.append(truth_text(ui.forge_open));
    out.append(",\"trade_open\":");
    out.append(truth_text(ui.trade_open));
    out.append("}");
    out
}

/// An object in JSON.
pub open spec fn obj_json(o: Obj) -> Seq<char> {
    match o {
        Obj::Empty => "{\"kind\":\"none\"}"@,
        Obj::Boulder => "{\"kind\":\"boulder\"}"@,
        Obj::Trader => "{\"kind\":\"trader\"}"@,
        Obj::Angel => "{\"kind\":\"angel\"}"@,
        Obj::Blacksmith => "{\"kind\":\"blacksmith\"}"@,
        Obj::Angler => "{\"kind\":\"angler\"}"@,
        Obj::Tree { tier, hp } => "{\"kind\":\"tree\",\"tier\":"@ + decimal(tier as int) + ",\"hp\":"@
            + decimal(hp as int) + "}"@,
        Obj::Stump { tier, regrow } => "{\"kind\":\"stump\",\"tier\":"@ + decimal(tier as int) + ",\"regrow\":"@
            + decimal(regrow as int) + "}"@,
        Obj::Rock { tier, hp } => "{\"kind\":\"rock\",\"tier\":"@ + decimal(tier as int) + ",\"hp\":"@
            + decimal(hp as int) + "}"@,
        Obj::DepletedRock { tier, regrow } => "{\"kind\":\"depleted_rock\",\"tier\":"@ + decimal(tier as int) + ",\"regrow\":"@
            + decimal(regrow as int) + "}"@,
        Obj::Bush { berries, regrow } => "{\"kind\":\"bush\",\"berries\":"@ + decimal(berries as int) + ",\"regrow\":"@
            + decimal(regrow as int) + "}"@,
    }
}

/// An object in JSON.
pub fn obj_text(o: Obj) -> (r: String)
    ensures
        r@ == obj_json(o),
{
    match o {
        Obj::Empty => "{\"kind\":\"none\"}".to_owned(),
        Obj::Boulder => "{\"kind\":\"boulder\"}".to_owned(),
        Obj::Trader => "{\"kind\":\"trader\"}".to_owned(),
        Obj::Angel => "{\"kind\":\"angel\"}".to_owned(),
        Obj::Blacksmith => "{\"kind\":\"blacksmith\"}".to_owned(),
        Obj::Angler => "{\"kind\":\"angler\"}".to_owned(),
        Obj::Tree { tier, hp } => join5(
            "{\"kind\":\"tree\",\"tier\":",
            int_text(tier as i64).as_str(),
            ",\"hp\":",
            int_text(hp as i64).as_str(),
            "}",
        ),
        Obj::Stump { tier, regrow } => join5(
            "{\"kind\":\"stump\",\"tier\":",
            int_text(tier as i64).as_str(),
            ",\"regrow\":",
            nat_text(regrow).as_str(),
            "}",
        ),
        Obj::Rock { tier, hp } => join5(
            "{\"kind\":\"rock\",\"tier\":",
            int_text(tier as i64).as_str(),
            ",\"hp\":",
            int_text(hp as i64).as_str(),
            "}",
        ),
        Obj::DepletedRock { tier, regrow } => join5(
            "{\"kind\":\"depleted_rock\",\"tier\":",
            int_text(tier as i64).as_str(),
            ",\"regrow\":",
            nat_text(regrow).as_str(),
            "}",
        ),
        Obj::Bush { berries, regrow } => join5(
            "{\"kind\":\"bush\",\"berries\":",
            int_text(berries as i64).as_str(),
            ",\"regrow\":",
            nat_text(regrow).as_str(),
            "}",
        ),
    }
}

/// The stage of a trade in JSON.
pub open spec fn stage_json(s: TradeStage) -> Seq<char> {
    match s {
        TradeStage::Offer => "\"offer\""@,
        TradeStage::Confirm => "\"confirm\""@,
    }
}

/// The stage of a trade in JSON.
pub fn stage_text(s: TradeStage) -> (r: &'static str)
    ensures
        r@ == stage_json(s),
{
    match s {
        TradeStage::Offer => "\"offer\"",
        TradeStage::Confirm => "\"confirm\"",
    }
}

} // verus!
