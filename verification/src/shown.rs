//! That clients are shown things as they are: whatever is written in JSON for them is read back
//! by name.

use vstd::prelude::*;
use crate::defs::{
    armor_price, armors_table, fish_table, item_label, min_level, rocks_table, rod_price,
    sword_price, swords_table, tools_table, trees_table, ArmorDef, FishDef, ResourceDef, SwordDef,
    ToolDef, ANGLER_RESOURCE_QTY,
};
use crate::json::{
    array, equipment_json, intent_json, inv_json, obj_json, quoted, skills_json, slot_json,
    stage_json, target_json, truth, ui_json,
};
use crate::pools::PlayerV;
use crate::reading::{
    all_plain, element, int_in, law_arrays_are_whole, law_elements_read_back,
    law_numbers_read_back, law_strings_are_whole, law_truths_read_back, lemma_ends, lemma_member,
    lemma_object_goes_on, lemma_object_is_whole, lemma_whole_plain, opening, plain, under, whole,
};
use crate::sim::{is_angel, is_angler, is_blacksmith, is_trader, SimV};
use crate::text::decimal;
use crate::tick::derived;
use crate::types::{EquipV, Intent, Obj, Skills, SlotV, TradeStage, UiState};
use crate::views::{
    angler_json, angler_rows, armor_forge_json, armor_forge_rows, armor_sale_json,
    armor_sale_rows, berries_json, catalogs_json, catch_rows, decimals, fish_sale_json,
    offer_item_json, offer_rows, or_nothing, resource_sale_json, rock_sale_rows, rod_sale_json,
    sale_rows, shop_json, shop_rows, sword_forge_json, sword_forge_rows, sword_sale_json,
    sword_sale_rows, tool_sale_json, tool_sale_rows, trade_json, tree_sale_rows,
};

verus! {

proof fn lemma_next_angel_points()
    ensures
        ",\"angel_points\":"@ == opening(false, "angel_points"@),
        all_plain("angel_points"@),
{
    reveal(opening);
    reveal_strlit("angel_points");
    reveal_strlit(",\"angel_points\":");
    assert(",\"angel_points\":"@ =~= opening(false, "angel_points"@));
}

proof fn lemma_next_angler_open()
    ensures
        ",\"angler_open\":"@ == opening(false, "angler_open"@),
        all_plain("angler_open"@),
{
    reveal(opening);
    reveal_strlit("angler_open");
    reveal_strlit(",\"angler_open\":");
    assert(",\"angler_open\":"@ =~= opening(false, "angler_open"@));
}

proof fn lemma_next_armor_defence()
    ensures
        ",\"armor_defence\":"@ == opening(false, "armor_defence"@),
        all_plain("armor_defence"@),
{
    reveal(opening);
    reveal_strlit("armor_defence");
    reveal_strlit(",\"armor_defence\":");
    assert(",\"armor_defence\":"@ =~= opening(false, "armor_defence"@));
}

proof fn lemma_next_attack()
    ensures
        ",\"attack\":"@ == opening(false, "attack"@),
        all_plain("attack"@),
{
    reveal(opening);
    reveal_strlit("attack");
    reveal_strlit(",\"attack\":");
    assert(",\"attack\":"@ =~= opening(false, "attack"@));
}

proof fn lemma_next_attack_xp()
    ensures
        ",\"attack_xp\":"@ == opening(false, "attack_xp"@),
        all_plain("attack_xp"@),
{
    reveal(opening);
    reveal_strlit("attack_xp");
    reveal_strlit(",\"attack_xp\":");
    assert(",\"attack_xp\":"@ =~= opening(false, "attack_xp"@));
}

proof fn lemma_next_axe_tier()
    ensures
        ",\"axe_tier\":"@ == opening(false, "axe_tier"@),
        all_plain("axe_tier"@),
{
    reveal(opening);
    reveal_strlit("axe_tier");
    reveal_strlit(",\"axe_tier\":");
    assert(",\"axe_tier\":"@ =~= opening(false, "axe_tier"@));
}

proof fn lemma_next_berries()
    ensures
        ",\"berries\":"@ == opening(false, "berries"@),
        all_plain("berries"@),
{
    reveal(opening);
    reveal_strlit("berries");
    reveal_strlit(",\"berries\":");
    assert(",\"berries\":"@ =~= opening(false, "berries"@));
}

proof fn lemma_next_chest()
    ensures
        ",\"chest\":"@ == opening(false, "chest"@),
        all_plain("chest"@),
{
    reveal(opening);
    reveal_strlit("chest");
    reveal_strlit(",\"chest\":");
    assert(",\"chest\":"@ =~= opening(false, "chest"@));
}

proof fn lemma_next_defence()
    ensures
        ",\"defence\":"@ == opening(false, "defence"@),
        all_plain("defence"@),
{
    reveal(opening);
    reveal_strlit("defence");
    reveal_strlit(",\"defence\":");
    assert(",\"defence\":"@ =~= opening(false, "defence"@));
}

proof fn lemma_next_defence_xp()
    ensures
        ",\"defence_xp\":"@ == opening(false, "defence_xp"@),
        all_plain("defence_xp"@),
{
    reveal(opening);
    reveal_strlit("defence_xp");
    reveal_strlit(",\"defence_xp\":");
    assert(",\"defence_xp\":"@ =~= opening(false, "defence_xp"@));
}

proof fn lemma_next_fish_name()
    ensures
        ",\"fish_name\":"@ == opening(false, "fish_name"@),
        all_plain("fish_name"@),
{
    reveal(opening);
    reveal_strlit("fish_name");
    reveal_strlit(",\"fish_name\":");
    assert(",\"fish_name\":"@ =~= opening(false, "fish_name"@));
}

proof fn lemma_next_fishing()
    ensures
        ",\"fishing\":"@ == opening(false, "fishing"@),
        all_plain("fishing"@),
{
    reveal(opening);
    reveal_strlit("fishing");
    reveal_strlit(",\"fishing\":");
    assert(",\"fishing\":"@ =~= opening(false, "fishing"@));
}

proof fn lemma_next_fishing_xp()
    ensures
        ",\"fishing_xp\":"@ == opening(false, "fishing_xp"@),
        all_plain("fishing_xp"@),
{
    reveal(opening);
    reveal_strlit("fishing_xp");
    reveal_strlit(",\"fishing_xp\":");
    assert(",\"fishing_xp\":"@ =~= opening(false, "fishing_xp"@));
}

proof fn lemma_next_forge()
    ensures
        ",\"forge\":"@ == opening(false, "forge"@),
        all_plain("forge"@),
{
    reveal(opening);
    reveal_strlit("forge");
    reveal_strlit(",\"forge\":");
    assert(",\"forge\":"@ =~= opening(false, "forge"@));
}

proof fn lemma_next_forge_open()
    ensures
        ",\"forge_open\":"@ == opening(false, "forge_open"@),
        all_plain("forge_open"@),
{
    reveal(opening);
    reveal_strlit("forge_open");
    reveal_strlit(",\"forge_open\":");
    assert(",\"forge_open\":"@ =~= opening(false, "forge_open"@));
}

proof fn lemma_next_heal()
    ensures
        ",\"heal\":"@ == opening(false, "heal"@),
        all_plain("heal"@),
{
    reveal(opening);
    reveal_strlit("heal");
    reveal_strlit(",\"heal\":");
    assert(",\"heal\":"@ =~= opening(false, "heal"@));
}

proof fn lemma_next_hp()
    ensures
        ",\"hp\":"@ == opening(false, "hp"@),
        all_plain("hp"@),
{
    reveal(opening);
    reveal_strlit("hp");
    reveal_strlit(",\"hp\":");
    assert(",\"hp\":"@ =~= opening(false, "hp"@));
}

proof fn lemma_next_hp_xp()
    ensures
        ",\"hp_xp\":"@ == opening(false, "hp_xp"@),
        all_plain("hp_xp"@),
{
    reveal(opening);
    reveal_strlit("hp_xp");
    reveal_strlit(",\"hp_xp\":");
    assert(",\"hp_xp\":"@ =~= opening(false, "hp_xp"@));
}

proof fn lemma_next_item()
    ensures
        ",\"item\":"@ == opening(false, "item"@),
        all_plain("item"@),
{
    reveal(opening);
    reveal_strlit("item");
    reveal_strlit(",\"item\":");
    assert(",\"item\":"@ =~= opening(false, "item"@));
}

proof fn lemma_next_kind()
    ensures
        ",\"kind\":"@ == opening(false, "kind"@),
        all_plain("kind"@),
{
    reveal(opening);
    reveal_strlit("kind");
    reveal_strlit(",\"kind\":");
    assert(",\"kind\":"@ =~= opening(false, "kind"@));
}

proof fn lemma_next_left_hand()
    ensures
        ",\"left_hand\":"@ == opening(false, "left_hand"@),
        all_plain("left_hand"@),
{
    reveal(opening);
    reveal_strlit("left_hand");
    reveal_strlit(",\"left_hand\":");
    assert(",\"left_hand\":"@ =~= opening(false, "left_hand"@));
}

proof fn lemma_next_legs()
    ensures
        ",\"legs\":"@ == opening(false, "legs"@),
        all_plain("legs"@),
{
    reveal(opening);
    reveal_strlit("legs");
    reveal_strlit(",\"legs\":");
    assert(",\"legs\":"@ =~= opening(false, "legs"@));
}

proof fn lemma_next_mid()
    ensures
        ",\"mid\":"@ == opening(false, "mid"@),
        all_plain("mid"@),
{
    reveal(opening);
    reveal_strlit("mid");
    reveal_strlit(",\"mid\":");
    assert(",\"mid\":"@ =~= opening(false, "mid"@));
}

proof fn lemma_next_min_level()
    ensures
        ",\"min_level\":"@ == opening(false, "min_level"@),
        all_plain("min_level"@),
{
    reveal(opening);
    reveal_strlit("min_level");
    reveal_strlit(",\"min_level\":");
    assert(",\"min_level\":"@ =~= opening(false, "min_level"@));
}

proof fn lemma_next_mining()
    ensures
        ",\"mining\":"@ == opening(false, "mining"@),
        all_plain("mining"@),
{
    reveal(opening);
    reveal_strlit("mining");
    reveal_strlit(",\"mining\":");
    assert(",\"mining\":"@ =~= opening(false, "mining"@));
}

proof fn lemma_next_mining_xp()
    ensures
        ",\"mining_xp\":"@ == opening(false, "mining_xp"@),
        all_plain("mining_xp"@),
{
    reveal(opening);
    reveal_strlit("mining_xp");
    reveal_strlit(",\"mining_xp\":");
    assert(",\"mining_xp\":"@ =~= opening(false, "mining_xp"@));
}

proof fn lemma_next_name()
    ensures
        ",\"name\":"@ == opening(false, "name"@),
        all_plain("name"@),
{
    reveal(opening);
    reveal_strlit("name");
    reveal_strlit(",\"name\":");
    assert(",\"name\":"@ =~= opening(false, "name"@));
}

proof fn lemma_next_ore()
    ensures
        ",\"ore\":"@ == opening(false, "ore"@),
        all_plain("ore"@),
{
    reveal(opening);
    reveal_strlit("ore");
    reveal_strlit(",\"ore\":");
    assert(",\"ore\":"@ =~= opening(false, "ore"@));
}

proof fn lemma_next_ore_qty()
    ensures
        ",\"ore_qty\":"@ == opening(false, "ore_qty"@),
        all_plain("ore_qty"@),
{
    reveal(opening);
    reveal_strlit("ore_qty");
    reveal_strlit(",\"ore_qty\":");
    assert(",\"ore_qty\":"@ =~= opening(false, "ore_qty"@));
}

proof fn lemma_next_partner_id()
    ensures
        ",\"partner_id\":"@ == opening(false, "partner_id"@),
        all_plain("partner_id"@),
{
    reveal(opening);
    reveal_strlit("partner_id");
    reveal_strlit(",\"partner_id\":");
    assert(",\"partner_id\":"@ =~= opening(false, "partner_id"@));
}

proof fn lemma_next_partner_name()
    ensures
        ",\"partner_name\":"@ == opening(false, "partner_name"@),
        all_plain("partner_name"@),
{
    reveal(opening);
    reveal_strlit("partner_name");
    reveal_strlit(",\"partner_name\":");
    assert(",\"partner_name\":"@ =~= opening(false, "partner_name"@));
}

proof fn lemma_next_pickaxe_tier()
    ensures
        ",\"pickaxe_tier\":"@ == opening(false, "pickaxe_tier"@),
        all_plain("pickaxe_tier"@),
{
    reveal(opening);
    reveal_strlit("pickaxe_tier");
    reveal_strlit(",\"pickaxe_tier\":");
    assert(",\"pickaxe_tier\":"@ =~= opening(false, "pickaxe_tier"@));
}

proof fn lemma_next_pid()
    ensures
        ",\"pid\":"@ == opening(false, "pid"@),
        all_plain("pid"@),
{
    reveal(opening);
    reveal_strlit("pid");
    reveal_strlit(",\"pid\":");
    assert(",\"pid\":"@ =~= opening(false, "pid"@));
}

proof fn lemma_next_player_trade()
    ensures
        ",\"player_trade\":"@ == opening(false, "player_trade"@),
        all_plain("player_trade"@),
{
    reveal(opening);
    reveal_strlit("player_trade");
    reveal_strlit(",\"player_trade\":");
    assert(",\"player_trade\":"@ =~= opening(false, "player_trade"@));
}

proof fn lemma_next_qty()
    ensures
        ",\"qty\":"@ == opening(false, "qty"@),
        all_plain("qty"@),
{
    reveal(opening);
    reveal_strlit("qty");
    reveal_strlit(",\"qty\":");
    assert(",\"qty\":"@ =~= opening(false, "qty"@));
}

proof fn lemma_next_regrow()
    ensures
        ",\"regrow\":"@ == opening(false, "regrow"@),
        all_plain("regrow"@),
{
    reveal(opening);
    reveal_strlit("regrow");
    reveal_strlit(",\"regrow\":");
    assert(",\"regrow\":"@ =~= opening(false, "regrow"@));
}

proof fn lemma_next_resource()
    ensures
        ",\"resource\":"@ == opening(false, "resource"@),
        all_plain("resource"@),
{
    reveal(opening);
    reveal_strlit("resource");
    reveal_strlit(",\"resource\":");
    assert(",\"resource\":"@ =~= opening(false, "resource"@));
}

proof fn lemma_next_resource_qty()
    ensures
        ",\"resource_qty\":"@ == opening(false, "resource_qty"@),
        all_plain("resource_qty"@),
{
    reveal(opening);
    reveal_strlit("resource_qty");
    reveal_strlit(",\"resource_qty\":");
    assert(",\"resource_qty\":"@ =~= opening(false, "resource_qty"@));
}

proof fn lemma_next_right_hand()
    ensures
        ",\"right_hand\":"@ == opening(false, "right_hand"@),
        all_plain("right_hand"@),
{
    reveal(opening);
    reveal_strlit("right_hand");
    reveal_strlit(",\"right_hand\":");
    assert(",\"right_hand\":"@ =~= opening(false, "right_hand"@));
}

proof fn lemma_next_rod()
    ensures
        ",\"rod\":"@ == opening(false, "rod"@),
        all_plain("rod"@),
{
    reveal(opening);
    reveal_strlit("rod");
    reveal_strlit(",\"rod\":");
    assert(",\"rod\":"@ =~= opening(false, "rod"@));
}

proof fn lemma_next_rod_name()
    ensures
        ",\"rod_name\":"@ == opening(false, "rod_name"@),
        all_plain("rod_name"@),
{
    reveal(opening);
    reveal_strlit("rod_name");
    reveal_strlit(",\"rod_name\":");
    assert(",\"rod_name\":"@ =~= opening(false, "rod_name"@));
}

proof fn lemma_next_rod_tier()
    ensures
        ",\"rod_tier\":"@ == opening(false, "rod_tier"@),
        all_plain("rod_tier"@),
{
    reveal(opening);
    reveal_strlit("rod_tier");
    reveal_strlit(",\"rod_tier\":");
    assert(",\"rod_tier\":"@ =~= opening(false, "rod_tier"@));
}

proof fn lemma_next_sell()
    ensures
        ",\"sell\":"@ == opening(false, "sell"@),
        all_plain("sell"@),
{
    reveal(opening);
    reveal_strlit("sell");
    reveal_strlit(",\"sell\":");
    assert(",\"sell\":"@ =~= opening(false, "sell"@));
}

proof fn lemma_next_sells()
    ensures
        ",\"sells\":"@ == opening(false, "sells"@),
        all_plain("sells"@),
{
    reveal(opening);
    reveal_strlit("sells");
    reveal_strlit(",\"sells\":");
    assert(",\"sells\":"@ =~= opening(false, "sells"@));
}

proof fn lemma_next_shop()
    ensures
        ",\"shop\":"@ == opening(false, "shop"@),
        all_plain("shop"@),
{
    reveal(opening);
    reveal_strlit("shop");
    reveal_strlit(",\"shop\":");
    assert(",\"shop\":"@ =~= opening(false, "shop"@));
}

proof fn lemma_next_slot()
    ensures
        ",\"slot\":"@ == opening(false, "slot"@),
        all_plain("slot"@),
{
    reveal(opening);
    reveal_strlit("slot");
    reveal_strlit(",\"slot\":");
    assert(",\"slot\":"@ =~= opening(false, "slot"@));
}

proof fn lemma_next_stage()
    ensures
        ",\"stage\":"@ == opening(false, "stage"@),
        all_plain("stage"@),
{
    reveal(opening);
    reveal_strlit("stage");
    reveal_strlit(",\"stage\":");
    assert(",\"stage\":"@ =~= opening(false, "stage"@));
}

proof fn lemma_next_strength()
    ensures
        ",\"strength\":"@ == opening(false, "strength"@),
        all_plain("strength"@),
{
    reveal(opening);
    reveal_strlit("strength");
    reveal_strlit(",\"strength\":");
    assert(",\"strength\":"@ =~= opening(false, "strength"@));
}

proof fn lemma_next_strength_xp()
    ensures
        ",\"strength_xp\":"@ == opening(false, "strength_xp"@),
        all_plain("strength_xp"@),
{
    reveal(opening);
    reveal_strlit("strength_xp");
    reveal_strlit(",\"strength_xp\":");
    assert(",\"strength_xp\":"@ =~= opening(false, "strength_xp"@));
}

proof fn lemma_next_their_accepted()
    ensures
        ",\"their_accepted\":"@ == opening(false, "their_accepted"@),
        all_plain("their_accepted"@),
{
    reveal(opening);
    reveal_strlit("their_accepted");
    reveal_strlit(",\"their_accepted\":");
    assert(",\"their_accepted\":"@ =~= opening(false, "their_accepted"@));
}

proof fn lemma_next_their_confirmed()
    ensures
        ",\"their_confirmed\":"@ == opening(false, "their_confirmed"@),
        all_plain("their_confirmed"@),
{
    reveal(opening);
    reveal_strlit("their_confirmed");
    reveal_strlit(",\"their_confirmed\":");
    assert(",\"their_confirmed\":"@ =~= opening(false, "their_confirmed"@));
}

proof fn lemma_next_their_offer()
    ensures
        ",\"their_offer\":"@ == opening(false, "their_offer"@),
        all_plain("their_offer"@),
{
    reveal(opening);
    reveal_strlit("their_offer");
    reveal_strlit(",\"their_offer\":");
    assert(",\"their_offer\":"@ =~= opening(false, "their_offer"@));
}

proof fn lemma_next_tier()
    ensures
        ",\"tier\":"@ == opening(false, "tier"@),
        all_plain("tier"@),
{
    reveal(opening);
    reveal_strlit("tier");
    reveal_strlit(",\"tier\":");
    assert(",\"tier\":"@ =~= opening(false, "tier"@));
}

proof fn lemma_next_trade_open()
    ensures
        ",\"trade_open\":"@ == opening(false, "trade_open"@),
        all_plain("trade_open"@),
{
    reveal(opening);
    reveal_strlit("trade_open");
    reveal_strlit(",\"trade_open\":");
    assert(",\"trade_open\":"@ =~= opening(false, "trade_open"@));
}

proof fn lemma_next_value()
    ensures
        ",\"value\":"@ == opening(false, "value"@),
        all_plain("value"@),
{
    reveal(opening);
    reveal_strlit("value");
    reveal_strlit(",\"value\":");
    assert(",\"value\":"@ =~= opening(false, "value"@));
}

proof fn lemma_next_weapon_damage()
    ensures
        ",\"weapon_damage\":"@ == opening(false, "weapon_damage"@),
        all_plain("weapon_damage"@),
{
    reveal(opening);
    reveal_strlit("weapon_damage");
    reveal_strlit(",\"weapon_damage\":");
    assert(",\"weapon_damage\":"@ =~= opening(false, "weapon_damage"@));
}

proof fn lemma_next_woodcutting_xp()
    ensures
        ",\"woodcutting_xp\":"@ == opening(false, "woodcutting_xp"@),
        all_plain("woodcutting_xp"@),
{
    reveal(opening);
    reveal_strlit("woodcutting_xp");
    reveal_strlit(",\"woodcutting_xp\":");
    assert(",\"woodcutting_xp\":"@ =~= opening(false, "woodcutting_xp"@));
}

proof fn lemma_next_xp()
    ensures
        ",\"xp\":"@ == opening(false, "xp"@),
        all_plain("xp"@),
{
    reveal(opening);
    reveal_strlit("xp");
    reveal_strlit(",\"xp\":");
    assert(",\"xp\":"@ =~= opening(false, "xp"@));
}

proof fn lemma_next_your_accepted()
    ensures
        ",\"your_accepted\":"@ == opening(false, "your_accepted"@),
        all_plain("your_accepted"@),
{
    reveal(opening);
    reveal_strlit("your_accepted");
    reveal_strlit(",\"your_accepted\":");
    assert(",\"your_accepted\":"@ =~= opening(false, "your_accepted"@));
}

proof fn lemma_next_your_confirmed()
    ensures
        ",\"your_confirmed\":"@ == opening(false, "your_confirmed"@),
        all_plain("your_confirmed"@),
{
    reveal(opening);
    reveal_strlit("your_confirmed");
    reveal_strlit(",\"your_confirmed\":");
    assert(",\"your_confirmed\":"@ =~= opening(false, "your_confirmed"@));
}

proof fn lemma_next_your_offer()
    ensures
        ",\"your_offer\":"@ == opening(false, "your_offer"@),
        all_plain("your_offer"@),
{
    reveal(opening);
    reveal_strlit("your_offer");
    reveal_strlit(",\"your_offer\":");
    assert(",\"your_offer\":"@ =~= opening(false, "your_offer"@));
}

proof fn lemma_next_your_offer_slots()
    ensures
        ",\"your_offer_slots\":"@ == opening(false, "your_offer_slots"@),
        all_plain("your_offer_slots"@),
{
    reveal(opening);
    reveal_strlit("your_offer_slots");
    reveal_strlit(",\"your_offer_slots\":");
    assert(",\"your_offer_slots\":"@ =~= opening(false, "your_offer_slots"@));
}

proof fn lemma_first_angel_modal_open()
    ensures
        "{\"angel_modal_open\":"@ == opening(true, "angel_modal_open"@),
        all_plain("angel_modal_open"@),
{
    reveal(opening);
    reveal_strlit("angel_modal_open");
    reveal_strlit("{\"angel_modal_open\":");
    assert("{\"angel_modal_open\":"@ =~= opening(true, "angel_modal_open"@));
}

proof fn lemma_first_angler()
    ensures
        "{\"angler\":"@ == opening(true, "angler"@),
        all_plain("angler"@),
{
    reveal(opening);
    reveal_strlit("angler");
    reveal_strlit("{\"angler\":");
    assert("{\"angler\":"@ =~= opening(true, "angler"@));
}

proof fn lemma_first_buy()
    ensures
        "{\"buy\":"@ == opening(true, "buy"@),
        all_plain("buy"@),
{
    reveal(opening);
    reveal_strlit("buy");
    reveal_strlit("{\"buy\":");
    assert("{\"buy\":"@ =~= opening(true, "buy"@));
}

proof fn lemma_first_damage()
    ensures
        "{\"damage\":"@ == opening(true, "damage"@),
        all_plain("damage"@),
{
    reveal(opening);
    reveal_strlit("damage");
    reveal_strlit("{\"damage\":");
    assert("{\"damage\":"@ =~= opening(true, "damage"@));
}

proof fn lemma_first_fish()
    ensures
        "{\"fish\":"@ == opening(true, "fish"@),
        all_plain("fish"@),
{
    reveal(opening);
    reveal_strlit("fish");
    reveal_strlit("{\"fish\":");
    assert("{\"fish\":"@ =~= opening(true, "fish"@));
}

proof fn lemma_first_helmet()
    ensures
        "{\"helmet\":"@ == opening(true, "helmet"@),
        all_plain("helmet"@),
{
    reveal(opening);
    reveal_strlit("helmet");
    reveal_strlit("{\"helmet\":");
    assert("{\"helmet\":"@ =~= opening(true, "helmet"@));
}

proof fn lemma_first_item()
    ensures
        "{\"item\":"@ == opening(true, "item"@),
        all_plain("item"@),
{
    reveal(opening);
    reveal_strlit("item");
    reveal_strlit("{\"item\":");
    assert("{\"item\":"@ =~= opening(true, "item"@));
}

proof fn lemma_first_k()
    ensures
        "{\"k\":"@ == opening(true, "k"@),
        all_plain("k"@),
{
    reveal(opening);
    reveal_strlit("k");
    reveal_strlit("{\"k\":");
    assert("{\"k\":"@ =~= opening(true, "k"@));
}

proof fn lemma_first_kind()
    ensures
        "{\"kind\":"@ == opening(true, "kind"@),
        all_plain("kind"@),
{
    reveal(opening);
    reveal_strlit("kind");
    reveal_strlit("{\"kind\":");
    assert("{\"kind\":"@ =~= opening(true, "kind"@));
}

proof fn lemma_first_open()
    ensures
        "{\"open\":"@ == opening(true, "open"@),
        all_plain("open"@),
{
    reveal(opening);
    reveal_strlit("open");
    reveal_strlit("{\"open\":");
    assert("{\"open\":"@ =~= opening(true, "open"@));
}

proof fn lemma_first_woodcutting()
    ensures
        "{\"woodcutting\":"@ == opening(true, "woodcutting"@),
        all_plain("woodcutting"@),
{
    reveal(opening);
    reveal_strlit("woodcutting");
    reveal_strlit("{\"woodcutting\":");
    assert("{\"woodcutting\":"@ =~= opening(true, "woodcutting"@));
}

proof fn lemma_kind_tree()
    ensures
        whole("\"tree\""@),
        "{\"kind\":\"tree\",\"tier\":"@ == "{\"kind\":"@ + "\"tree\""@ + ",\"tier\":"@,
{
    reveal_strlit("\"tree\"");
    reveal_strlit("tree");
    reveal_strlit("{\"kind\":\"tree\",\"tier\":");
    reveal_strlit("{\"kind\":");
    reveal_strlit(",\"tier\":");
    assert("{\"kind\":\"tree\",\"tier\":"@ =~= "{\"kind\":"@ + "\"tree\""@ + ",\"tier\":"@);
    law_strings_are_whole("tree"@);
    lemma_quoted_plain("tree"@);
    assert("\"tree\""@ =~= seq!['"'] + "tree"@ + seq!['"']);
}

proof fn lemma_kind_stump()
    ensures
        whole("\"stump\""@),
        "{\"kind\":\"stump\",\"tier\":"@ == "{\"kind\":"@ + "\"stump\""@ + ",\"tier\":"@,
{
    reveal_strlit("\"stump\"");
    reveal_strlit("stump");
    reveal_strlit("{\"kind\":\"stump\",\"tier\":");
    reveal_strlit("{\"kind\":");
    reveal_strlit(",\"tier\":");
    assert("{\"kind\":\"stump\",\"tier\":"@ =~= "{\"kind\":"@ + "\"stump\""@ + ",\"tier\":"@);
    law_strings_are_whole("stump"@);
    lemma_quoted_plain("stump"@);
    assert("\"stump\""@ =~= seq!['"'] + "stump"@ + seq!['"']);
}

proof fn lemma_kind_rock()
    ensures
        whole("\"rock\""@),
        "{\"kind\":\"rock\",\"tier\":"@ == "{\"kind\":"@ + "\"rock\""@ + ",\"tier\":"@,
{
    reveal_strlit("\"rock\"");
    reveal_strlit("rock");
    reveal_strlit("{\"kind\":\"rock\",\"tier\":");
    reveal_strlit("{\"kind\":");
    reveal_strlit(",\"tier\":");
    assert("{\"kind\":\"rock\",\"tier\":"@ =~= "{\"kind\":"@ + "\"rock\""@ + ",\"tier\":"@);
    law_strings_are_whole("rock"@);
    lemma_quoted_plain("rock"@);
    assert("\"rock\""@ =~= seq!['"'] + "rock"@ + seq!['"']);
}

proof fn lemma_kind_depleted_rock()
    ensures
        whole("\"depleted_rock\""@),
        "{\"kind\":\"depleted_rock\",\"tier\":"@ == "{\"kind\":"@ + "\"depleted_rock\""@ + ",\"tier\":"@,
{
    reveal_strlit("\"depleted_rock\"");
    reveal_strlit("depleted_rock");
    reveal_strlit("{\"kind\":\"depleted_rock\",\"tier\":");
    reveal_strlit("{\"kind\":");
    reveal_strlit(",\"tier\":");
    assert("{\"kind\":\"depleted_rock\",\"tier\":"@ =~= "{\"kind\":"@ + "\"depleted_rock\""@ + ",\"tier\":"@);
    law_strings_are_whole("depleted_rock"@);
    lemma_quoted_plain("depleted_rock"@);
    assert("\"depleted_rock\""@ =~= seq!['"'] + "depleted_rock"@ + seq!['"']);
}

proof fn lemma_kind_bush()
    ensures
        whole("\"bush\""@),
        "{\"kind\":\"bush\",\"berries\":"@ == "{\"kind\":"@ + "\"bush\""@ + ",\"berries\":"@,
{
    reveal_strlit("\"bush\"");
    reveal_strlit("bush");
    reveal_strlit("{\"kind\":\"bush\",\"berries\":");
    reveal_strlit("{\"kind\":");
    reveal_strlit(",\"berries\":");
    assert("{\"kind\":\"bush\",\"berries\":"@ =~= "{\"kind\":"@ + "\"bush\""@ + ",\"berries\":"@);
    law_strings_are_whole("bush"@);
    lemma_quoted_plain("bush"@);
    assert("\"bush\""@ =~= seq!['"'] + "bush"@ + seq!['"']);
}

proof fn lemma_kind_attack()
    ensures
        whole("\"attack\""@),
        "{\"k\":\"attack\",\"mid\":"@ == "{\"k\":"@ + "\"attack\""@ + ",\"mid\":"@,
{
    reveal_strlit("\"attack\"");
    reveal_strlit("attack");
    reveal_strlit("{\"k\":\"attack\",\"mid\":");
    reveal_strlit("{\"k\":");
    reveal_strlit(",\"mid\":");
    assert("{\"k\":\"attack\",\"mid\":"@ =~= "{\"k\":"@ + "\"attack\""@ + ",\"mid\":"@);
    law_strings_are_whole("attack"@);
    lemma_quoted_plain("attack"@);
    assert("\"attack\""@ =~= seq!['"'] + "attack"@ + seq!['"']);
}

proof fn lemma_kind_trade()
    ensures
        whole("\"trade\""@),
        "{\"k\":\"trade\",\"pid\":"@ == "{\"k\":"@ + "\"trade\""@ + ",\"pid\":"@,
{
    reveal_strlit("\"trade\"");
    reveal_strlit("trade");
    reveal_strlit("{\"k\":\"trade\",\"pid\":");
    reveal_strlit("{\"k\":");
    reveal_strlit(",\"pid\":");
    assert("{\"k\":\"trade\",\"pid\":"@ =~= "{\"k\":"@ + "\"trade\""@ + ",\"pid\":"@);
    law_strings_are_whole("trade"@);
    lemma_quoted_plain("trade"@);
    assert("\"trade\""@ =~= seq!['"'] + "trade"@ + seq!['"']);
}

/// A text of plain characters stands in quotation marks as it is.
proof fn lemma_quoted_plain(s: Seq<char>)
    requires
        forall|k: int| 0 <= k < s.len() ==> plain(#[trigger] s[k]) && s[k] as u32 >= 32,
    ensures
        quoted(s) == seq!['"'] + s + seq!['"'],
{
    lemma_escaped_plain(s);
}

proof fn lemma_escaped_plain(s: Seq<char>)
    requires
        forall|k: int| 0 <= k < s.len() ==> plain(#[trigger] s[k]) && s[k] as u32 >= 32,
    ensures
        crate::json::escaped(s) == s,
    decreases s.len(),
{
    if s.len() > 0 {
        let d = s.drop_last();
        assert forall|k: int| 0 <= k < d.len() implies plain(#[trigger] d[k]) && d[k] as u32 >= 32 by {
            assert(d[k] == s[k]);
        }
        lemma_escaped_plain(d);
        assert(plain(s[s.len() - 1]));
        assert(d + seq![s.last()] =~= s);
    }
}

proof fn lemma_stage(s: TradeStage)
    ensures
        whole(stage_json(s)),
        s == TradeStage::Offer <==> stage_json(s) == "\"offer\""@,
        s == TradeStage::Confirm <==> stage_json(s) == "\"confirm\""@,
{
    reveal_strlit("\"offer\"");
    reveal_strlit("\"confirm\"");
    reveal_strlit("offer");
    reveal_strlit("confirm");
    lemma_quoted_plain("offer"@);
    lemma_quoted_plain("confirm"@);
    law_strings_are_whole("offer"@);
    law_strings_are_whole("confirm"@);
    assert("\"offer\""@ =~= seq!['"'] + "offer"@ + seq!['"']);
    assert("\"confirm\""@ =~= seq!['"'] + "confirm"@ + seq!['"']);
    assert("\"offer\""@.len() == 7 && "\"confirm\""@.len() == 9);
}

proof fn lemma_offer_rows(inv: Seq<SlotV>, slots: Seq<usize>)
    ensures
        forall|k: int|
            0 <= k < offer_rows(inv, slots).len() ==> whole(#[trigger] offer_rows(inv, slots)[k]),
    decreases slots.len(),
{
    if slots.len() > 0 {
        lemma_offer_rows(inv, slots.drop_last());
        law_offered_slots_read_back(inv, slots.last());
        let (rest, rows) = (offer_rows(inv, slots.drop_last()), offer_rows(inv, slots));
        assert forall|k: int| 0 <= k < rows.len() implies whole(#[trigger] rows[k]) by {
            if k < rest.len() {
                assert(rows[k] == rest[k]);
            }
        }
    }
}

proof fn lemma_decimals(v: Seq<usize>)
    ensures
        forall|k: int| 0 <= k < decimals(v).len() ==> whole(#[trigger] decimals(v)[k]),
{
    assert forall|k: int| 0 <= k < decimals(v).len() implies whole(#[trigger] decimals(v)[k]) by {
        law_numbers_read_back(v[k] as int);
    }
}

proof fn lemma_trade_view(s: SimV, pid: u16)
    ensures
        whole(s.trade_view(pid)),
{
    reveal_strlit("null");
    lemma_whole_plain("null"@);
    let you = s.p(pid);
    if let Some(o) = you.trade.partner {
        law_trades_read_back(you, o, s.players.slots[o as int]);
    }
}

proof fn lemma_names_of_skills_read_back()
    ensures
        "woodcutting"@ != "mining"@,
        "woodcutting"@ != "fishing"@,
        "mining"@ != "fishing"@,
        "woodcutting"@ != "attack"@,
        "mining"@ != "attack"@,
        "fishing"@ != "attack"@,
        "woodcutting"@ != "strength"@,
        "mining"@ != "strength"@,
        "fishing"@ != "strength"@,
        "attack"@ != "strength"@,
        "woodcutting"@ != "defence"@,
        "mining"@ != "defence"@,
        "fishing"@ != "defence"@,
        "attack"@ != "defence"@,
        "strength"@ != "defence"@,
        "woodcutting"@ != "hp"@,
        "mining"@ != "hp"@,
        "fishing"@ != "hp"@,
        "attack"@ != "hp"@,
        "strength"@ != "hp"@,
        "defence"@ != "hp"@,
        "woodcutting"@ != "woodcutting_xp"@,
        "mining"@ != "woodcutting_xp"@,
        "fishing"@ != "woodcutting_xp"@,
        "attack"@ != "woodcutting_xp"@,
        "strength"@ != "woodcutting_xp"@,
        "defence"@ != "woodcutting_xp"@,
        "hp"@ != "woodcutting_xp"@,
        "woodcutting"@ != "mining_xp"@,
        "mining"@ != "mining_xp"@,
        "fishing"@ != "mining_xp"@,
        "attack"@ != "mining_xp"@,
        "strength"@ != "mining_xp"@,
        "defence"@ != "mining_xp"@,
        "hp"@ != "mining_xp"@,
        "woodcutting_xp"@ != "mining_xp"@,
        "woodcutting"@ != "fishing_xp"@,
        "mining"@ != "fishing_xp"@,
        "fishing"@ != "fishing_xp"@,
        "attack"@ != "fishing_xp"@,
        "strength"@ != "fishing_xp"@,
        "defence"@ != "fishing_xp"@,
        "hp"@ != "fishing_xp"@,
        "woodcutting_xp"@ != "fishing_xp"@,
        "mining_xp"@ != "fishing_xp"@,
        "woodcutting"@ != "attack_xp"@,
        "mining"@ != "attack_xp"@,
        "fishing"@ != "attack_xp"@,
        "attack"@ != "attack_xp"@,
        "strength"@ != "attack_xp"@,
        "defence"@ != "attack_xp"@,
        "hp"@ != "attack_xp"@,
        "woodcutting_xp"@ != "attack_xp"@,
        "mining_xp"@ != "attack_xp"@,
        "fishing_xp"@ != "attack_xp"@,
        "woodcutting"@ != "strength_xp"@,
        "mining"@ != "strength_xp"@,
        "fishing"@ != "strength_xp"@,
        "attack"@ != "strength_xp"@,
        "strength"@ != "strength_xp"@,
        "defence"@ != "strength_xp"@,
        "hp"@ != "strength_xp"@,
        "woodcutting_xp"@ != "strength_xp"@,
        "mining_xp"@ != "strength_xp"@,
        "fishing_xp"@ != "strength_xp"@,
        "attack_xp"@ != "strength_xp"@,
        "woodcutting"@ != "defence_xp"@,
        "mining"@ != "defence_xp"@,
        "fishing"@ != "defence_xp"@,
        "attack"@ != "defence_xp"@,
        "strength"@ != "defence_xp"@,
        "defence"@ != "defence_xp"@,
        "hp"@ != "defence_xp"@,
        "woodcutting_xp"@ != "defence_xp"@,
        "mining_xp"@ != "defence_xp"@,
        "fishing_xp"@ != "defence_xp"@,
        "attack_xp"@ != "defence_xp"@,
        "strength_xp"@ != "defence_xp"@,
        "woodcutting"@ != "hp_xp"@,
        "mining"@ != "hp_xp"@,
        "fishing"@ != "hp_xp"@,
        "attack"@ != "hp_xp"@,
        "strength"@ != "hp_xp"@,
        "defence"@ != "hp_xp"@,
        "hp"@ != "hp_xp"@,
        "woodcutting_xp"@ != "hp_xp"@,
        "mining_xp"@ != "hp_xp"@,
        "fishing_xp"@ != "hp_xp"@,
        "attack_xp"@ != "hp_xp"@,
        "strength_xp"@ != "hp_xp"@,
        "defence_xp"@ != "hp_xp"@,
        "woodcutting"@ != "angel_points"@,
        "mining"@ != "angel_points"@,
        "fishing"@ != "angel_points"@,
        "attack"@ != "angel_points"@,
        "strength"@ != "angel_points"@,
        "defence"@ != "angel_points"@,
        "hp"@ != "angel_points"@,
        "woodcutting_xp"@ != "angel_points"@,
        "mining_xp"@ != "angel_points"@,
        "fishing_xp"@ != "angel_points"@,
        "attack_xp"@ != "angel_points"@,
        "strength_xp"@ != "angel_points"@,
        "defence_xp"@ != "angel_points"@,
        "hp_xp"@ != "angel_points"@,
{
    reveal_strlit("woodcutting");
    reveal_strlit("mining");
    reveal_strlit("fishing");
    reveal_strlit("attack");
    reveal_strlit("strength");
    reveal_strlit("defence");
    reveal_strlit("hp");
    reveal_strlit("woodcutting_xp");
    reveal_strlit("mining_xp");
    reveal_strlit("fishing_xp");
    reveal_strlit("attack_xp");
    reveal_strlit("strength_xp");
    reveal_strlit("defence_xp");
    reveal_strlit("hp_xp");
    reveal_strlit("angel_points");
    assert("woodcutting"@.len() == 11 && "mining"@.len() == 6 && "fishing"@.len() == 7
        && "attack"@.len() == 6 && "strength"@.len() == 8 && "defence"@.len() == 7
        && "hp"@.len() == 2 && "woodcutting_xp"@.len() == 14 && "mining_xp"@.len() == 9
        && "fishing_xp"@.len() == 10 && "attack_xp"@.len() == 9 && "strength_xp"@.len() == 11
        && "defence_xp"@.len() == 10 && "hp_xp"@.len() == 5 && "angel_points"@.len() == 12);
    assert("mining"@[0] != "attack"@[0]);
    assert("fishing"@[0] != "defence"@[0]);
    assert("mining_xp"@[0] != "attack_xp"@[0]);
    assert("woodcutting"@[0] != "strength_xp"@[0]);
    assert("fishing_xp"@[0] != "defence_xp"@[0]);
}

/// The skills are read back: under the name of each stands its level or experience.
pub proof fn law_skills_read_back(s: Skills)
    ensures
        under(skills_json(s), "woodcutting"@) matches Some(v) && int_in(v) == s.woodcutting as int,
        under(skills_json(s), "mining"@) matches Some(v) && int_in(v) == s.mining as int,
        under(skills_json(s), "fishing"@) matches Some(v) && int_in(v) == s.fishing as int,
        under(skills_json(s), "attack"@) matches Some(v) && int_in(v) == s.attack as int,
        under(skills_json(s), "strength"@) matches Some(v) && int_in(v) == s.strength as int,
        under(skills_json(s), "defence"@) matches Some(v) && int_in(v) == s.defence as int,
        under(skills_json(s), "hp"@) matches Some(v) && int_in(v) == s.hp as int,
        under(skills_json(s), "woodcutting_xp"@) matches Some(v)
            && int_in(v) == s.woodcutting_xp as int,
        under(skills_json(s), "mining_xp"@) matches Some(v) && int_in(v) == s.mining_xp as int,
        under(skills_json(s), "fishing_xp"@) matches Some(v) && int_in(v) == s.fishing_xp as int,
        under(skills_json(s), "attack_xp"@) matches Some(v) && int_in(v) == s.attack_xp as int,
        under(skills_json(s), "strength_xp"@) matches Some(v) && int_in(v) == s.strength_xp as int,
        under(skills_json(s), "defence_xp"@) matches Some(v) && int_in(v) == s.defence_xp as int,
        under(skills_json(s), "hp_xp"@) matches Some(v) && int_in(v) == s.hp_xp as int,
        under(skills_json(s), "angel_points"@) matches Some(v)
            && int_in(v) == s.angel_points as int,
        whole(skills_json(s)),
{
    let t = skills_json(s);
    let x = Seq::<char>::empty();
    let v0 = decimal(s.woodcutting as int);
    law_numbers_read_back(s.woodcutting as int);
    lemma_first_woodcutting();
    let v1 = decimal(s.mining as int);
    law_numbers_read_back(s.mining as int);
    lemma_next_mining();
    let v2 = decimal(s.fishing as int);
    law_numbers_read_back(s.fishing as int);
    lemma_next_fishing();
    let v3 = decimal(s.attack as int);
    law_numbers_read_back(s.attack as int);
    lemma_next_attack();
    let v4 = decimal(s.strength as int);
    law_numbers_read_back(s.strength as int);
    lemma_next_strength();
    let v5 = decimal(s.defence as int);
    law_numbers_read_back(s.defence as int);
    lemma_next_defence();
    let v6 = decimal(s.hp as int);
    law_numbers_read_back(s.hp as int);
    lemma_next_hp();
    let v7 = decimal(s.woodcutting_xp as int);
    law_numbers_read_back(s.woodcutting_xp as int);
    lemma_next_woodcutting_xp();
    let v8 = decimal(s.mining_xp as int);
    law_numbers_read_back(s.mining_xp as int);
    lemma_next_mining_xp();
    let v9 = decimal(s.fishing_xp as int);
    law_numbers_read_back(s.fishing_xp as int);
    lemma_next_fishing_xp();
    let v10 = decimal(s.attack_xp as int);
    law_numbers_read_back(s.attack_xp as int);
    lemma_next_attack_xp();
    let v11 = decimal(s.strength_xp as int);
    law_numbers_read_back(s.strength_xp as int);
    lemma_next_strength_xp();
    let v12 = decimal(s.defence_xp as int);
    law_numbers_read_back(s.defence_xp as int);
    lemma_next_defence_xp();
    let v13 = decimal(s.hp_xp as int);
    law_numbers_read_back(s.hp_xp as int);
    lemma_next_hp_xp();
    let v14 = decimal(s.angel_points as int);
    law_numbers_read_back(s.angel_points as int);
    lemma_next_angel_points();
    let x0 = x + "{\"woodcutting\":"@ + v0;
    lemma_object_goes_on(x, "{\"woodcutting\":"@, v0, "woodcutting"@, true);
    let x1 = x0 + ",\"mining\":"@ + v1;
    lemma_object_goes_on(x0, ",\"mining\":"@, v1, "mining"@, false);
    let x2 = x1 + ",\"fishing\":"@ + v2;
    lemma_object_goes_on(x1, ",\"fishing\":"@, v2, "fishing"@, false);
    let x3 = x2 + ",\"attack\":"@ + v3;
    lemma_object_goes_on(x2, ",\"attack\":"@, v3, "attack"@, false);
    let x4 = x3 + ",\"strength\":"@ + v4;
    lemma_object_goes_on(x3, ",\"strength\":"@, v4, "strength"@, false);
    let x5 = x4 + ",\"defence\":"@ + v5;
    lemma_object_goes_on(x4, ",\"defence\":"@, v5, "defence"@, false);
    let x6 = x5 + ",\"hp\":"@ + v6;
    lemma_object_goes_on(x5, ",\"hp\":"@, v6, "hp"@, false);
    let x7 = x6 + ",\"woodcutting_xp\":"@ + v7;
    lemma_object_goes_on(x6, ",\"woodcutting_xp\":"@, v7, "woodcutting_xp"@, false);
    let x8 = x7 + ",\"mining_xp\":"@ + v8;
    lemma_object_goes_on(x7, ",\"mining_xp\":"@, v8, "mining_xp"@, false);
    let x9 = x8 + ",\"fishing_xp\":"@ + v9;
    lemma_object_goes_on(x8, ",\"fishing_xp\":"@, v9, "fishing_xp"@, false);
    let x10 = x9 + ",\"attack_xp\":"@ + v10;
    lemma_object_goes_on(x9, ",\"attack_xp\":"@, v10, "attack_xp"@, false);
    let x11 = x10 + ",\"strength_xp\":"@ + v11;
    lemma_object_goes_on(x10, ",\"strength_xp\":"@, v11, "strength_xp"@, false);
    let x12 = x11 + ",\"defence_xp\":"@ + v12;
    lemma_object_goes_on(x11, ",\"defence_xp\":"@, v12, "defence_xp"@, false);
    let x13 = x12 + ",\"hp_xp\":"@ + v13;
    lemma_object_goes_on(x12, ",\"hp_xp\":"@, v13, "hp_xp"@, false);
    let x14 = x13 + ",\"angel_points\":"@ + v14;
    lemma_object_goes_on(x13, ",\"angel_points\":"@, v14, "angel_points"@, false);
    lemma_ends("{\"woodcutting\":"@);
    assert(t == x14 + "}"@);
    lemma_object_is_whole(x14);
    let r14 = "}"@;
    lemma_member(t, x13, ",\"angel_points\":"@, v14, r14, false, "angel_points"@);
    let r13 = ",\"angel_points\":"@ + v14 + r14;
    lemma_member(t, x12, ",\"hp_xp\":"@, v13, r13, false, "hp_xp"@);
    let r12 = ",\"hp_xp\":"@ + v13 + r13;
    lemma_member(t, x11, ",\"defence_xp\":"@, v12, r12, false, "defence_xp"@);
    let r11 = ",\"defence_xp\":"@ + v12 + r12;
    lemma_member(t, x10, ",\"strength_xp\":"@, v11, r11, false, "strength_xp"@);
    let r10 = ",\"strength_xp\":"@ + v11 + r11;
    lemma_member(t, x9, ",\"attack_xp\":"@, v10, r10, false, "attack_xp"@);
    let r9 = ",\"attack_xp\":"@ + v10 + r10;
    lemma_member(t, x8, ",\"fishing_xp\":"@, v9, r9, false, "fishing_xp"@);
    let r8 = ",\"fishing_xp\":"@ + v9 + r9;
    lemma_member(t, x7, ",\"mining_xp\":"@, v8, r8, false, "mining_xp"@);
    let r7 = ",\"mining_xp\":"@ + v8 + r8;
    lemma_member(t, x6, ",\"woodcutting_xp\":"@, v7, r7, false, "woodcutting_xp"@);
    let r6 = ",\"woodcutting_xp\":"@ + v7 + r7;
    lemma_member(t, x5, ",\"hp\":"@, v6, r6, false, "hp"@);
    let r5 = ",\"hp\":"@ + v6 + r6;
    lemma_member(t, x4, ",\"defence\":"@, v5, r5, false, "defence"@);
    let r4 = ",\"defence\":"@ + v5 + r5;
    lemma_member(t, x3, ",\"strength\":"@, v4, r4, false, "strength"@);
    let r3 = ",\"strength\":"@ + v4 + r4;
    lemma_member(t, x2, ",\"attack\":"@, v3, r3, false, "attack"@);
    let r2 = ",\"attack\":"@ + v3 + r3;
    lemma_member(t, x1, ",\"fishing\":"@, v2, r2, false, "fishing"@);
    let r1 = ",\"fishing\":"@ + v2 + r2;
    lemma_member(t, x0, ",\"mining\":"@, v1, r1, false, "mining"@);
    let r0 = ",\"mining\":"@ + v1 + r1;
    lemma_member(t, x, "{\"woodcutting\":"@, v0, r0, true, "woodcutting"@);
    lemma_names_of_skills_read_back();
}

proof fn lemma_names_of_slots_read_back()
    ensures
        "item"@ != "qty"@,
{
    reveal_strlit("item");
    reveal_strlit("qty");
    assert("item"@.len() == 4 && "qty"@.len() == 3);
}

/// A slot is read back: its item and how many of it.
pub proof fn law_slots_read_back(s: SlotV)
    ensures
        under(slot_json(s), "item"@) == Some(quoted(s.item)),
        under(slot_json(s), "qty"@) matches Some(v) && int_in(v) == s.qty as int,
        whole(slot_json(s)),
{
    let t = slot_json(s);
    let x = Seq::<char>::empty();
    let v0 = quoted(s.item);
    law_strings_are_whole(s.item);
    lemma_first_item();
    let v1 = decimal(s.qty as int);
    law_numbers_read_back(s.qty as int);
    lemma_next_qty();
    let x0 = x + "{\"item\":"@ + v0;
    lemma_object_goes_on(x, "{\"item\":"@, v0, "item"@, true);
    let x1 = x0 + ",\"qty\":"@ + v1;
    lemma_object_goes_on(x0, ",\"qty\":"@, v1, "qty"@, false);
    lemma_ends("{\"item\":"@);
    assert(t == x1 + "}"@);
    lemma_object_is_whole(x1);
    let r1 = "}"@;
    lemma_member(t, x0, ",\"qty\":"@, v1, r1, false, "qty"@);
    let r0 = ",\"qty\":"@ + v1 + r1;
    lemma_member(t, x, "{\"item\":"@, v0, r0, true, "item"@);
    lemma_names_of_slots_read_back();
}

proof fn lemma_names_of_equipment_reads_back()
    ensures
        "helmet"@ != "chest"@,
        "helmet"@ != "legs"@,
        "chest"@ != "legs"@,
        "helmet"@ != "left_hand"@,
        "chest"@ != "left_hand"@,
        "legs"@ != "left_hand"@,
        "helmet"@ != "right_hand"@,
        "chest"@ != "right_hand"@,
        "legs"@ != "right_hand"@,
        "left_hand"@ != "right_hand"@,
{
    reveal_strlit("helmet");
    reveal_strlit("chest");
    reveal_strlit("legs");
    reveal_strlit("left_hand");
    reveal_strlit("right_hand");
    assert("helmet"@.len() == 6 && "chest"@.len() == 5 && "legs"@.len() == 4
        && "left_hand"@.len() == 9 && "right_hand"@.len() == 10);
}

/// The equipment is read back: under the name of each place stands what is worn there.
pub proof fn law_equipment_reads_back(e: EquipV)
    ensures
        under(equipment_json(e), "helmet"@) == Some(quoted(e.helmet)),
        under(equipment_json(e), "chest"@) == Some(quoted(e.chest)),
        under(equipment_json(e), "legs"@) == Some(quoted(e.legs)),
        under(equipment_json(e), "left_hand"@) == Some(quoted(e.left_hand)),
        under(equipment_json(e), "right_hand"@) == Some(quoted(e.right_hand)),
        whole(equipment_json(e)),
{
    let t = equipment_json(e);
    let x = Seq::<char>::empty();
    let v0 = quoted(e.helmet);
    law_strings_are_whole(e.helmet);
    lemma_first_helmet();
    let v1 = quoted(e.chest);
    law_strings_are_whole(e.chest);
    lemma_next_chest();
    let v2 = quoted(e.legs);
    law_strings_are_whole(e.legs);
    lemma_next_legs();
    let v3 = quoted(e.left_hand);
    law_strings_are_whole(e.left_hand);
    lemma_next_left_hand();
    let v4 = quoted(e.right_hand);
    law_strings_are_whole(e.right_hand);
    lemma_next_right_hand();
    let x0 = x + "{\"helmet\":"@ + v0;
    lemma_object_goes_on(x, "{\"helmet\":"@, v0, "helmet"@, true);
    let x1 = x0 + ",\"chest\":"@ + v1;
    lemma_object_goes_on(x0, ",\"chest\":"@, v1, "chest"@, false);
    let x2 = x1 + ",\"legs\":"@ + v2;
    lemma_object_goes_on(x1, ",\"legs\":"@, v2, "legs"@, false);
    let x3 = x2 + ",\"left_hand\":"@ + v3;
    lemma_object_goes_on(x2, ",\"left_hand\":"@, v3, "left_hand"@, false);
    let x4 = x3 + ",\"right_hand\":"@ + v4;
    lemma_object_goes_on(x3, ",\"right_hand\":"@, v4, "right_hand"@, false);
    lemma_ends("{\"helmet\":"@);
    assert(t == x4 + "}"@);
    lemma_object_is_whole(x4);
    let r4 = "}"@;
    lemma_member(t, x3, ",\"right_hand\":"@, v4, r4, false, "right_hand"@);
    let r3 = ",\"right_hand\":"@ + v4 + r4;
    lemma_member(t, x2, ",\"left_hand\":"@, v3, r3, false, "left_hand"@);
    let r2 = ",\"left_hand\":"@ + v3 + r3;
    lemma_member(t, x1, ",\"legs\":"@, v2, r2, false, "legs"@);
    let r1 = ",\"legs\":"@ + v2 + r2;
    lemma_member(t, x0, ",\"chest\":"@, v1, r1, false, "chest"@);
    let r0 = ",\"chest\":"@ + v1 + r1;
    lemma_member(t, x, "{\"helmet\":"@, v0, r0, true, "helmet"@);
    lemma_names_of_equipment_reads_back();
}

proof fn lemma_names_of_windows_read_back()
    ensures
        "angel_modal_open"@ != "angler_open"@,
        "angel_modal_open"@ != "forge_open"@,
        "angler_open"@ != "forge_open"@,
        "angel_modal_open"@ != "trade_open"@,
        "angler_open"@ != "trade_open"@,
        "forge_open"@ != "trade_open"@,
{
    reveal_strlit("angel_modal_open");
    reveal_strlit("angler_open");
    reveal_strlit("forge_open");
    reveal_strlit("trade_open");
    assert("angel_modal_open"@.len() == 16 && "angler_open"@.len() == 11
        && "forge_open"@.len() == 10 && "trade_open"@.len() == 10);
    assert("forge_open"@[0] != "trade_open"@[0]);
}

/// The windows are read back: under the name of each stands whether it is open.
pub proof fn law_windows_read_back(ui: UiState)
    ensures
        under(ui_json(ui), "angel_modal_open"@) == Some(
            if ui.angel_modal_open {
                "true"@
            } else {
                "false"@
            },
        ),
        under(ui_json(ui), "angler_open"@) == Some(if ui.angler_open { "true"@ } else { "false"@ }),
        under(ui_json(ui), "forge_open"@) == Some(if ui.forge_open { "true"@ } else { "false"@ }),
        under(ui_json(ui), "trade_open"@) == Some(if ui.trade_open { "true"@ } else { "false"@ }),
        whole(ui_json(ui)),
{
    let t = ui_json(ui);
    let x = Seq::<char>::empty();
    let v0 = truth(ui.angel_modal_open);
    law_truths_read_back(ui.angel_modal_open);
    lemma_first_angel_modal_open();
    let v1 = truth(ui.angler_open);
    law_truths_read_back(ui.angler_open);
    lemma_next_angler_open();
    let v2 = truth(ui.forge_open);
    law_truths_read_back(ui.forge_open);
    lemma_next_forge_open();
    let v3 = truth(ui.trade_open);
    law_truths_read_back(ui.trade_open);
    lemma_next_trade_open();
    let x0 = x + "{\"angel_modal_open\":"@ + v0;
    lemma_object_goes_on(x, "{\"angel_modal_open\":"@, v0, "angel_modal_open"@, true);
    let x1 = x0 + ",\"angler_open\":"@ + v1;
    lemma_object_goes_on(x0, ",\"angler_open\":"@, v1, "angler_open"@, false);
    let x2 = x1 + ",\"forge_open\":"@ + v2;
    lemma_object_goes_on(x1, ",\"forge_open\":"@, v2, "forge_open"@, false);
    let x3 = x2 + ",\"trade_open\":"@ + v3;
    lemma_object_goes_on(x2, ",\"trade_open\":"@, v3, "trade_open"@, false);
    lemma_ends("{\"angel_modal_open\":"@);
    assert(t == x3 + "}"@);
    lemma_object_is_whole(x3);
    let r3 = "}"@;
    lemma_member(t, x2, ",\"trade_open\":"@, v3, r3, false, "trade_open"@);
    let r2 = ",\"trade_open\":"@ + v3 + r3;
    lemma_member(t, x1, ",\"forge_open\":"@, v2, r2, false, "forge_open"@);
    let r1 = ",\"forge_open\":"@ + v2 + r2;
    lemma_member(t, x0, ",\"angler_open\":"@, v1, r1, false, "angler_open"@);
    let r0 = ",\"angler_open\":"@ + v1 + r1;
    lemma_member(t, x, "{\"angel_modal_open\":"@, v0, r0, true, "angel_modal_open"@);
    lemma_names_of_windows_read_back();
}

proof fn lemma_names_of_offered_slots_read_back()
    ensures
        "item"@ != "name"@,
        "item"@ != "qty"@,
        "name"@ != "qty"@,
        "item"@ != "slot"@,
        "name"@ != "slot"@,
        "qty"@ != "slot"@,
{
    reveal_strlit("item");
    reveal_strlit("name");
    reveal_strlit("qty");
    reveal_strlit("slot");
    assert("item"@.len() == 4 && "name"@.len() == 4 && "qty"@.len() == 3 && "slot"@.len() == 4);
    assert("item"@[0] != "name"@[0]);
    assert("item"@[0] != "slot"@[0]);
    assert("name"@[0] != "slot"@[0]);
}

/// An offered slot is read back: its item, the name of it, how many, and its place.
pub proof fn law_offered_slots_read_back(inv: Seq<SlotV>, slot: usize)
    ensures
        under(offer_item_json(inv, slot), "item"@) == Some(quoted(inv[slot as int].item)),
        under(offer_item_json(inv, slot), "name"@) == Some(
            quoted(item_label(inv[slot as int].item)),
        ),
        under(offer_item_json(inv, slot), "qty"@) matches Some(v)
            && int_in(v) == inv[slot as int].qty as int,
        under(offer_item_json(inv, slot), "slot"@) matches Some(v) && int_in(v) == slot as int,
        whole(offer_item_json(inv, slot)),
{
    let t = offer_item_json(inv, slot);
    let x = Seq::<char>::empty();
    let v0 = quoted(inv[slot as int].item);
    law_strings_are_whole(inv[slot as int].item);
    lemma_first_item();
    let v1 = quoted(item_label(inv[slot as int].item));
    law_strings_are_whole(item_label(inv[slot as int].item));
    lemma_next_name();
    let v2 = decimal(inv[slot as int].qty as int);
    law_numbers_read_back(inv[slot as int].qty as int);
    lemma_next_qty();
    let v3 = decimal(slot as int);
    law_numbers_read_back(slot as int);
    lemma_next_slot();
    let x0 = x + "{\"item\":"@ + v0;
    lemma_object_goes_on(x, "{\"item\":"@, v0, "item"@, true);
    let x1 = x0 + ",\"name\":"@ + v1;
    lemma_object_goes_on(x0, ",\"name\":"@, v1, "name"@, false);
    let x2 = x1 + ",\"qty\":"@ + v2;
    lemma_object_goes_on(x1, ",\"qty\":"@, v2, "qty"@, false);
    let x3 = x2 + ",\"slot\":"@ + v3;
    lemma_object_goes_on(x2, ",\"slot\":"@, v3, "slot"@, false);
    lemma_ends("{\"item\":"@);
    assert(t == x3 + "}"@);
    lemma_object_is_whole(x3);
    let r3 = "}"@;
    lemma_member(t, x2, ",\"slot\":"@, v3, r3, false, "slot"@);
    let r2 = ",\"slot\":"@ + v3 + r3;
    lemma_member(t, x1, ",\"qty\":"@, v2, r2, false, "qty"@);
    let r1 = ",\"qty\":"@ + v2 + r2;
    lemma_member(t, x0, ",\"name\":"@, v1, r1, false, "name"@);
    let r0 = ",\"name\":"@ + v1 + r1;
    lemma_member(t, x, "{\"item\":"@, v0, r0, true, "item"@);
    lemma_names_of_offered_slots_read_back();
}

proof fn lemma_names_of_shop_rows_read_back()
    ensures
        "buy"@ != "item"@,
        "buy"@ != "kind"@,
        "item"@ != "kind"@,
        "buy"@ != "name"@,
        "item"@ != "name"@,
        "kind"@ != "name"@,
        "buy"@ != "tier"@,
        "item"@ != "tier"@,
        "kind"@ != "tier"@,
        "name"@ != "tier"@,
{
    reveal_strlit("buy");
    reveal_strlit("item");
    reveal_strlit("kind");
    reveal_strlit("name");
    reveal_strlit("tier");
    assert("buy"@.len() == 3 && "item"@.len() == 4 && "kind"@.len() == 4 && "name"@.len() == 4
        && "tier"@.len() == 4);
    assert("item"@[0] != "kind"@[0]);
    assert("item"@[0] != "name"@[0]);
    assert("kind"@[0] != "name"@[0]);
    assert("item"@[0] != "tier"@[0]);
    assert("kind"@[0] != "tier"@[0]);
    assert("name"@[0] != "tier"@[0]);
}

/// A row of the shop is read back.
pub proof fn law_shop_rows_read_back(d: ToolDef)
    ensures
        under(shop_json(d), "buy"@) matches Some(v) && int_in(v) == d.buy as int,
        under(shop_json(d), "item"@) == Some(quoted(d.item@)),
        under(shop_json(d), "kind"@) == Some(quoted(d.kind@)),
        under(shop_json(d), "name"@) == Some(quoted(d.name@)),
        under(shop_json(d), "tier"@) matches Some(v) && int_in(v) == d.tier as int,
        whole(shop_json(d)),
{
    let t = shop_json(d);
    let x = Seq::<char>::empty();
    let v0 = decimal(d.buy as int);
    law_numbers_read_back(d.buy as int);
    lemma_first_buy();
    let v1 = quoted(d.item@);
    law_strings_are_whole(d.item@);
    lemma_next_item();
    let v2 = quoted(d.kind@);
    law_strings_are_whole(d.kind@);
    lemma_next_kind();
    let v3 = quoted(d.name@);
    law_strings_are_whole(d.name@);
    lemma_next_name();
    let v4 = decimal(d.tier as int);
    law_numbers_read_back(d.tier as int);
    lemma_next_tier();
    let x0 = x + "{\"buy\":"@ + v0;
    lemma_object_goes_on(x, "{\"buy\":"@, v0, "buy"@, true);
    let x1 = x0 + ",\"item\":"@ + v1;
    lemma_object_goes_on(x0, ",\"item\":"@, v1, "item"@, false);
    let x2 = x1 + ",\"kind\":"@ + v2;
    lemma_object_goes_on(x1, ",\"kind\":"@, v2, "kind"@, false);
    let x3 = x2 + ",\"name\":"@ + v3;
    lemma_object_goes_on(x2, ",\"name\":"@, v3, "name"@, false);
    let x4 = x3 + ",\"tier\":"@ + v4;
    lemma_object_goes_on(x3, ",\"tier\":"@, v4, "tier"@, false);
    lemma_ends("{\"buy\":"@);
    assert(t == x4 + "}"@);
    lemma_object_is_whole(x4);
    let r4 = "}"@;
    lemma_member(t, x3, ",\"tier\":"@, v4, r4, false, "tier"@);
    let r3 = ",\"tier\":"@ + v4 + r4;
    lemma_member(t, x2, ",\"name\":"@, v3, r3, false, "name"@);
    let r2 = ",\"name\":"@ + v3 + r3;
    lemma_member(t, x1, ",\"kind\":"@, v2, r2, false, "kind"@);
    let r1 = ",\"kind\":"@ + v2 + r2;
    lemma_member(t, x0, ",\"item\":"@, v1, r1, false, "item"@);
    let r0 = ",\"item\":"@ + v1 + r1;
    lemma_member(t, x, "{\"buy\":"@, v0, r0, true, "buy"@);
    lemma_names_of_shop_rows_read_back();
}

proof fn lemma_names_of_tool_rows_read_back()
    ensures
        "item"@ != "name"@,
        "item"@ != "sell"@,
        "name"@ != "sell"@,
        "item"@ != "tier"@,
        "name"@ != "tier"@,
        "sell"@ != "tier"@,
{
    reveal_strlit("item");
    reveal_strlit("name");
    reveal_strlit("sell");
    reveal_strlit("tier");
    assert("item"@.len() == 4 && "name"@.len() == 4 && "sell"@.len() == 4 && "tier"@.len() == 4);
    assert("item"@[0] != "name"@[0]);
    assert("item"@[0] != "sell"@[0]);
    assert("name"@[0] != "sell"@[0]);
    assert("item"@[0] != "tier"@[0]);
    assert("name"@[0] != "tier"@[0]);
    assert("sell"@[0] != "tier"@[0]);
}

/// What the trader gives for a tool is read back: what it costs in the shop.
pub proof fn law_tool_rows_read_back(d: ToolDef)
    ensures
        under(tool_sale_json(d), "item"@) == Some(quoted(d.item@)),
        under(tool_sale_json(d), "name"@) == Some(quoted(d.name@)),
        under(tool_sale_json(d), "sell"@) matches Some(v) && int_in(v) == d.buy as int,
        under(tool_sale_json(d), "tier"@) matches Some(v) && int_in(v) == d.tier as int,
        whole(tool_sale_json(d)),
{
    let t = tool_sale_json(d);
    let x = Seq::<char>::empty();
    let v0 = quoted(d.item@);
    law_strings_are_whole(d.item@);
    lemma_first_item();
    let v1 = quoted(d.name@);
    law_strings_are_whole(d.name@);
    lemma_next_name();
    let v2 = decimal(d.buy as int);
    law_numbers_read_back(d.buy as int);
    lemma_next_sell();
    let v3 = decimal(d.tier as int);
    law_numbers_read_back(d.tier as int);
    lemma_next_tier();
    let x0 = x + "{\"item\":"@ + v0;
    lemma_object_goes_on(x, "{\"item\":"@, v0, "item"@, true);
    let x1 = x0 + ",\"name\":"@ + v1;
    lemma_object_goes_on(x0, ",\"name\":"@, v1, "name"@, false);
    let x2 = x1 + ",\"sell\":"@ + v2;
    lemma_object_goes_on(x1, ",\"sell\":"@, v2, "sell"@, false);
    let x3 = x2 + ",\"tier\":"@ + v3;
    lemma_object_goes_on(x2, ",\"tier\":"@, v3, "tier"@, false);
    lemma_ends("{\"item\":"@);
    assert(t == x3 + "}"@);
    lemma_object_is_whole(x3);
    let r3 = "}"@;
    lemma_member(t, x2, ",\"tier\":"@, v3, r3, false, "tier"@);
    let r2 = ",\"tier\":"@ + v3 + r3;
    lemma_member(t, x1, ",\"sell\":"@, v2, r2, false, "sell"@);
    let r1 = ",\"sell\":"@ + v2 + r2;
    lemma_member(t, x0, ",\"name\":"@, v1, r1, false, "name"@);
    let r0 = ",\"name\":"@ + v1 + r1;
    lemma_member(t, x, "{\"item\":"@, v0, r0, true, "item"@);
    lemma_names_of_tool_rows_read_back();
}

proof fn lemma_names_of_resource_rows_read_back()
    ensures
        "item"@ != "name"@,
        "item"@ != "sell"@,
        "name"@ != "sell"@,
        "item"@ != "tier"@,
        "name"@ != "tier"@,
        "sell"@ != "tier"@,
        "item"@ != "xp"@,
        "name"@ != "xp"@,
        "sell"@ != "xp"@,
        "tier"@ != "xp"@,
{
    reveal_strlit("item");
    reveal_strlit("name");
    reveal_strlit("sell");
    reveal_strlit("tier");
    reveal_strlit("xp");
    assert("item"@.len() == 4 && "name"@.len() == 4 && "sell"@.len() == 4 && "tier"@.len() == 4
        && "xp"@.len() == 2);
    assert("item"@[0] != "name"@[0]);
    assert("item"@[0] != "sell"@[0]);
    assert("name"@[0] != "sell"@[0]);
    assert("item"@[0] != "tier"@[0]);
    assert("name"@[0] != "tier"@[0]);
    assert("sell"@[0] != "tier"@[0]);
}

/// What the trader gives for a log or an ore is read back.
pub proof fn law_resource_rows_read_back(d: ResourceDef)
    ensures
        under(resource_sale_json(d), "item"@) == Some(quoted(d.item@)),
        under(resource_sale_json(d), "name"@) == Some(quoted(d.name@)),
        under(resource_sale_json(d), "sell"@) matches Some(v) && int_in(v) == d.sell as int,
        under(resource_sale_json(d), "tier"@) matches Some(v) && int_in(v) == d.tier as int,
        under(resource_sale_json(d), "xp"@) matches Some(v) && int_in(v) == d.xp as int,
        whole(resource_sale_json(d)),
{
    let t = resource_sale_json(d);
    let x = Seq::<char>::empty();
    let v0 = quoted(d.item@);
    law_strings_are_whole(d.item@);
    lemma_first_item();
    let v1 = quoted(d.name@);
    law_strings_are_whole(d.name@);
    lemma_next_name();
    let v2 = decimal(d.sell as int);
    law_numbers_read_back(d.sell as int);
    lemma_next_sell();
    let v3 = decimal(d.tier as int);
    law_numbers_read_back(d.tier as int);
    lemma_next_tier();
    let v4 = decimal(d.xp as int);
    law_numbers_read_back(d.xp as int);
    lemma_next_xp();
    let x0 = x + "{\"item\":"@ + v0;
    lemma_object_goes_on(x, "{\"item\":"@, v0, "item"@, true);
    let x1 = x0 + ",\"name\":"@ + v1;
    lemma_object_goes_on(x0, ",\"name\":"@, v1, "name"@, false);
    let x2 = x1 + ",\"sell\":"@ + v2;
    lemma_object_goes_on(x1, ",\"sell\":"@, v2, "sell"@, false);
    let x3 = x2 + ",\"tier\":"@ + v3;
    lemma_object_goes_on(x2, ",\"tier\":"@, v3, "tier"@, false);
    let x4 = x3 + ",\"xp\":"@ + v4;
    lemma_object_goes_on(x3, ",\"xp\":"@, v4, "xp"@, false);
    lemma_ends("{\"item\":"@);
    assert(t == x4 + "}"@);
    lemma_object_is_whole(x4);
    let r4 = "}"@;
    lemma_member(t, x3, ",\"xp\":"@, v4, r4, false, "xp"@);
    let r3 = ",\"xp\":"@ + v4 + r4;
    lemma_member(t, x2, ",\"tier\":"@, v3, r3, false, "tier"@);
    let r2 = ",\"tier\":"@ + v3 + r3;
    lemma_member(t, x1, ",\"sell\":"@, v2, r2, false, "sell"@);
    let r1 = ",\"sell\":"@ + v2 + r2;
    lemma_member(t, x0, ",\"name\":"@, v1, r1, false, "name"@);
    let r0 = ",\"name\":"@ + v1 + r1;
    lemma_member(t, x, "{\"item\":"@, v0, r0, true, "item"@);
    lemma_names_of_resource_rows_read_back();
}

proof fn lemma_names_of_fish_rows_read_back()
    ensures
        "item"@ != "name"@,
        "item"@ != "sell"@,
        "name"@ != "sell"@,
        "item"@ != "tier"@,
        "name"@ != "tier"@,
        "sell"@ != "tier"@,
        "item"@ != "xp"@,
        "name"@ != "xp"@,
        "sell"@ != "xp"@,
        "tier"@ != "xp"@,
{
    reveal_strlit("item");
    reveal_strlit("name");
    reveal_strlit("sell");
    reveal_strlit("tier");
    reveal_strlit("xp");
    assert("item"@.len() == 4 && "name"@.len() == 4 && "sell"@.len() == 4 && "tier"@.len() == 4
        && "xp"@.len() == 2);
    assert("item"@[0] != "name"@[0]);
    assert("item"@[0] != "sell"@[0]);
    assert("name"@[0] != "sell"@[0]);
    assert("item"@[0] != "tier"@[0]);
    assert("name"@[0] != "tier"@[0]);
    assert("sell"@[0] != "tier"@[0]);
}

/// What the trader gives for a fish is read back.
pub proof fn law_fish_rows_read_back(d: FishDef)
    ensures
        under(fish_sale_json(d), "item"@) == Some(quoted(d.fish@)),
        under(fish_sale_json(d), "name"@) == Some(quoted(d.fish_name@)),
        under(fish_sale_json(d), "sell"@) matches Some(v) && int_in(v) == d.sell as int,
        under(fish_sale_json(d), "tier"@) matches Some(v) && int_in(v) == d.tier + 1,
        under(fish_sale_json(d), "xp"@) matches Some(v) && int_in(v) == d.xp as int,
        whole(fish_sale_json(d)),
{
    let t = fish_sale_json(d);
    let x = Seq::<char>::empty();
    let v0 = quoted(d.fish@);
    law_strings_are_whole(d.fish@);
    lemma_first_item();
    let v1 = quoted(d.fish_name@);
    law_strings_are_whole(d.fish_name@);
    lemma_next_name();
    let v2 = decimal(d.sell as int);
    law_numbers_read_back(d.sell as int);
    lemma_next_sell();
    let v3 = decimal(d.tier + 1);
    law_numbers_read_back(d.tier + 1);
    lemma_next_tier();
    let v4 = decimal(d.xp as int);
    law_numbers_read_back(d.xp as int);
    lemma_next_xp();
    let x0 = x + "{\"item\":"@ + v0;
    lemma_object_goes_on(x, "{\"item\":"@, v0, "item"@, true);
    let x1 = x0 + ",\"name\":"@ + v1;
    lemma_object_goes_on(x0, ",\"name\":"@, v1, "name"@, false);
    let x2 = x1 + ",\"sell\":"@ + v2;
    lemma_object_goes_on(x1, ",\"sell\":"@, v2, "sell"@, false);
    let x3 = x2 + ",\"tier\":"@ + v3;
    lemma_object_goes_on(x2, ",\"tier\":"@, v3, "tier"@, false);
    let x4 = x3 + ",\"xp\":"@ + v4;
    lemma_object_goes_on(x3, ",\"xp\":"@, v4, "xp"@, false);
    lemma_ends("{\"item\":"@);
    assert(t == x4 + "}"@);
    lemma_object_is_whole(x4);
    let r4 = "}"@;
    lemma_member(t, x3, ",\"xp\":"@, v4, r4, false, "xp"@);
    let r3 = ",\"xp\":"@ + v4 + r4;
    lemma_member(t, x2, ",\"tier\":"@, v3, r3, false, "tier"@);
    let r2 = ",\"tier\":"@ + v3 + r3;
    lemma_member(t, x1, ",\"sell\":"@, v2, r2, false, "sell"@);
    let r1 = ",\"sell\":"@ + v2 + r2;
    lemma_member(t, x0, ",\"name\":"@, v1, r1, false, "name"@);
    let r0 = ",\"name\":"@ + v1 + r1;
    lemma_member(t, x, "{\"item\":"@, v0, r0, true, "item"@);
    lemma_names_of_fish_rows_read_back();
}

proof fn lemma_names_of_rod_rows_read_back()
    ensures
        "item"@ != "name"@,
        "item"@ != "sell"@,
        "name"@ != "sell"@,
        "item"@ != "tier"@,
        "name"@ != "tier"@,
        "sell"@ != "tier"@,
{
    reveal_strlit("item");
    reveal_strlit("name");
    reveal_strlit("sell");
    reveal_strlit("tier");
    assert("item"@.len() == 4 && "name"@.len() == 4 && "sell"@.len() == 4 && "tier"@.len() == 4);
    assert("item"@[0] != "name"@[0]);
    assert("item"@[0] != "sell"@[0]);
    assert("name"@[0] != "sell"@[0]);
    assert("item"@[0] != "tier"@[0]);
    assert("name"@[0] != "tier"@[0]);
    assert("sell"@[0] != "tier"@[0]);
}

/// What the trader gives for a rod is read back.
pub proof fn law_rod_rows_read_back(d: FishDef)
    ensures
        under(rod_sale_json(d), "item"@) == Some(quoted(d.rod@)),
        under(rod_sale_json(d), "name"@) == Some(quoted(d.rod_name@)),
        under(rod_sale_json(d), "sell"@) matches Some(v)
            && int_in(v) == or_nothing(rod_price(d.rod@)),
        under(rod_sale_json(d), "tier"@) matches Some(v) && int_in(v) == d.tier + 1,
        whole(rod_sale_json(d)),
{
    let t = rod_sale_json(d);
    let x = Seq::<char>::empty();
    let v0 = quoted(d.rod@);
    law_strings_are_whole(d.rod@);
    lemma_first_item();
    let v1 = quoted(d.rod_name@);
    law_strings_are_whole(d.rod_name@);
    lemma_next_name();
    let v2 = decimal(or_nothing(rod_price(d.rod@)));
    law_numbers_read_back(or_nothing(rod_price(d.rod@)));
    lemma_next_sell();
    let v3 = decimal(d.tier + 1);
    law_numbers_read_back(d.tier + 1);
    lemma_next_tier();
    let x0 = x + "{\"item\":"@ + v0;
    lemma_object_goes_on(x, "{\"item\":"@, v0, "item"@, true);
    let x1 = x0 + ",\"name\":"@ + v1;
    lemma_object_goes_on(x0, ",\"name\":"@, v1, "name"@, false);
    let x2 = x1 + ",\"sell\":"@ + v2;
    lemma_object_goes_on(x1, ",\"sell\":"@, v2, "sell"@, false);
    let x3 = x2 + ",\"tier\":"@ + v3;
    lemma_object_goes_on(x2, ",\"tier\":"@, v3, "tier"@, false);
    lemma_ends("{\"item\":"@);
    assert(t == x3 + "}"@);
    lemma_object_is_whole(x3);
    let r3 = "}"@;
    lemma_member(t, x2, ",\"tier\":"@, v3, r3, false, "tier"@);
    let r2 = ",\"tier\":"@ + v3 + r3;
    lemma_member(t, x1, ",\"sell\":"@, v2, r2, false, "sell"@);
    let r1 = ",\"sell\":"@ + v2 + r2;
    lemma_member(t, x0, ",\"name\":"@, v1, r1, false, "name"@);
    let r0 = ",\"name\":"@ + v1 + r1;
    lemma_member(t, x, "{\"item\":"@, v0, r0, true, "item"@);
    lemma_names_of_rod_rows_read_back();
}

proof fn lemma_names_of_armour_rows_read_back()
    ensures
        "item"@ != "name"@,
        "item"@ != "sell"@,
        "name"@ != "sell"@,
        "item"@ != "tier"@,
        "name"@ != "tier"@,
        "sell"@ != "tier"@,
{
    reveal_strlit("item");
    reveal_strlit("name");
    reveal_strlit("sell");
    reveal_strlit("tier");
    assert("item"@.len() == 4 && "name"@.len() == 4 && "sell"@.len() == 4 && "tier"@.len() == 4);
    assert("item"@[0] != "name"@[0]);
    assert("item"@[0] != "sell"@[0]);
    assert("name"@[0] != "sell"@[0]);
    assert("item"@[0] != "tier"@[0]);
    assert("name"@[0] != "tier"@[0]);
    assert("sell"@[0] != "tier"@[0]);
}

/// What the trader gives for a piece of armour is read back.
pub proof fn law_armour_rows_read_back(d: ArmorDef)
    ensures
        under(armor_sale_json(d), "item"@) == Some(quoted(d.item@)),
        under(armor_sale_json(d), "name"@) == Some(quoted(d.name@)),
        under(armor_sale_json(d), "sell"@) matches Some(v)
            && int_in(v) == or_nothing(armor_price(d.item@)),
        under(armor_sale_json(d), "tier"@) matches Some(v) && int_in(v) == d.tier as int,
        whole(armor_sale_json(d)),
{
    let t = armor_sale_json(d);
    let x = Seq::<char>::empty();
    let v0 = quoted(d.item@);
    law_strings_are_whole(d.item@);
    lemma_first_item();
    let v1 = quoted(d.name@);
    law_strings_are_whole(d.name@);
    lemma_next_name();
    let v2 = decimal(or_nothing(armor_price(d.item@)));
    law_numbers_read_back(or_nothing(armor_price(d.item@)));
    lemma_next_sell();
    let v3 = decimal(d.tier as int);
    law_numbers_read_back(d.tier as int);
    lemma_next_tier();
    let x0 = x + "{\"item\":"@ + v0;
    lemma_object_goes_on(x, "{\"item\":"@, v0, "item"@, true);
    let x1 = x0 + ",\"name\":"@ + v1;
    lemma_object_goes_on(x0, ",\"name\":"@, v1, "name"@, false);
    let x2 = x1 + ",\"sell\":"@ + v2;
    lemma_object_goes_on(x1, ",\"sell\":"@, v2, "sell"@, false);
    let x3 = x2 + ",\"tier\":"@ + v3;
    lemma_object_goes_on(x2, ",\"tier\":"@, v3, "tier"@, false);
    lemma_ends("{\"item\":"@);
    assert(t == x3 + "}"@);
    lemma_object_is_whole(x3);
    let r3 = "}"@;
    lemma_member(t, x2, ",\"tier\":"@, v3, r3, false, "tier"@);
    let r2 = ",\"tier\":"@ + v3 + r3;
    lemma_member(t, x1, ",\"sell\":"@, v2, r2, false, "sell"@);
    let r1 = ",\"sell\":"@ + v2 + r2;
    lemma_member(t, x0, ",\"name\":"@, v1, r1, false, "name"@);
    let r0 = ",\"name\":"@ + v1 + r1;
    lemma_member(t, x, "{\"item\":"@, v0, r0, true, "item"@);
    lemma_names_of_armour_rows_read_back();
}

proof fn lemma_names_of_sword_rows_read_back()
    ensures
        "item"@ != "name"@,
        "item"@ != "sell"@,
        "name"@ != "sell"@,
        "item"@ != "tier"@,
        "name"@ != "tier"@,
        "sell"@ != "tier"@,
{
    reveal_strlit("item");
    reveal_strlit("name");
    reveal_strlit("sell");
    reveal_strlit("tier");
    assert("item"@.len() == 4 && "name"@.len() == 4 && "sell"@.len() == 4 && "tier"@.len() == 4);
    assert("item"@[0] != "name"@[0]);
    assert("item"@[0] != "sell"@[0]);
    assert("name"@[0] != "sell"@[0]);
    assert("item"@[0] != "tier"@[0]);
    assert("name"@[0] != "tier"@[0]);
    assert("sell"@[0] != "tier"@[0]);
}

/// What the trader gives for a sword is read back.
pub proof fn law_sword_rows_read_back(d: SwordDef)
    ensures
        under(sword_sale_json(d), "item"@) == Some(quoted(d.item@)),
        under(sword_sale_json(d), "name"@) == Some(quoted(d.name@)),
        under(sword_sale_json(d), "sell"@) matches Some(v)
            && int_in(v) == or_nothing(sword_price(d.item@)),
        under(sword_sale_json(d), "tier"@) matches Some(v) && int_in(v) == d.tier as int,
        whole(sword_sale_json(d)),
{
    let t = sword_sale_json(d);
    let x = Seq::<char>::empty();
    let v0 = quoted(d.item@);
    law_strings_are_whole(d.item@);
    lemma_first_item();
    let v1 = quoted(d.name@);
    law_strings_are_whole(d.name@);
    lemma_next_name();
    let v2 = decimal(or_nothing(sword_price(d.item@)));
    law_numbers_read_back(or_nothing(sword_price(d.item@)));
    lemma_next_sell();
    let v3 = decimal(d.tier as int);
    law_numbers_read_back(d.tier as int);
    lemma_next_tier();
    let x0 = x + "{\"item\":"@ + v0;
    lemma_object_goes_on(x, "{\"item\":"@, v0, "item"@, true);
    let x1 = x0 + ",\"name\":"@ + v1;
    lemma_object_goes_on(x0, ",\"name\":"@, v1, "name"@, false);
    let x2 = x1 + ",\"sell\":"@ + v2;
    lemma_object_goes_on(x1, ",\"sell\":"@, v2, "sell"@, false);
    let x3 = x2 + ",\"tier\":"@ + v3;
    lemma_object_goes_on(x2, ",\"tier\":"@, v3, "tier"@, false);
    lemma_ends("{\"item\":"@);
    assert(t == x3 + "}"@);
    lemma_object_is_whole(x3);
    let r3 = "}"@;
    lemma_member(t, x2, ",\"tier\":"@, v3, r3, false, "tier"@);
    let r2 = ",\"tier\":"@ + v3 + r3;
    lemma_member(t, x1, ",\"sell\":"@, v2, r2, false, "sell"@);
    let r1 = ",\"sell\":"@ + v2 + r2;
    lemma_member(t, x0, ",\"name\":"@, v1, r1, false, "name"@);
    let r0 = ",\"name\":"@ + v1 + r1;
    lemma_member(t, x, "{\"item\":"@, v0, r0, true, "item"@);
    lemma_names_of_sword_rows_read_back();
}

proof fn lemma_names_of_angler_rows_read_back()
    ensures
        "fish"@ != "fish_name"@,
        "fish"@ != "heal"@,
        "fish_name"@ != "heal"@,
        "fish"@ != "min_level"@,
        "fish_name"@ != "min_level"@,
        "heal"@ != "min_level"@,
        "fish"@ != "resource"@,
        "fish_name"@ != "resource"@,
        "heal"@ != "resource"@,
        "min_level"@ != "resource"@,
        "fish"@ != "resource_qty"@,
        "fish_name"@ != "resource_qty"@,
        "heal"@ != "resource_qty"@,
        "min_level"@ != "resource_qty"@,
        "resource"@ != "resource_qty"@,
        "fish"@ != "rod"@,
        "fish_name"@ != "rod"@,
        "heal"@ != "rod"@,
        "min_level"@ != "rod"@,
        "resource"@ != "rod"@,
        "resource_qty"@ != "rod"@,
        "fish"@ != "rod_name"@,
        "fish_name"@ != "rod_name"@,
        "heal"@ != "rod_name"@,
        "min_level"@ != "rod_name"@,
        "resource"@ != "rod_name"@,
        "resource_qty"@ != "rod_name"@,
        "rod"@ != "rod_name"@,
        "fish"@ != "sell"@,
        "fish_name"@ != "sell"@,
        "heal"@ != "sell"@,
        "min_level"@ != "sell"@,
        "resource"@ != "sell"@,
        "resource_qty"@ != "sell"@,
        "rod"@ != "sell"@,
        "rod_name"@ != "sell"@,
        "fish"@ != "tier"@,
        "fish_name"@ != "tier"@,
        "heal"@ != "tier"@,
        "min_level"@ != "tier"@,
        "resource"@ != "tier"@,
        "resource_qty"@ != "tier"@,
        "rod"@ != "tier"@,
        "rod_name"@ != "tier"@,
        "sell"@ != "tier"@,
        "fish"@ != "xp"@,
        "fish_name"@ != "xp"@,
        "heal"@ != "xp"@,
        "min_level"@ != "xp"@,
        "resource"@ != "xp"@,
        "resource_qty"@ != "xp"@,
        "rod"@ != "xp"@,
        "rod_name"@ != "xp"@,
        "sell"@ != "xp"@,
        "tier"@ != "xp"@,
{
    reveal_strlit("fish");
    reveal_strlit("fish_name");
    reveal_strlit("heal");
    reveal_strlit("min_level");
    reveal_strlit("resource");
    reveal_strlit("resource_qty");
    reveal_strlit("rod");
    reveal_strlit("rod_name");
    reveal_strlit("sell");
    reveal_strlit("tier");
    reveal_strlit("xp");
    assert("fish"@.len() == 4 && "fish_name"@.len() == 9 && "heal"@.len() == 4
        && "min_level"@.len() == 9 && "resource"@.len() == 8 && "resource_qty"@.len() == 12
        && "rod"@.len() == 3 && "rod_name"@.len() == 8 && "sell"@.len() == 4 && "tier"@.len() == 4
        && "xp"@.len() == 2);
    assert("fish"@[0] != "heal"@[0]);
    assert("fish_name"@[0] != "min_level"@[0]);
    assert("resource"@[1] != "rod_name"@[1]);
    assert("fish"@[0] != "sell"@[0]);
    assert("heal"@[0] != "sell"@[0]);
    assert("fish"@[0] != "tier"@[0]);
    assert("heal"@[0] != "tier"@[0]);
    assert("sell"@[0] != "tier"@[0]);
}

/// What the angler offers is read back: the rod, what it is made of, and what it catches.
pub proof fn law_angler_rows_read_back(d: FishDef)
    ensures
        under(angler_json(d), "fish"@) == Some(quoted(d.fish@)),
        under(angler_json(d), "fish_name"@) == Some(quoted(d.fish_name@)),
        under(angler_json(d), "heal"@) matches Some(v) && int_in(v) == d.heal as int,
        under(angler_json(d), "min_level"@) matches Some(v)
            && int_in(v) == min_level(d.tier) as int,
        under(angler_json(d), "resource"@) == Some(quoted(d.resource@)),
        under(angler_json(d), "resource_qty"@) matches Some(v)
            && int_in(v) == ANGLER_RESOURCE_QTY as int,
        under(angler_json(d), "rod"@) == Some(quoted(d.rod@)),
        under(angler_json(d), "rod_name"@) == Some(quoted(d.rod_name@)),
        under(angler_json(d), "sell"@) matches Some(v) && int_in(v) == d.sell as int,
        under(angler_json(d), "tier"@) matches Some(v) && int_in(v) == d.tier + 1,
        under(angler_json(d), "xp"@) matches Some(v) && int_in(v) == d.xp as int,
        whole(angler_json(d)),
{
    let t = angler_json(d);
    let x = Seq::<char>::empty();
    let v0 = quoted(d.fish@);
    law_strings_are_whole(d.fish@);
    lemma_first_fish();
    let v1 = quoted(d.fish_name@);
    law_strings_are_whole(d.fish_name@);
    lemma_next_fish_name();
    let v2 = decimal(d.heal as int);
    law_numbers_read_back(d.heal as int);
    lemma_next_heal();
    let v3 = decimal(min_level(d.tier) as int);
    law_numbers_read_back(min_level(d.tier) as int);
    lemma_next_min_level();
    let v4 = quoted(d.resource@);
    law_strings_are_whole(d.resource@);
    lemma_next_resource();
    let v5 = decimal(ANGLER_RESOURCE_QTY as int);
    law_numbers_read_back(ANGLER_RESOURCE_QTY as int);
    lemma_next_resource_qty();
    let v6 = quoted(d.rod@);
    law_strings_are_whole(d.rod@);
    lemma_next_rod();
    let v7 = quoted(d.rod_name@);
    law_strings_are_whole(d.rod_name@);
    lemma_next_rod_name();
    let v8 = decimal(d.sell as int);
    law_numbers_read_back(d.sell as int);
    lemma_next_sell();
    let v9 = decimal(d.tier + 1);
    law_numbers_read_back(d.tier + 1);
    lemma_next_tier();
    let v10 = decimal(d.xp as int);
    law_numbers_read_back(d.xp as int);
    lemma_next_xp();
    let x0 = x + "{\"fish\":"@ + v0;
    lemma_object_goes_on(x, "{\"fish\":"@, v0, "fish"@, true);
    let x1 = x0 + ",\"fish_name\":"@ + v1;
    lemma_object_goes_on(x0, ",\"fish_name\":"@, v1, "fish_name"@, false);
    let x2 = x1 + ",\"heal\":"@ + v2;
    lemma_object_goes_on(x1, ",\"heal\":"@, v2, "heal"@, false);
    let x3 = x2 + ",\"min_level\":"@ + v3;
    lemma_object_goes_on(x2, ",\"min_level\":"@, v3, "min_level"@, false);
    let x4 = x3 + ",\"resource\":"@ + v4;
    lemma_object_goes_on(x3, ",\"resource\":"@, v4, "resource"@, false);
    let x5 = x4 + ",\"resource_qty\":"@ + v5;
    lemma_object_goes_on(x4, ",\"resource_qty\":"@, v5, "resource_qty"@, false);
    let x6 = x5 + ",\"rod\":"@ + v6;
    lemma_object_goes_on(x5, ",\"rod\":"@, v6, "rod"@, false);
    let x7 = x6 + ",\"rod_name\":"@ + v7;
    lemma_object_goes_on(x6, ",\"rod_name\":"@, v7, "rod_name"@, false);
    let x8 = x7 + ",\"sell\":"@ + v8;
    lemma_object_goes_on(x7, ",\"sell\":"@, v8, "sell"@, false);
    let x9 = x8 + ",\"tier\":"@ + v9;
    lemma_object_goes_on(x8, ",\"tier\":"@, v9, "tier"@, false);
    let x10 = x9 + ",\"xp\":"@ + v10;
    lemma_object_goes_on(x9, ",\"xp\":"@, v10, "xp"@, false);
    lemma_ends("{\"fish\":"@);
    assert(t == x10 + "}"@);
    lemma_object_is_whole(x10);
    let r10 = "}"@;
    lemma_member(t, x9, ",\"xp\":"@, v10, r10, false, "xp"@);
    let r9 = ",\"xp\":"@ + v10 + r10;
    lemma_member(t, x8, ",\"tier\":"@, v9, r9, false, "tier"@);
    let r8 = ",\"tier\":"@ + v9 + r9;
    lemma_member(t, x7, ",\"sell\":"@, v8, r8, false, "sell"@);
    let r7 = ",\"sell\":"@ + v8 + r8;
    lemma_member(t, x6, ",\"rod_name\":"@, v7, r7, false, "rod_name"@);
    let r6 = ",\"rod_name\":"@ + v7 + r7;
    lemma_member(t, x5, ",\"rod\":"@, v6, r6, false, "rod"@);
    let r5 = ",\"rod\":"@ + v6 + r6;
    lemma_member(t, x4, ",\"resource_qty\":"@, v5, r5, false, "resource_qty"@);
    let r4 = ",\"resource_qty\":"@ + v5 + r5;
    lemma_member(t, x3, ",\"resource\":"@, v4, r4, false, "resource"@);
    let r3 = ",\"resource\":"@ + v4 + r4;
    lemma_member(t, x2, ",\"min_level\":"@, v3, r3, false, "min_level"@);
    let r2 = ",\"min_level\":"@ + v3 + r3;
    lemma_member(t, x1, ",\"heal\":"@, v2, r2, false, "heal"@);
    let r1 = ",\"heal\":"@ + v2 + r2;
    lemma_member(t, x0, ",\"fish_name\":"@, v1, r1, false, "fish_name"@);
    let r0 = ",\"fish_name\":"@ + v1 + r1;
    lemma_member(t, x, "{\"fish\":"@, v0, r0, true, "fish"@);
    lemma_names_of_angler_rows_read_back();
}

proof fn lemma_names_of_armour_forge_rows_read_back()
    ensures
        "damage"@ != "defence"@,
        "damage"@ != "item"@,
        "defence"@ != "item"@,
        "damage"@ != "name"@,
        "defence"@ != "name"@,
        "item"@ != "name"@,
        "damage"@ != "ore"@,
        "defence"@ != "ore"@,
        "item"@ != "ore"@,
        "name"@ != "ore"@,
        "damage"@ != "ore_qty"@,
        "defence"@ != "ore_qty"@,
        "item"@ != "ore_qty"@,
        "name"@ != "ore_qty"@,
        "ore"@ != "ore_qty"@,
        "damage"@ != "slot"@,
        "defence"@ != "slot"@,
        "item"@ != "slot"@,
        "name"@ != "slot"@,
        "ore"@ != "slot"@,
        "ore_qty"@ != "slot"@,
        "damage"@ != "tier"@,
        "defence"@ != "tier"@,
        "item"@ != "tier"@,
        "name"@ != "tier"@,
        "ore"@ != "tier"@,
        "ore_qty"@ != "tier"@,
        "slot"@ != "tier"@,
        "damage"@ != "value"@,
        "defence"@ != "value"@,
        "item"@ != "value"@,
        "name"@ != "value"@,
        "ore"@ != "value"@,
        "ore_qty"@ != "value"@,
        "slot"@ != "value"@,
        "tier"@ != "value"@,
{
    reveal_strlit("damage");
    reveal_strlit("defence");
    reveal_strlit("item");
    reveal_strlit("name");
    reveal_strlit("ore");
    reveal_strlit("ore_qty");
    reveal_strlit("slot");
    reveal_strlit("tier");
    reveal_strlit("value");
    assert("damage"@.len() == 6 && "defence"@.len() == 7 && "item"@.len() == 4
        && "name"@.len() == 4 && "ore"@.len() == 3 && "ore_qty"@.len() == 7 && "slot"@.len() == 4
        && "tier"@.len() == 4 && "value"@.len() == 5);
    assert("item"@[0] != "name"@[0]);
    assert("defence"@[0] != "ore_qty"@[0]);
    assert("item"@[0] != "slot"@[0]);
    assert("name"@[0] != "slot"@[0]);
    assert("item"@[0] != "tier"@[0]);
    assert("name"@[0] != "tier"@[0]);
    assert("slot"@[0] != "tier"@[0]);
}

/// A piece of armour that the blacksmith makes is read back.
pub proof fn law_armour_forge_rows_read_back(d: ArmorDef)
    ensures
        under(armor_forge_json(d), "damage"@) matches Some(v) && int_in(v) == 0,
        under(armor_forge_json(d), "defence"@) matches Some(v) && int_in(v) == d.defence as int,
        under(armor_forge_json(d), "item"@) == Some(quoted(d.item@)),
        under(armor_forge_json(d), "name"@) == Some(quoted(d.name@)),
        under(armor_forge_json(d), "ore"@) == Some(quoted(d.ore@)),
        under(armor_forge_json(d), "ore_qty"@) matches Some(v) && int_in(v) == d.ore_qty as int,
        under(armor_forge_json(d), "slot"@) == Some(quoted(d.slot@)),
        under(armor_forge_json(d), "tier"@) matches Some(v) && int_in(v) == d.tier as int,
        under(armor_forge_json(d), "value"@) matches Some(v)
            && int_in(v) == or_nothing(armor_price(d.item@)),
        whole(armor_forge_json(d)),
{
    let t = armor_forge_json(d);
    let x = Seq::<char>::empty();
    let v0 = decimal(0);
    law_numbers_read_back(0);
    lemma_first_damage();
    let v1 = decimal(d.defence as int);
    law_numbers_read_back(d.defence as int);
    lemma_next_defence();
    let v2 = quoted(d.item@);
    law_strings_are_whole(d.item@);
    lemma_next_item();
    let v3 = quoted(d.name@);
    law_strings_are_whole(d.name@);
    lemma_next_name();
    let v4 = quoted(d.ore@);
    law_strings_are_whole(d.ore@);
    lemma_next_ore();
    let v5 = decimal(d.ore_qty as int);
    law_numbers_read_back(d.ore_qty as int);
    lemma_next_ore_qty();
    let v6 = quoted(d.slot@);
    law_strings_are_whole(d.slot@);
    lemma_next_slot();
    let v7 = decimal(d.tier as int);
    law_numbers_read_back(d.tier as int);
    lemma_next_tier();
    let v8 = decimal(or_nothing(armor_price(d.item@)));
    law_numbers_read_back(or_nothing(armor_price(d.item@)));
    lemma_next_value();
    let x0 = x + "{\"damage\":"@ + v0;
    lemma_object_goes_on(x, "{\"damage\":"@, v0, "damage"@, true);
    let x1 = x0 + ",\"defence\":"@ + v1;
    lemma_object_goes_on(x0, ",\"defence\":"@, v1, "defence"@, false);
    let x2 = x1 + ",\"item\":"@ + v2;
    lemma_object_goes_on(x1, ",\"item\":"@, v2, "item"@, false);
    let x3 = x2 + ",\"name\":"@ + v3;
    lemma_object_goes_on(x2, ",\"name\":"@, v3, "name"@, false);
    let x4 = x3 + ",\"ore\":"@ + v4;
    lemma_object_goes_on(x3, ",\"ore\":"@, v4, "ore"@, false);
    let x5 = x4 + ",\"ore_qty\":"@ + v5;
    lemma_object_goes_on(x4, ",\"ore_qty\":"@, v5, "ore_qty"@, false);
    let x6 = x5 + ",\"slot\":"@ + v6;
    lemma_object_goes_on(x5, ",\"slot\":"@, v6, "slot"@, false);
    let x7 = x6 + ",\"tier\":"@ + v7;
    lemma_object_goes_on(x6, ",\"tier\":"@, v7, "tier"@, false);
    let x8 = x7 + ",\"value\":"@ + v8;
    lemma_object_goes_on(x7, ",\"value\":"@, v8, "value"@, false);
    lemma_ends("{\"damage\":"@);
    assert(t == x8 + "}"@);
    lemma_object_is_whole(x8);
    let r8 = "}"@;
    lemma_member(t, x7, ",\"value\":"@, v8, r8, false, "value"@);
    let r7 = ",\"value\":"@ + v8 + r8;
    lemma_member(t, x6, ",\"tier\":"@, v7, r7, false, "tier"@);
    let r6 = ",\"tier\":"@ + v7 + r7;
    lemma_member(t, x5, ",\"slot\":"@, v6, r6, false, "slot"@);
    let r5 = ",\"slot\":"@ + v6 + r6;
    lemma_member(t, x4, ",\"ore_qty\":"@, v5, r5, false, "ore_qty"@);
    let r4 = ",\"ore_qty\":"@ + v5 + r5;
    lemma_member(t, x3, ",\"ore\":"@, v4, r4, false, "ore"@);
    let r3 = ",\"ore\":"@ + v4 + r4;
    lemma_member(t, x2, ",\"name\":"@, v3, r3, false, "name"@);
    let r2 = ",\"name\":"@ + v3 + r3;
    lemma_member(t, x1, ",\"item\":"@, v2, r2, false, "item"@);
    let r1 = ",\"item\":"@ + v2 + r2;
    lemma_member(t, x0, ",\"defence\":"@, v1, r1, false, "defence"@);
    let r0 = ",\"defence\":"@ + v1 + r1;
    lemma_member(t, x, "{\"damage\":"@, v0, r0, true, "damage"@);
    lemma_names_of_armour_forge_rows_read_back();
}

proof fn lemma_names_of_sword_forge_rows_read_back()
    ensures
        "damage"@ != "defence"@,
        "damage"@ != "item"@,
        "defence"@ != "item"@,
        "damage"@ != "name"@,
        "defence"@ != "name"@,
        "item"@ != "name"@,
        "damage"@ != "ore"@,
        "defence"@ != "ore"@,
        "item"@ != "ore"@,
        "name"@ != "ore"@,
        "damage"@ != "ore_qty"@,
        "defence"@ != "ore_qty"@,
        "item"@ != "ore_qty"@,
        "name"@ != "ore_qty"@,
        "ore"@ != "ore_qty"@,
        "damage"@ != "slot"@,
        "defence"@ != "slot"@,
        "item"@ != "slot"@,
        "name"@ != "slot"@,
        "ore"@ != "slot"@,
        "ore_qty"@ != "slot"@,
        "damage"@ != "tier"@,
        "defence"@ != "tier"@,
        "item"@ != "tier"@,
        "name"@ != "tier"@,
        "ore"@ != "tier"@,
        "ore_qty"@ != "tier"@,
        "slot"@ != "tier"@,
        "damage"@ != "value"@,
        "defence"@ != "value"@,
        "item"@ != "value"@,
        "name"@ != "value"@,
        "ore"@ != "value"@,
        "ore_qty"@ != "value"@,
        "slot"@ != "value"@,
        "tier"@ != "value"@,
{
    reveal_strlit("damage");
    reveal_strlit("defence");
    reveal_strlit("item");
    reveal_strlit("name");
    reveal_strlit("ore");
    reveal_strlit("ore_qty");
    reveal_strlit("slot");
    reveal_strlit("tier");
    reveal_strlit("value");
    assert("damage"@.len() == 6 && "defence"@.len() == 7 && "item"@.len() == 4
        && "name"@.len() == 4 && "ore"@.len() == 3 && "ore_qty"@.len() == 7 && "slot"@.len() == 4
        && "tier"@.len() == 4 && "value"@.len() == 5);
    assert("item"@[0] != "name"@[0]);
    assert("defence"@[0] != "ore_qty"@[0]);
    assert("item"@[0] != "slot"@[0]);
    assert("name"@[0] != "slot"@[0]);
    assert("item"@[0] != "tier"@[0]);
    assert("name"@[0] != "tier"@[0]);
    assert("slot"@[0] != "tier"@[0]);
}

/// A sword that the blacksmith makes is read back.
pub proof fn law_sword_forge_rows_read_back(d: SwordDef)
    ensures
        under(sword_forge_json(d), "damage"@) matches Some(v) && int_in(v) == d.damage as int,
        under(sword_forge_json(d), "defence"@) matches Some(v) && int_in(v) == 0,
        under(sword_forge_json(d), "item"@) == Some(quoted(d.item@)),
        under(sword_forge_json(d), "name"@) == Some(quoted(d.name@)),
        under(sword_forge_json(d), "ore"@) == Some(quoted(d.ore@)),
        under(sword_forge_json(d), "ore_qty"@) matches Some(v) && int_in(v) == d.ore_qty as int,
        under(sword_forge_json(d), "slot"@) == Some(quoted("right_hand"@)),
        under(sword_forge_json(d), "tier"@) matches Some(v) && int_in(v) == d.tier as int,
        under(sword_forge_json(d), "value"@) matches Some(v)
            && int_in(v) == or_nothing(sword_price(d.item@)),
        whole(sword_forge_json(d)),
{
    let t = sword_forge_json(d);
    let x = Seq::<char>::empty();
    let v0 = decimal(d.damage as int);
    law_numbers_read_back(d.damage as int);
    lemma_first_damage();
    let v1 = decimal(0);
    law_numbers_read_back(0);
    lemma_next_defence();
    let v2 = quoted(d.item@);
    law_strings_are_whole(d.item@);
    lemma_next_item();
    let v3 = quoted(d.name@);
    law_strings_are_whole(d.name@);
    lemma_next_name();
    let v4 = quoted(d.ore@);
    law_strings_are_whole(d.ore@);
    lemma_next_ore();
    let v5 = decimal(d.ore_qty as int);
    law_numbers_read_back(d.ore_qty as int);
    lemma_next_ore_qty();
    let v6 = quoted("right_hand"@);
    law_strings_are_whole("right_hand"@);
    lemma_next_slot();
    let v7 = decimal(d.tier as int);
    law_numbers_read_back(d.tier as int);
    lemma_next_tier();
    let v8 = decimal(or_nothing(sword_price(d.item@)));
    law_numbers_read_back(or_nothing(sword_price(d.item@)));
    lemma_next_value();
    let x0 = x + "{\"damage\":"@ + v0;
    lemma_object_goes_on(x, "{\"damage\":"@, v0, "damage"@, true);
    let x1 = x0 + ",\"defence\":"@ + v1;
    lemma_object_goes_on(x0, ",\"defence\":"@, v1, "defence"@, false);
    let x2 = x1 + ",\"item\":"@ + v2;
    lemma_object_goes_on(x1, ",\"item\":"@, v2, "item"@, false);
    let x3 = x2 + ",\"name\":"@ + v3;
    lemma_object_goes_on(x2, ",\"name\":"@, v3, "name"@, false);
    let x4 = x3 + ",\"ore\":"@ + v4;
    lemma_object_goes_on(x3, ",\"ore\":"@, v4, "ore"@, false);
    let x5 = x4 + ",\"ore_qty\":"@ + v5;
    lemma_object_goes_on(x4, ",\"ore_qty\":"@, v5, "ore_qty"@, false);
    let x6 = x5 + ",\"slot\":"@ + v6;
    lemma_object_goes_on(x5, ",\"slot\":"@, v6, "slot"@, false);
    let x7 = x6 + ",\"tier\":"@ + v7;
    lemma_object_goes_on(x6, ",\"tier\":"@, v7, "tier"@, false);
    let x8 = x7 + ",\"value\":"@ + v8;
    lemma_object_goes_on(x7, ",\"value\":"@, v8, "value"@, false);
    lemma_ends("{\"damage\":"@);
    assert(t == x8 + "}"@);
    lemma_object_is_whole(x8);
    let r8 = "}"@;
    lemma_member(t, x7, ",\"value\":"@, v8, r8, false, "value"@);
    let r7 = ",\"value\":"@ + v8 + r8;
    lemma_member(t, x6, ",\"tier\":"@, v7, r7, false, "tier"@);
    let r6 = ",\"tier\":"@ + v7 + r7;
    lemma_member(t, x5, ",\"slot\":"@, v6, r6, false, "slot"@);
    let r5 = ",\"slot\":"@ + v6 + r6;
    lemma_member(t, x4, ",\"ore_qty\":"@, v5, r5, false, "ore_qty"@);
    let r4 = ",\"ore_qty\":"@ + v5 + r5;
    lemma_member(t, x3, ",\"ore\":"@, v4, r4, false, "ore"@);
    let r3 = ",\"ore\":"@ + v4 + r4;
    lemma_member(t, x2, ",\"name\":"@, v3, r3, false, "name"@);
    let r2 = ",\"name\":"@ + v3 + r3;
    lemma_member(t, x1, ",\"item\":"@, v2, r2, false, "item"@);
    let r1 = ",\"item\":"@ + v2 + r2;
    lemma_member(t, x0, ",\"defence\":"@, v1, r1, false, "defence"@);
    let r0 = ",\"defence\":"@ + v1 + r1;
    lemma_member(t, x, "{\"damage\":"@, v0, r0, true, "damage"@);
    lemma_names_of_sword_forge_rows_read_back();
}

proof fn lemma_names_of_trades_read_back()
    ensures
        "open"@ != "partner_id"@,
        "open"@ != "partner_name"@,
        "partner_id"@ != "partner_name"@,
        "open"@ != "stage"@,
        "partner_id"@ != "stage"@,
        "partner_name"@ != "stage"@,
        "open"@ != "their_accepted"@,
        "partner_id"@ != "their_accepted"@,
        "partner_name"@ != "their_accepted"@,
        "stage"@ != "their_accepted"@,
        "open"@ != "their_confirmed"@,
        "partner_id"@ != "their_confirmed"@,
        "partner_name"@ != "their_confirmed"@,
        "stage"@ != "their_confirmed"@,
        "their_accepted"@ != "their_confirmed"@,
        "open"@ != "their_offer"@,
        "partner_id"@ != "their_offer"@,
        "partner_name"@ != "their_offer"@,
        "stage"@ != "their_offer"@,
        "their_accepted"@ != "their_offer"@,
        "their_confirmed"@ != "their_offer"@,
        "open"@ != "your_accepted"@,
        "partner_id"@ != "your_accepted"@,
        "partner_name"@ != "your_accepted"@,
        "stage"@ != "your_accepted"@,
        "their_accepted"@ != "your_accepted"@,
        "their_confirmed"@ != "your_accepted"@,
        "their_offer"@ != "your_accepted"@,
        "open"@ != "your_confirmed"@,
        "partner_id"@ != "your_confirmed"@,
        "partner_name"@ != "your_confirmed"@,
        "stage"@ != "your_confirmed"@,
        "their_accepted"@ != "your_confirmed"@,
        "their_confirmed"@ != "your_confirmed"@,
        "their_offer"@ != "your_confirmed"@,
        "your_accepted"@ != "your_confirmed"@,
        "open"@ != "your_offer"@,
        "partner_id"@ != "your_offer"@,
        "partner_name"@ != "your_offer"@,
        "stage"@ != "your_offer"@,
        "their_accepted"@ != "your_offer"@,
        "their_confirmed"@ != "your_offer"@,
        "their_offer"@ != "your_offer"@,
        "your_accepted"@ != "your_offer"@,
        "your_confirmed"@ != "your_offer"@,
        "open"@ != "your_offer_slots"@,
        "partner_id"@ != "your_offer_slots"@,
        "partner_name"@ != "your_offer_slots"@,
        "stage"@ != "your_offer_slots"@,
        "their_accepted"@ != "your_offer_slots"@,
        "their_confirmed"@ != "your_offer_slots"@,
        "their_offer"@ != "your_offer_slots"@,
        "your_accepted"@ != "your_offer_slots"@,
        "your_confirmed"@ != "your_offer_slots"@,
        "your_offer"@ != "your_offer_slots"@,
{
    reveal_strlit("open");
    reveal_strlit("partner_id");
    reveal_strlit("partner_name");
    reveal_strlit("stage");
    reveal_strlit("their_accepted");
    reveal_strlit("their_confirmed");
    reveal_strlit("their_offer");
    reveal_strlit("your_accepted");
    reveal_strlit("your_confirmed");
    reveal_strlit("your_offer");
    reveal_strlit("your_offer_slots");
    assert("open"@.len() == 4 && "partner_id"@.len() == 10 && "partner_name"@.len() == 12
        && "stage"@.len() == 5 && "their_accepted"@.len() == 14 && "their_confirmed"@.len() == 15
        && "their_offer"@.len() == 11 && "your_accepted"@.len() == 13
        && "your_confirmed"@.len() == 14 && "your_offer"@.len() == 10
        && "your_offer_slots"@.len() == 16);
    assert("their_accepted"@[0] != "your_confirmed"@[0]);
    assert("partner_id"@[0] != "your_offer"@[0]);
}

/// A trade is read back as one side sees it: who the other is, what each has agreed to, and
/// what each offers.
pub proof fn law_trades_read_back(you: PlayerV, partner_id: u32, them: PlayerV)
    ensures
        under(trade_json(you, partner_id, them), "open"@) == Some("true"@),
        under(trade_json(you, partner_id, them), "partner_id"@) matches Some(v)
            && int_in(v) == partner_id as int,
        under(trade_json(you, partner_id, them), "partner_name"@) == Some(quoted(them.name)),
        under(trade_json(you, partner_id, them), "stage"@) == Some(stage_json(you.trade.stage)),
        under(trade_json(you, partner_id, them), "their_accepted"@) == Some(
            if them.trade.accepted {
                "true"@
            } else {
                "false"@
            },
        ),
        under(trade_json(you, partner_id, them), "their_confirmed"@) == Some(
            if them.trade.confirmed {
                "true"@
            } else {
                "false"@
            },
        ),
        under(trade_json(you, partner_id, them), "their_offer"@) == Some(
            array(offer_rows(them.inv, them.trade.offer)),
        ),
        under(trade_json(you, partner_id, them), "your_accepted"@) == Some(
            if you.trade.accepted {
                "true"@
            } else {
                "false"@
            },
        ),
        under(trade_json(you, partner_id, them), "your_confirmed"@) == Some(
            if you.trade.confirmed {
                "true"@
            } else {
                "false"@
            },
        ),
        under(trade_json(you, partner_id, them), "your_offer"@) == Some(
            array(offer_rows(you.inv, you.trade.offer)),
        ),
        under(trade_json(you, partner_id, them), "your_offer_slots"@) == Some(
            array(decimals(you.trade.offer)),
        ),
        whole(trade_json(you, partner_id, them)),
{
    let t = trade_json(you, partner_id, them);
    let x = Seq::<char>::empty();
    let v0 = "true"@;
    law_truths_read_back(true);
    lemma_first_open();
    let v1 = decimal(partner_id as int);
    law_numbers_read_back(partner_id as int);
    lemma_next_partner_id();
    let v2 = quoted(them.name);
    law_strings_are_whole(them.name);
    lemma_next_partner_name();
    let v3 = stage_json(you.trade.stage);
    lemma_stage(you.trade.stage);
    lemma_next_stage();
    let v4 = truth(them.trade.accepted);
    law_truths_read_back(them.trade.accepted);
    lemma_next_their_accepted();
    let v5 = truth(them.trade.confirmed);
    law_truths_read_back(them.trade.confirmed);
    lemma_next_their_confirmed();
    let v6 = array(offer_rows(them.inv, them.trade.offer));
    lemma_offer_rows(them.inv, them.trade.offer);
    law_arrays_are_whole(offer_rows(them.inv, them.trade.offer));
    lemma_next_their_offer();
    let v7 = truth(you.trade.accepted);
    law_truths_read_back(you.trade.accepted);
    lemma_next_your_accepted();
    let v8 = truth(you.trade.confirmed);
    law_truths_read_back(you.trade.confirmed);
    lemma_next_your_confirmed();
    let v9 = array(offer_rows(you.inv, you.trade.offer));
    lemma_offer_rows(you.inv, you.trade.offer);
    law_arrays_are_whole(offer_rows(you.inv, you.trade.offer));
    lemma_next_your_offer();
    let v10 = array(decimals(you.trade.offer));
    lemma_decimals(you.trade.offer); law_arrays_are_whole(decimals(you.trade.offer));
    lemma_next_your_offer_slots();
    let x0 = x + "{\"open\":"@ + v0;
    lemma_object_goes_on(x, "{\"open\":"@, v0, "open"@, true);
    let x1 = x0 + ",\"partner_id\":"@ + v1;
    lemma_object_goes_on(x0, ",\"partner_id\":"@, v1, "partner_id"@, false);
    let x2 = x1 + ",\"partner_name\":"@ + v2;
    lemma_object_goes_on(x1, ",\"partner_name\":"@, v2, "partner_name"@, false);
    let x3 = x2 + ",\"stage\":"@ + v3;
    lemma_object_goes_on(x2, ",\"stage\":"@, v3, "stage"@, false);
    let x4 = x3 + ",\"their_accepted\":"@ + v4;
    lemma_object_goes_on(x3, ",\"their_accepted\":"@, v4, "their_accepted"@, false);
    let x5 = x4 + ",\"their_confirmed\":"@ + v5;
    lemma_object_goes_on(x4, ",\"their_confirmed\":"@, v5, "their_confirmed"@, false);
    let x6 = x5 + ",\"their_offer\":"@ + v6;
    lemma_object_goes_on(x5, ",\"their_offer\":"@, v6, "their_offer"@, false);
    let x7 = x6 + ",\"your_accepted\":"@ + v7;
    lemma_object_goes_on(x6, ",\"your_accepted\":"@, v7, "your_accepted"@, false);
    let x8 = x7 + ",\"your_confirmed\":"@ + v8;
    lemma_object_goes_on(x7, ",\"your_confirmed\":"@, v8, "your_confirmed"@, false);
    let x9 = x8 + ",\"your_offer\":"@ + v9;
    lemma_object_goes_on(x8, ",\"your_offer\":"@, v9, "your_offer"@, false);
    let x10 = x9 + ",\"your_offer_slots\":"@ + v10;
    lemma_object_goes_on(x9, ",\"your_offer_slots\":"@, v10, "your_offer_slots"@, false);
    lemma_ends("{\"open\":"@);
    lemma_trade_opening();
    assert(x0 + ",\"partner_id\":"@ =~= "{\"open\":true,\"partner_id\":"@);
    assert(t == x10 + "}"@);
    lemma_object_is_whole(x10);
    let r10 = "}"@;
    lemma_member(t, x9, ",\"your_offer_slots\":"@, v10, r10, false, "your_offer_slots"@);
    let r9 = ",\"your_offer_slots\":"@ + v10 + r10;
    lemma_member(t, x8, ",\"your_offer\":"@, v9, r9, false, "your_offer"@);
    let r8 = ",\"your_offer\":"@ + v9 + r9;
    lemma_member(t, x7, ",\"your_confirmed\":"@, v8, r8, false, "your_confirmed"@);
    let r7 = ",\"your_confirmed\":"@ + v8 + r8;
    lemma_member(t, x6, ",\"your_accepted\":"@, v7, r7, false, "your_accepted"@);
    let r6 = ",\"your_accepted\":"@ + v7 + r7;
    lemma_member(t, x5, ",\"their_offer\":"@, v6, r6, false, "their_offer"@);
    let r5 = ",\"their_offer\":"@ + v6 + r6;
    lemma_member(t, x4, ",\"their_confirmed\":"@, v5, r5, false, "their_confirmed"@);
    let r4 = ",\"their_confirmed\":"@ + v5 + r5;
    lemma_member(t, x3, ",\"their_accepted\":"@, v4, r4, false, "their_accepted"@);
    let r3 = ",\"their_accepted\":"@ + v4 + r4;
    lemma_member(t, x2, ",\"stage\":"@, v3, r3, false, "stage"@);
    let r2 = ",\"stage\":"@ + v3 + r3;
    lemma_member(t, x1, ",\"partner_name\":"@, v2, r2, false, "partner_name"@);
    let r1 = ",\"partner_name\":"@ + v2 + r2;
    lemma_member(t, x0, ",\"partner_id\":"@, v1, r1, false, "partner_id"@);
    let r0 = ",\"partner_id\":"@ + v1 + r1;
    lemma_member(t, x, "{\"open\":"@, v0, r0, true, "open"@);
    lemma_names_of_trades_read_back();
}

proof fn lemma_names_of_own_view_reads_back()
    ensures
        "angel_modal_open"@ != "angler_open"@,
        "angel_modal_open"@ != "armor_defence"@,
        "angler_open"@ != "armor_defence"@,
        "angel_modal_open"@ != "axe_tier"@,
        "angler_open"@ != "axe_tier"@,
        "armor_defence"@ != "axe_tier"@,
        "angel_modal_open"@ != "forge_open"@,
        "angler_open"@ != "forge_open"@,
        "armor_defence"@ != "forge_open"@,
        "axe_tier"@ != "forge_open"@,
        "angel_modal_open"@ != "pickaxe_tier"@,
        "angler_open"@ != "pickaxe_tier"@,
        "armor_defence"@ != "pickaxe_tier"@,
        "axe_tier"@ != "pickaxe_tier"@,
        "forge_open"@ != "pickaxe_tier"@,
        "angel_modal_open"@ != "player_trade"@,
        "angler_open"@ != "player_trade"@,
        "armor_defence"@ != "player_trade"@,
        "axe_tier"@ != "player_trade"@,
        "forge_open"@ != "player_trade"@,
        "pickaxe_tier"@ != "player_trade"@,
        "angel_modal_open"@ != "rod_tier"@,
        "angler_open"@ != "rod_tier"@,
        "armor_defence"@ != "rod_tier"@,
        "axe_tier"@ != "rod_tier"@,
        "forge_open"@ != "rod_tier"@,
        "pickaxe_tier"@ != "rod_tier"@,
        "player_trade"@ != "rod_tier"@,
        "angel_modal_open"@ != "trade_open"@,
        "angler_open"@ != "trade_open"@,
        "armor_defence"@ != "trade_open"@,
        "axe_tier"@ != "trade_open"@,
        "forge_open"@ != "trade_open"@,
        "pickaxe_tier"@ != "trade_open"@,
        "player_trade"@ != "trade_open"@,
        "rod_tier"@ != "trade_open"@,
        "angel_modal_open"@ != "weapon_damage"@,
        "angler_open"@ != "weapon_damage"@,
        "armor_defence"@ != "weapon_damage"@,
        "axe_tier"@ != "weapon_damage"@,
        "forge_open"@ != "weapon_damage"@,
        "pickaxe_tier"@ != "weapon_damage"@,
        "player_trade"@ != "weapon_damage"@,
        "rod_tier"@ != "weapon_damage"@,
        "trade_open"@ != "weapon_damage"@,
{
    reveal_strlit("angel_modal_open");
    reveal_strlit("angler_open");
    reveal_strlit("armor_defence");
    reveal_strlit("axe_tier");
    reveal_strlit("forge_open");
    reveal_strlit("pickaxe_tier");
    reveal_strlit("player_trade");
    reveal_strlit("rod_tier");
    reveal_strlit("trade_open");
    reveal_strlit("weapon_damage");
    assert("angel_modal_open"@.len() == 16 && "angler_open"@.len() == 11
        && "armor_defence"@.len() == 13 && "axe_tier"@.len() == 8 && "forge_open"@.len() == 10
        && "pickaxe_tier"@.len() == 12 && "player_trade"@.len() == 12 && "rod_tier"@.len() == 8
        && "trade_open"@.len() == 10 && "weapon_damage"@.len() == 13);
    assert("pickaxe_tier"@[1] != "player_trade"@[1]);
    assert("axe_tier"@[0] != "rod_tier"@[0]);
    assert("forge_open"@[0] != "trade_open"@[0]);
    assert("armor_defence"@[0] != "weapon_damage"@[0]);
}

/// What a player is told of itself is read back: the windows that show, what its things make of
/// it, and its trade.
pub proof fn law_own_view_reads_back(s: SimV, pid: u16)
    ensures
        under(s.you_json(pid), "angel_modal_open"@) == Some(
            if s.p(pid).ui.angel_modal_open && s.near(pid, is_angel()) {
                "true"@
            } else {
                "false"@
            },
        ),
        under(s.you_json(pid), "angler_open"@) == Some(
            if s.p(pid).ui.angler_open && s.near(pid, is_angler()) {
                "true"@
            } else {
                "false"@
            },
        ),
        under(s.you_json(pid), "armor_defence"@) matches Some(v)
            && int_in(v) == derived(s.p(pid)).armor_defence as int,
        under(s.you_json(pid), "axe_tier"@) matches Some(v)
            && int_in(v) == derived(s.p(pid)).axe_tier as int,
        under(s.you_json(pid), "forge_open"@) == Some(
            if s.p(pid).ui.forge_open && s.near(pid, is_blacksmith()) {
                "true"@
            } else {
                "false"@
            },
        ),
        under(s.you_json(pid), "pickaxe_tier"@) matches Some(v)
            && int_in(v) == derived(s.p(pid)).pickaxe_tier as int,
        under(s.you_json(pid), "player_trade"@) == Some(s.trade_view(pid)),
        under(s.you_json(pid), "rod_tier"@) matches Some(v)
            && int_in(v) == derived(s.p(pid)).rod_tier as int,
        under(s.you_json(pid), "trade_open"@) == Some(
            if s.p(pid).ui.trade_open && s.near(pid, is_trader()) {
                "true"@
            } else {
                "false"@
            },
        ),
        under(s.you_json(pid), "weapon_damage"@) matches Some(v)
            && int_in(v) == derived(s.p(pid)).weapon_damage as int,
        whole(s.you_json(pid)),
{
    let t = s.you_json(pid);
    let x = Seq::<char>::empty();
    let v0 = truth(s.p(pid).ui.angel_modal_open && s.near(pid, is_angel()));
    law_truths_read_back(s.p(pid).ui.angel_modal_open && s.near(pid, is_angel()));
    lemma_first_angel_modal_open();
    let v1 = truth(s.p(pid).ui.angler_open && s.near(pid, is_angler()));
    law_truths_read_back(s.p(pid).ui.angler_open && s.near(pid, is_angler()));
    lemma_next_angler_open();
    let v2 = decimal(derived(s.p(pid)).armor_defence as int);
    law_numbers_read_back(derived(s.p(pid)).armor_defence as int);
    lemma_next_armor_defence();
    let v3 = decimal(derived(s.p(pid)).axe_tier as int);
    law_numbers_read_back(derived(s.p(pid)).axe_tier as int);
    lemma_next_axe_tier();
    let v4 = truth(s.p(pid).ui.forge_open && s.near(pid, is_blacksmith()));
    law_truths_read_back(s.p(pid).ui.forge_open && s.near(pid, is_blacksmith()));
    lemma_next_forge_open();
    let v5 = decimal(derived(s.p(pid)).pickaxe_tier as int);
    law_numbers_read_back(derived(s.p(pid)).pickaxe_tier as int);
    lemma_next_pickaxe_tier();
    let v6 = s.trade_view(pid);
    lemma_trade_view(s, pid);
    lemma_next_player_trade();
    let v7 = decimal(derived(s.p(pid)).rod_tier as int);
    law_numbers_read_back(derived(s.p(pid)).rod_tier as int);
    lemma_next_rod_tier();
    let v8 = truth(s.p(pid).ui.trade_open && s.near(pid, is_trader()));
    law_truths_read_back(s.p(pid).ui.trade_open && s.near(pid, is_trader()));
    lemma_next_trade_open();
    let v9 = decimal(derived(s.p(pid)).weapon_damage as int);
    law_numbers_read_back(derived(s.p(pid)).weapon_damage as int);
    lemma_next_weapon_damage();
    let x0 = x + "{\"angel_modal_open\":"@ + v0;
    lemma_object_goes_on(x, "{\"angel_modal_open\":"@, v0, "angel_modal_open"@, true);
    let x1 = x0 + ",\"angler_open\":"@ + v1;
    lemma_object_goes_on(x0, ",\"angler_open\":"@, v1, "angler_open"@, false);
    let x2 = x1 + ",\"armor_defence\":"@ + v2;
    lemma_object_goes_on(x1, ",\"armor_defence\":"@, v2, "armor_defence"@, false);
    let x3 = x2 + ",\"axe_tier\":"@ + v3;
    lemma_object_goes_on(x2, ",\"axe_tier\":"@, v3, "axe_tier"@, false);
    let x4 = x3 + ",\"forge_open\":"@ + v4;
    lemma_object_goes_on(x3, ",\"forge_open\":"@, v4, "forge_open"@, false);
    let x5 = x4 + ",\"pickaxe_tier\":"@ + v5;
    lemma_object_goes_on(x4, ",\"pickaxe_tier\":"@, v5, "pickaxe_tier"@, false);
    let x6 = x5 + ",\"player_trade\":"@ + v6;
    lemma_object_goes_on(x5, ",\"player_trade\":"@, v6, "player_trade"@, false);
    let x7 = x6 + ",\"rod_tier\":"@ + v7;
    lemma_object_goes_on(x6, ",\"rod_tier\":"@, v7, "rod_tier"@, false);
    let x8 = x7 + ",\"trade_open\":"@ + v8;
    lemma_object_goes_on(x7, ",\"trade_open\":"@, v8, "trade_open"@, false);
    let x9 = x8 + ",\"weapon_damage\":"@ + v9;
    lemma_object_goes_on(x8, ",\"weapon_damage\":"@, v9, "weapon_damage"@, false);
    lemma_ends("{\"angel_modal_open\":"@);
    assert(t == x9 + "}"@);
    lemma_object_is_whole(x9);
    let r9 = "}"@;
    lemma_member(t, x8, ",\"weapon_damage\":"@, v9, r9, false, "weapon_damage"@);
    let r8 = ",\"weapon_damage\":"@ + v9 + r9;
    lemma_member(t, x7, ",\"trade_open\":"@, v8, r8, false, "trade_open"@);
    let r7 = ",\"trade_open\":"@ + v8 + r8;
    lemma_member(t, x6, ",\"rod_tier\":"@, v7, r7, false, "rod_tier"@);
    let r6 = ",\"rod_tier\":"@ + v7 + r7;
    lemma_member(t, x5, ",\"player_trade\":"@, v6, r6, false, "player_trade"@);
    let r5 = ",\"player_trade\":"@ + v6 + r6;
    lemma_member(t, x4, ",\"pickaxe_tier\":"@, v5, r5, false, "pickaxe_tier"@);
    let r4 = ",\"pickaxe_tier\":"@ + v5 + r5;
    lemma_member(t, x3, ",\"forge_open\":"@, v4, r4, false, "forge_open"@);
    let r3 = ",\"forge_open\":"@ + v4 + r4;
    lemma_member(t, x2, ",\"axe_tier\":"@, v3, r3, false, "axe_tier"@);
    let r2 = ",\"axe_tier\":"@ + v3 + r3;
    lemma_member(t, x1, ",\"armor_defence\":"@, v2, r2, false, "armor_defence"@);
    let r1 = ",\"armor_defence\":"@ + v2 + r2;
    lemma_member(t, x0, ",\"angler_open\":"@, v1, r1, false, "angler_open"@);
    let r0 = ",\"angler_open\":"@ + v1 + r1;
    lemma_member(t, x, "{\"angel_modal_open\":"@, v0, r0, true, "angel_modal_open"@);
    lemma_names_of_own_view_reads_back();
}

proof fn lemma_names_of_trees_read_back()
    ensures
        "kind"@ != "tier"@,
        "kind"@ != "hp"@,
        "tier"@ != "hp"@,
{
    reveal_strlit("kind");
    reveal_strlit("tier");
    reveal_strlit("hp");
    assert("kind"@.len() == 4 && "tier"@.len() == 4 && "hp"@.len() == 2);
    assert("kind"@[0] != "tier"@[0]);
}

/// A tree is read back: its kind, its tier, and its hit points.
pub proof fn law_trees_read_back(tier: i32, hp: i32)
    ensures
        under(obj_json(Obj::Tree { tier, hp }), "kind"@) == Some("\"tree\""@),
        under(obj_json(Obj::Tree { tier, hp }), "tier"@) matches Some(v)
            && int_in(v) == tier as int,
        under(obj_json(Obj::Tree { tier, hp }), "hp"@) matches Some(v) && int_in(v) == hp as int,
        whole(obj_json(Obj::Tree { tier, hp })),
{
    let t = obj_json(Obj::Tree { tier, hp });
    let x = Seq::<char>::empty();
    let v0 = "\"tree\""@;
    lemma_kind_tree();
    lemma_first_kind();
    let v1 = decimal(tier as int);
    law_numbers_read_back(tier as int);
    lemma_next_tier();
    let v2 = decimal(hp as int);
    law_numbers_read_back(hp as int);
    lemma_next_hp();
    let x0 = x + "{\"kind\":"@ + v0;
    lemma_object_goes_on(x, "{\"kind\":"@, v0, "kind"@, true);
    let x1 = x0 + ",\"tier\":"@ + v1;
    lemma_object_goes_on(x0, ",\"tier\":"@, v1, "tier"@, false);
    let x2 = x1 + ",\"hp\":"@ + v2;
    lemma_object_goes_on(x1, ",\"hp\":"@, v2, "hp"@, false);
    lemma_ends("{\"kind\":"@);
    assert(t == x2 + "}"@);
    lemma_object_is_whole(x2);
    let r2 = "}"@;
    lemma_member(t, x1, ",\"hp\":"@, v2, r2, false, "hp"@);
    let r1 = ",\"hp\":"@ + v2 + r2;
    lemma_member(t, x0, ",\"tier\":"@, v1, r1, false, "tier"@);
    let r0 = ",\"tier\":"@ + v1 + r1;
    lemma_member(t, x, "{\"kind\":"@, v0, r0, true, "kind"@);
    lemma_names_of_trees_read_back();
}

proof fn lemma_names_of_stumps_read_back()
    ensures
        "kind"@ != "tier"@,
        "kind"@ != "regrow"@,
        "tier"@ != "regrow"@,
{
    reveal_strlit("kind");
    reveal_strlit("tier");
    reveal_strlit("regrow");
    assert("kind"@.len() == 4 && "tier"@.len() == 4 && "regrow"@.len() == 6);
    assert("kind"@[0] != "tier"@[0]);
}

/// A stump is read back: its kind, its tier, and when it has grown again.
pub proof fn law_stumps_read_back(tier: i32, regrow: u64)
    ensures
        under(obj_json(Obj::Stump { tier, regrow }), "kind"@) == Some("\"stump\""@),
        under(obj_json(Obj::Stump { tier, regrow }), "tier"@) matches Some(v)
            && int_in(v) == tier as int,
        under(obj_json(Obj::Stump { tier, regrow }), "regrow"@) matches Some(v)
            && int_in(v) == regrow as int,
        whole(obj_json(Obj::Stump { tier, regrow })),
{
    let t = obj_json(Obj::Stump { tier, regrow });
    let x = Seq::<char>::empty();
    let v0 = "\"stump\""@;
    lemma_kind_stump();
    lemma_first_kind();
    let v1 = decimal(tier as int);
    law_numbers_read_back(tier as int);
    lemma_next_tier();
    let v2 = decimal(regrow as int);
    law_numbers_read_back(regrow as int);
    lemma_next_regrow();
    let x0 = x + "{\"kind\":"@ + v0;
    lemma_object_goes_on(x, "{\"kind\":"@, v0, "kind"@, true);
    let x1 = x0 + ",\"tier\":"@ + v1;
    lemma_object_goes_on(x0, ",\"tier\":"@, v1, "tier"@, false);
    let x2 = x1 + ",\"regrow\":"@ + v2;
    lemma_object_goes_on(x1, ",\"regrow\":"@, v2, "regrow"@, false);
    lemma_ends("{\"kind\":"@);
    assert(t == x2 + "}"@);
    lemma_object_is_whole(x2);
    let r2 = "}"@;
    lemma_member(t, x1, ",\"regrow\":"@, v2, r2, false, "regrow"@);
    let r1 = ",\"regrow\":"@ + v2 + r2;
    lemma_member(t, x0, ",\"tier\":"@, v1, r1, false, "tier"@);
    let r0 = ",\"tier\":"@ + v1 + r1;
    lemma_member(t, x, "{\"kind\":"@, v0, r0, true, "kind"@);
    lemma_names_of_stumps_read_back();
}

proof fn lemma_names_of_rocks_read_back()
    ensures
        "kind"@ != "tier"@,
        "kind"@ != "hp"@,
        "tier"@ != "hp"@,
{
    reveal_strlit("kind");
    reveal_strlit("tier");
    reveal_strlit("hp");
    assert("kind"@.len() == 4 && "tier"@.len() == 4 && "hp"@.len() == 2);
    assert("kind"@[0] != "tier"@[0]);
}

/// A rock is read back: its kind, its tier, and its hit points.
pub proof fn law_rocks_read_back(tier: i32, hp: i32)
    ensures
        under(obj_json(Obj::Rock { tier, hp }), "kind"@) == Some("\"rock\""@),
        under(obj_json(Obj::Rock { tier, hp }), "tier"@) matches Some(v)
            && int_in(v) == tier as int,
        under(obj_json(Obj::Rock { tier, hp }), "hp"@) matches Some(v) && int_in(v) == hp as int,
        whole(obj_json(Obj::Rock { tier, hp })),
{
    let t = obj_json(Obj::Rock { tier, hp });
    let x = Seq::<char>::empty();
    let v0 = "\"rock\""@;
    lemma_kind_rock();
    lemma_first_kind();
    let v1 = decimal(tier as int);
    law_numbers_read_back(tier as int);
    lemma_next_tier();
    let v2 = decimal(hp as int);
    law_numbers_read_back(hp as int);
    lemma_next_hp();
    let x0 = x + "{\"kind\":"@ + v0;
    lemma_object_goes_on(x, "{\"kind\":"@, v0, "kind"@, true);
    let x1 = x0 + ",\"tier\":"@ + v1;
    lemma_object_goes_on(x0, ",\"tier\":"@, v1, "tier"@, false);
    let x2 = x1 + ",\"hp\":"@ + v2;
    lemma_object_goes_on(x1, ",\"hp\":"@, v2, "hp"@, false);
    lemma_ends("{\"kind\":"@);
    assert(t == x2 + "}"@);
    lemma_object_is_whole(x2);
    let r2 = "}"@;
    lemma_member(t, x1, ",\"hp\":"@, v2, r2, false, "hp"@);
    let r1 = ",\"hp\":"@ + v2 + r2;
    lemma_member(t, x0, ",\"tier\":"@, v1, r1, false, "tier"@);
    let r0 = ",\"tier\":"@ + v1 + r1;
    lemma_member(t, x, "{\"kind\":"@, v0, r0, true, "kind"@);
    lemma_names_of_rocks_read_back();
}

proof fn lemma_names_of_depleted_rocks_read_back()
    ensures
        "kind"@ != "tier"@,
        "kind"@ != "regrow"@,
        "tier"@ != "regrow"@,
{
    reveal_strlit("kind");
    reveal_strlit("tier");
    reveal_strlit("regrow");
    assert("kind"@.len() == 4 && "tier"@.len() == 4 && "regrow"@.len() == 6);
    assert("kind"@[0] != "tier"@[0]);
}

/// An empty rock is read back: its kind, its tier, and when it has grown again.
pub proof fn law_depleted_rocks_read_back(tier: i32, regrow: u64)
    ensures
        under(obj_json(Obj::DepletedRock { tier, regrow }), "kind"@) == Some("\"depleted_rock\""@),
        under(obj_json(Obj::DepletedRock { tier, regrow }), "tier"@) matches Some(v)
            && int_in(v) == tier as int,
        under(obj_json(Obj::DepletedRock { tier, regrow }), "regrow"@) matches Some(v)
            && int_in(v) == regrow as int,
        whole(obj_json(Obj::DepletedRock { tier, regrow })),
{
    let t = obj_json(Obj::DepletedRock { tier, regrow });
    let x = Seq::<char>::empty();
    let v0 = "\"depleted_rock\""@;
    lemma_kind_depleted_rock();
    lemma_first_kind();
    let v1 = decimal(tier as int);
    law_numbers_read_back(tier as int);
    lemma_next_tier();
    let v2 = decimal(regrow as int);
    law_numbers_read_back(regrow as int);
    lemma_next_regrow();
    let x0 = x + "{\"kind\":"@ + v0;
    lemma_object_goes_on(x, "{\"kind\":"@, v0, "kind"@, true);
    let x1 = x0 + ",\"tier\":"@ + v1;
    lemma_object_goes_on(x0, ",\"tier\":"@, v1, "tier"@, false);
    let x2 = x1 + ",\"regrow\":"@ + v2;
    lemma_object_goes_on(x1, ",\"regrow\":"@, v2, "regrow"@, false);
    lemma_ends("{\"kind\":"@);
    assert(t == x2 + "}"@);
    lemma_object_is_whole(x2);
    let r2 = "}"@;
    lemma_member(t, x1, ",\"regrow\":"@, v2, r2, false, "regrow"@);
    let r1 = ",\"regrow\":"@ + v2 + r2;
    lemma_member(t, x0, ",\"tier\":"@, v1, r1, false, "tier"@);
    let r0 = ",\"tier\":"@ + v1 + r1;
    lemma_member(t, x, "{\"kind\":"@, v0, r0, true, "kind"@);
    lemma_names_of_depleted_rocks_read_back();
}

proof fn lemma_names_of_bushes_read_back()
    ensures
        "kind"@ != "berries"@,
        "kind"@ != "regrow"@,
        "berries"@ != "regrow"@,
{
    reveal_strlit("kind");
    reveal_strlit("berries");
    reveal_strlit("regrow");
    assert("kind"@.len() == 4 && "berries"@.len() == 7 && "regrow"@.len() == 6);
}

/// A bush is read back: its kind, its berries, and when the next one is due.
pub proof fn law_bushes_read_back(berries: i32, regrow: u64)
    ensures
        under(obj_json(Obj::Bush { berries, regrow }), "kind"@) == Some("\"bush\""@),
        under(obj_json(Obj::Bush { berries, regrow }), "berries"@) matches Some(v)
            && int_in(v) == berries as int,
        under(obj_json(Obj::Bush { berries, regrow }), "regrow"@) matches Some(v)
            && int_in(v) == regrow as int,
        whole(obj_json(Obj::Bush { berries, regrow })),
{
    let t = obj_json(Obj::Bush { berries, regrow });
    let x = Seq::<char>::empty();
    let v0 = "\"bush\""@;
    lemma_kind_bush();
    lemma_first_kind();
    let v1 = decimal(berries as int);
    law_numbers_read_back(berries as int);
    lemma_next_berries();
    let v2 = decimal(regrow as int);
    law_numbers_read_back(regrow as int);
    lemma_next_regrow();
    let x0 = x + "{\"kind\":"@ + v0;
    lemma_object_goes_on(x, "{\"kind\":"@, v0, "kind"@, true);
    let x1 = x0 + ",\"berries\":"@ + v1;
    lemma_object_goes_on(x0, ",\"berries\":"@, v1, "berries"@, false);
    let x2 = x1 + ",\"regrow\":"@ + v2;
    lemma_object_goes_on(x1, ",\"regrow\":"@, v2, "regrow"@, false);
    lemma_ends("{\"kind\":"@);
    assert(t == x2 + "}"@);
    lemma_object_is_whole(x2);
    let r2 = "}"@;
    lemma_member(t, x1, ",\"regrow\":"@, v2, r2, false, "regrow"@);
    let r1 = ",\"regrow\":"@ + v2 + r2;
    lemma_member(t, x0, ",\"berries\":"@, v1, r1, false, "berries"@);
    let r0 = ",\"berries\":"@ + v1 + r1;
    lemma_member(t, x, "{\"kind\":"@, v0, r0, true, "kind"@);
    lemma_names_of_bushes_read_back();
}

proof fn lemma_names_of_attacks_read_back()
    ensures
        "k"@ != "mid"@,
{
    reveal_strlit("k");
    reveal_strlit("mid");
    assert("k"@.len() == 1 && "mid"@.len() == 3);
}

/// An attack is read back with the creature that it is meant for.
pub proof fn law_attacks_read_back(mid: u32)
    ensures
        under(intent_json(Intent::Attack { mid }), "k"@) == Some("\"attack\""@),
        under(intent_json(Intent::Attack { mid }), "mid"@) matches Some(v)
            && int_in(v) == mid as int,
        whole(intent_json(Intent::Attack { mid })),
{
    let t = intent_json(Intent::Attack { mid });
    let x = Seq::<char>::empty();
    let v0 = "\"attack\""@;
    lemma_kind_attack();
    lemma_first_k();
    let v1 = decimal(mid as int);
    law_numbers_read_back(mid as int);
    lemma_next_mid();
    let x0 = x + "{\"k\":"@ + v0;
    lemma_object_goes_on(x, "{\"k\":"@, v0, "k"@, true);
    let x1 = x0 + ",\"mid\":"@ + v1;
    lemma_object_goes_on(x0, ",\"mid\":"@, v1, "mid"@, false);
    lemma_ends("{\"k\":"@);
    assert(t == x1 + "}"@);
    lemma_object_is_whole(x1);
    let r1 = "}"@;
    lemma_member(t, x0, ",\"mid\":"@, v1, r1, false, "mid"@);
    let r0 = ",\"mid\":"@ + v1 + r1;
    lemma_member(t, x, "{\"k\":"@, v0, r0, true, "k"@);
    lemma_names_of_attacks_read_back();
}

proof fn lemma_names_of_trade_intents_read_back()
    ensures
        "k"@ != "pid"@,
{
    reveal_strlit("k");
    reveal_strlit("pid");
    assert("k"@.len() == 1 && "pid"@.len() == 3);
}

/// The wish to trade is read back with the player that it is meant for.
pub proof fn law_trade_intents_read_back(pid: u32)
    ensures
        under(intent_json(Intent::Trade { pid }), "k"@) == Some("\"trade\""@),
        under(intent_json(Intent::Trade { pid }), "pid"@) matches Some(v)
            && int_in(v) == pid as int,
        whole(intent_json(Intent::Trade { pid })),
{
    let t = intent_json(Intent::Trade { pid });
    let x = Seq::<char>::empty();
    let v0 = "\"trade\""@;
    lemma_kind_trade();
    lemma_first_k();
    let v1 = decimal(pid as int);
    law_numbers_read_back(pid as int);
    lemma_next_pid();
    let x0 = x + "{\"k\":"@ + v0;
    lemma_object_goes_on(x, "{\"k\":"@, v0, "k"@, true);
    let x1 = x0 + ",\"pid\":"@ + v1;
    lemma_object_goes_on(x0, ",\"pid\":"@, v1, "pid"@, false);
    lemma_ends("{\"k\":"@);
    assert(t == x1 + "}"@);
    lemma_object_is_whole(x1);
    let r1 = "}"@;
    lemma_member(t, x0, ",\"pid\":"@, v1, r1, false, "pid"@);
    let r0 = ",\"pid\":"@ + v1 + r1;
    lemma_member(t, x, "{\"k\":"@, v0, r0, true, "k"@);
    lemma_names_of_trade_intents_read_back();
}

proof fn lemma_names_of_berries_read_back()
    ensures
        "item"@ != "name"@,
        "item"@ != "sell"@,
        "name"@ != "sell"@,
        "item"@ != "tier"@,
        "name"@ != "tier"@,
        "sell"@ != "tier"@,
        "item"@ != "xp"@,
        "name"@ != "xp"@,
        "sell"@ != "xp"@,
        "tier"@ != "xp"@,
{
    reveal_strlit("item");
    reveal_strlit("name");
    reveal_strlit("sell");
    reveal_strlit("tier");
    reveal_strlit("xp");
    assert("item"@.len() == 4 && "name"@.len() == 4 && "sell"@.len() == 4 && "tier"@.len() == 4
        && "xp"@.len() == 2);
    assert("item"@[0] != "name"@[0]);
    assert("item"@[0] != "sell"@[0]);
    assert("name"@[0] != "sell"@[0]);
    assert("item"@[0] != "tier"@[0]);
    assert("name"@[0] != "tier"@[0]);
    assert("sell"@[0] != "tier"@[0]);
}

/// What the trader gives for berries is read back: a coin each.
pub proof fn law_berries_read_back()
    ensures
        under(berries_json(), "item"@) == Some("\"berries\""@),
        under(berries_json(), "name"@) == Some("\"Berries\""@),
        under(berries_json(), "sell"@) == Some("1"@),
        under(berries_json(), "tier"@) == Some("1"@),
        under(berries_json(), "xp"@) == Some("0"@),
        whole(berries_json()),
{
    let t = berries_json();
    let x = Seq::<char>::empty();
    let v0 = "\"berries\""@;
    lemma_berries();
    lemma_first_item();
    let v1 = "\"Berries\""@;
    lemma_next_name();
    let v2 = "1"@;
    lemma_next_sell();
    let v3 = "1"@;
    lemma_next_tier();
    let v4 = "0"@;
    lemma_next_xp();
    let x0 = x + "{\"item\":"@ + v0;
    lemma_object_goes_on(x, "{\"item\":"@, v0, "item"@, true);
    let x1 = x0 + ",\"name\":"@ + v1;
    lemma_object_goes_on(x0, ",\"name\":"@, v1, "name"@, false);
    let x2 = x1 + ",\"sell\":"@ + v2;
    lemma_object_goes_on(x1, ",\"sell\":"@, v2, "sell"@, false);
    let x3 = x2 + ",\"tier\":"@ + v3;
    lemma_object_goes_on(x2, ",\"tier\":"@, v3, "tier"@, false);
    let x4 = x3 + ",\"xp\":"@ + v4;
    lemma_object_goes_on(x3, ",\"xp\":"@, v4, "xp"@, false);
    lemma_ends("{\"item\":"@);
    assert(t == x4 + "}"@);
    lemma_object_is_whole(x4);
    let r4 = "}"@;
    lemma_member(t, x3, ",\"xp\":"@, v4, r4, false, "xp"@);
    let r3 = ",\"xp\":"@ + v4 + r4;
    lemma_member(t, x2, ",\"tier\":"@, v3, r3, false, "tier"@);
    let r2 = ",\"tier\":"@ + v3 + r3;
    lemma_member(t, x1, ",\"sell\":"@, v2, r2, false, "sell"@);
    let r1 = ",\"sell\":"@ + v2 + r2;
    lemma_member(t, x0, ",\"name\":"@, v1, r1, false, "name"@);
    let r0 = ",\"name\":"@ + v1 + r1;
    lemma_member(t, x, "{\"item\":"@, v0, r0, true, "item"@);
    lemma_names_of_berries_read_back();
}

proof fn lemma_names_of_catalogues_read_back()
    ensures
        "angler"@ != "forge"@,
        "angler"@ != "sells"@,
        "forge"@ != "sells"@,
        "angler"@ != "shop"@,
        "forge"@ != "shop"@,
        "sells"@ != "shop"@,
{
    reveal_strlit("angler");
    reveal_strlit("forge");
    reveal_strlit("sells");
    reveal_strlit("shop");
    assert("angler"@.len() == 6 && "forge"@.len() == 5 && "sells"@.len() == 5
        && "shop"@.len() == 4);
    assert("forge"@[0] != "sells"@[0]);
}

/// The catalogues are read back: what the angler makes, what the blacksmith makes, what the
/// trader buys, and what it sells.
pub proof fn law_catalogues_read_back()
    ensures
        under(catalogs_json(), "angler"@) == Some(array(angler_rows())),
        under(catalogs_json(), "forge"@) == Some(array(armor_forge_rows() + sword_forge_rows())),
        under(catalogs_json(), "sells"@) == Some(array(sale_rows())),
        under(catalogs_json(), "shop"@) == Some(array(shop_rows())),
        whole(catalogs_json()),
{
    let t = catalogs_json();
    let x = Seq::<char>::empty();
    let v0 = array(angler_rows());
    reveal(catalogs_json);
    lemma_rows();
    law_arrays_are_whole(angler_rows());
    lemma_first_angler();
    let v1 = array(armor_forge_rows() + sword_forge_rows());
    law_arrays_are_whole(armor_forge_rows() + sword_forge_rows());
    lemma_next_forge();
    let v2 = array(sale_rows());
    law_arrays_are_whole(sale_rows());
    lemma_next_sells();
    let v3 = array(shop_rows());
    law_arrays_are_whole(shop_rows());
    lemma_next_shop();
    let x0 = x + "{\"angler\":"@ + v0;
    lemma_object_goes_on(x, "{\"angler\":"@, v0, "angler"@, true);
    let x1 = x0 + ",\"forge\":"@ + v1;
    lemma_object_goes_on(x0, ",\"forge\":"@, v1, "forge"@, false);
    let x2 = x1 + ",\"sells\":"@ + v2;
    lemma_object_goes_on(x1, ",\"sells\":"@, v2, "sells"@, false);
    let x3 = x2 + ",\"shop\":"@ + v3;
    lemma_object_goes_on(x2, ",\"shop\":"@, v3, "shop"@, false);
    lemma_ends("{\"angler\":"@);
    assert(t == x3 + "}"@);
    lemma_object_is_whole(x3);
    let r3 = "}"@;
    lemma_member(t, x2, ",\"shop\":"@, v3, r3, false, "shop"@);
    let r2 = ",\"shop\":"@ + v3 + r3;
    lemma_member(t, x1, ",\"sells\":"@, v2, r2, false, "sells"@);
    let r1 = ",\"sells\":"@ + v2 + r2;
    lemma_member(t, x0, ",\"forge\":"@, v1, r1, false, "forge"@);
    let r0 = ",\"forge\":"@ + v1 + r1;
    lemma_member(t, x, "{\"angler\":"@, v0, r0, true, "angler"@);
    lemma_names_of_catalogues_read_back();
}

proof fn lemma_trade_opening()
    ensures
        "{\"open\":true,\"partner_id\":"@ == "{\"open\":"@ + "true"@ + ",\"partner_id\":"@,
{
    reveal_strlit("{\"open\":true,\"partner_id\":");
    reveal_strlit("{\"open\":");
    reveal_strlit("true");
    reveal_strlit(",\"partner_id\":");
    assert("{\"open\":true,\"partner_id\":"@ =~= "{\"open\":"@ + "true"@ + ",\"partner_id\":"@);
}

proof fn lemma_berries()
    ensures
        whole("\"berries\""@),
        whole("\"Berries\""@),
        whole("1"@),
        whole("0"@),
        berries_json() == "{\"item\":"@ + "\"berries\""@ + ",\"name\":"@ + "\"Berries\""@
            + ",\"sell\":"@ + "1"@ + ",\"tier\":"@ + "1"@ + ",\"xp\":"@ + "0"@ + "}"@,
{
    reveal_strlit("\"berries\"");
    reveal_strlit("\"Berries\"");
    reveal_strlit("berries");
    reveal_strlit("Berries");
    reveal_strlit("1");
    reveal_strlit("0");
    reveal_strlit("}");
    reveal_strlit("{\"item\":");
    reveal_strlit(",\"name\":");
    reveal_strlit(",\"sell\":");
    reveal_strlit(",\"tier\":");
    reveal_strlit(",\"xp\":");
    reveal_strlit("{\"item\":\"berries\",\"name\":\"Berries\",\"sell\":1,\"tier\":1,\"xp\":0}");
    lemma_quoted_plain("berries"@);
    lemma_quoted_plain("Berries"@);
    law_strings_are_whole("berries"@);
    law_strings_are_whole("Berries"@);
    lemma_whole_plain("1"@);
    lemma_whole_plain("0"@);
    assert("\"berries\""@ =~= seq!['"'] + "berries"@ + seq!['"']);
    assert("\"Berries\""@ =~= seq!['"'] + "Berries"@ + seq!['"']);
    assert(berries_json() =~= "{\"item\":"@ + "\"berries\""@ + ",\"name\":"@
        + "\"Berries\""@ + ",\"sell\":"@ + "1"@ + ",\"tier\":"@ + "1"@ + ",\"xp\":"@ + "0"@
        + "}"@);
}

/// Whether all of the texts are values.
pub open spec fn all_whole(v: Seq<Seq<char>>) -> bool {
    forall|k: int| 0 <= k < v.len() ==> whole(#[trigger] v[k])
}

proof fn lemma_both_whole(a: Seq<Seq<char>>, b: Seq<Seq<char>>)
    requires
        all_whole(a),
        all_whole(b),
    ensures
        all_whole(a + b),
{
    assert forall|k: int| 0 <= k < (a + b).len() implies whole(#[trigger] (a + b)[k]) by {
        if k < a.len() {
            assert(whole(a[k]));
        } else {
            assert(whole(b[k - a.len()]));
        }
    }
}

pub proof fn lemma_rows()
    ensures
        all_whole(angler_rows()),
        all_whole(armor_forge_rows() + sword_forge_rows()),
        all_whole(sale_rows()),
        all_whole(shop_rows()),
{
    assert forall|k: int| 0 <= k < angler_rows().len() implies whole(#[trigger] angler_rows()[k]) by {
        law_angler_rows_read_back(fish_table()[k]);
    }
    assert forall|k: int| 0 <= k < armor_forge_rows().len() implies whole(#[trigger] armor_forge_rows()[k]) by {
        law_armour_forge_rows_read_back(armors_table()[k]);
    }
    assert forall|k: int| 0 <= k < sword_forge_rows().len() implies whole(#[trigger] sword_forge_rows()[k]) by {
        law_sword_forge_rows_read_back(swords_table()[k]);
    }
    assert forall|k: int| 0 <= k < shop_rows().len() implies whole(#[trigger] shop_rows()[k]) by {
        law_shop_rows_read_back(tools_table()[k]);
    }
    assert forall|k: int| 0 <= k < tool_sale_rows().len() implies whole(#[trigger] tool_sale_rows()[k]) by {
        law_tool_rows_read_back(tools_table()[k]);
    }
    assert forall|k: int| 0 <= k < tree_sale_rows().len() implies whole(#[trigger] tree_sale_rows()[k]) by {
        law_resource_rows_read_back(trees_table()[k]);
    }
    assert forall|k: int| 0 <= k < rock_sale_rows().len() implies whole(#[trigger] rock_sale_rows()[k]) by {
        law_resource_rows_read_back(rocks_table()[k]);
    }
    assert forall|k: int| 0 <= k < armor_sale_rows().len() implies whole(#[trigger] armor_sale_rows()[k]) by {
        law_armour_rows_read_back(armors_table()[k]);
    }
    assert forall|k: int| 0 <= k < sword_sale_rows().len() implies whole(#[trigger] sword_sale_rows()[k]) by {
        law_sword_rows_read_back(swords_table()[k]);
    }
    assert forall|k: int| 0 <= k < catch_rows().len() implies whole(#[trigger] catch_rows()[k]) by {
        law_fish_rows_read_back(fish_table()[k / 2]);
        law_rod_rows_read_back(fish_table()[k / 2]);
    }
    law_berries_read_back();
    assert(all_whole(seq![berries_json()]));
    lemma_both_whole(armor_forge_rows(), sword_forge_rows());
    let a = tool_sale_rows() + tree_sale_rows();
    let b = a + rock_sale_rows();
    let c = b + seq![berries_json()];
    let d = c + catch_rows();
    lemma_both_whole(tool_sale_rows(), tree_sale_rows());
    lemma_both_whole(a, rock_sale_rows());
    lemma_both_whole(b, seq![berries_json()]);
    lemma_both_whole(c, catch_rows());
    lemma_both_whole(d, armor_sale_rows());
    lemma_both_whole(d + armor_sale_rows(), sword_sale_rows());
}

/// An inventory is read back slot by slot.
pub proof fn law_inventories_read_back(inv: Seq<SlotV>, k: int)
    requires
        0 <= k < inv.len(),
    ensures
        element(inv_json(inv), 0, k) matches Some(v) && under(v, "item"@) == Some(
            quoted(inv[k].item),
        ) && (under(v, "qty"@) matches Some(n) && int_in(n) == inv[k].qty),
{
    let vs = Seq::new(inv.len(), |j: int| slot_json(inv[j]));
    assert forall|j: int| 0 <= j < vs.len() implies whole(#[trigger] vs[j]) by {
        law_slots_read_back(inv[j]);
    }
    law_elements_read_back(vs, k);
    law_slots_read_back(inv[k]);
}

/// A target is read back as its two coordinates, the column first.
pub proof fn law_targets_read_back(x: i32, y: i32)
    ensures
        element(target_json(Some((x, y))), 0, 0) matches Some(v) && int_in(v) == x,
        element(target_json(Some((x, y))), 0, 1) matches Some(v) && int_in(v) == y,
        target_json(None) == "null"@,
{
    let vs = seq![decimal(x as int), decimal(y as int)];
    law_numbers_read_back(x as int);
    law_numbers_read_back(y as int);
    assert forall|j: int| 0 <= j < vs.len() implies whole(#[trigger] vs[j]) by {}
    law_elements_read_back(vs, 0);
    law_elements_read_back(vs, 1);
    reveal_with_fuel(crate::text::joined, 3);
    assert(vs.drop_last() =~= seq![decimal(x as int)]);
    assert(array(vs) =~= target_json(Some((x, y))));
}

proof fn lemma_only_k_none()
    ensures
        under("{\"k\":\"none\"}"@, "k"@) == Some(quoted("none"@)),
        whole("{\"k\":\"none\"}"@),
{
    reveal_strlit("none");
    reveal_strlit("}");
    reveal_strlit("{\"k\":");
    reveal_strlit("{\"k\":\"none\"}");
    lemma_quoted_plain("none"@);
    law_strings_are_whole("none"@);
    lemma_first_k();
    let v = quoted("none"@);
    let x = Seq::<char>::empty();
    let t = "{\"k\":\"none\"}"@;
    let l = "{\"k\":"@;
    assert(t =~= x + l + v + "}"@);
    lemma_object_goes_on(x, l, v, "k"@, true);
    lemma_object_is_whole(x + l + v);
    lemma_ends(l);
    lemma_member(t, x, l, v, "}"@, true, "k"@);
}

proof fn lemma_only_k_chop()
    ensures
        under("{\"k\":\"chop\"}"@, "k"@) == Some(quoted("chop"@)),
        whole("{\"k\":\"chop\"}"@),
{
    reveal_strlit("chop");
    reveal_strlit("}");
    reveal_strlit("{\"k\":");
    reveal_strlit("{\"k\":\"chop\"}");
    lemma_quoted_plain("chop"@);
    law_strings_are_whole("chop"@);
    lemma_first_k();
    let v = quoted("chop"@);
    let x = Seq::<char>::empty();
    let t = "{\"k\":\"chop\"}"@;
    let l = "{\"k\":"@;
    assert(t =~= x + l + v + "}"@);
    lemma_object_goes_on(x, l, v, "k"@, true);
    lemma_object_is_whole(x + l + v);
    lemma_ends(l);
    lemma_member(t, x, l, v, "}"@, true, "k"@);
}

proof fn lemma_only_k_mine()
    ensures
        under("{\"k\":\"mine\"}"@, "k"@) == Some(quoted("mine"@)),
        whole("{\"k\":\"mine\"}"@),
{
    reveal_strlit("mine");
    reveal_strlit("}");
    reveal_strlit("{\"k\":");
    reveal_strlit("{\"k\":\"mine\"}");
    lemma_quoted_plain("mine"@);
    law_strings_are_whole("mine"@);
    lemma_first_k();
    let v = quoted("mine"@);
    let x = Seq::<char>::empty();
    let t = "{\"k\":\"mine\"}"@;
    let l = "{\"k\":"@;
    assert(t =~= x + l + v + "}"@);
    lemma_object_goes_on(x, l, v, "k"@, true);
    lemma_object_is_whole(x + l + v);
    lemma_ends(l);
    lemma_member(t, x, l, v, "}"@, true, "k"@);
}

proof fn lemma_only_k_pick()
    ensures
        under("{\"k\":\"pick\"}"@, "k"@) == Some(quoted("pick"@)),
        whole("{\"k\":\"pick\"}"@),
{
    reveal_strlit("pick");
    reveal_strlit("}");
    reveal_strlit("{\"k\":");
    reveal_strlit("{\"k\":\"pick\"}");
    lemma_quoted_plain("pick"@);
    law_strings_are_whole("pick"@);
    lemma_first_k();
    let v = quoted("pick"@);
    let x = Seq::<char>::empty();
    let t = "{\"k\":\"pick\"}"@;
    let l = "{\"k\":"@;
    assert(t =~= x + l + v + "}"@);
    lemma_object_goes_on(x, l, v, "k"@, true);
    lemma_object_is_whole(x + l + v);
    lemma_ends(l);
    lemma_member(t, x, l, v, "}"@, true, "k"@);
}

proof fn lemma_only_k_fish()
    ensures
        under("{\"k\":\"fish\"}"@, "k"@) == Some(quoted("fish"@)),
        whole("{\"k\":\"fish\"}"@),
{
    reveal_strlit("fish");
    reveal_strlit("}");
    reveal_strlit("{\"k\":");
    reveal_strlit("{\"k\":\"fish\"}");
    lemma_quoted_plain("fish"@);
    law_strings_are_whole("fish"@);
    lemma_first_k();
    let v = quoted("fish"@);
    let x = Seq::<char>::empty();
    let t = "{\"k\":\"fish\"}"@;
    let l = "{\"k\":"@;
    assert(t =~= x + l + v + "}"@);
    lemma_object_goes_on(x, l, v, "k"@, true);
    lemma_object_is_whole(x + l + v);
    lemma_ends(l);
    lemma_member(t, x, l, v, "}"@, true, "k"@);
}

proof fn lemma_only_k_talk()
    ensures
        under("{\"k\":\"talk\"}"@, "k"@) == Some(quoted("talk"@)),
        whole("{\"k\":\"talk\"}"@),
{
    reveal_strlit("talk");
    reveal_strlit("}");
    reveal_strlit("{\"k\":");
    reveal_strlit("{\"k\":\"talk\"}");
    lemma_quoted_plain("talk"@);
    law_strings_are_whole("talk"@);
    lemma_first_k();
    let v = quoted("talk"@);
    let x = Seq::<char>::empty();
    let t = "{\"k\":\"talk\"}"@;
    let l = "{\"k\":"@;
    assert(t =~= x + l + v + "}"@);
    lemma_object_goes_on(x, l, v, "k"@, true);
    lemma_object_is_whole(x + l + v);
    lemma_ends(l);
    lemma_member(t, x, l, v, "}"@, true, "k"@);
}

proof fn lemma_only_k_pickup()
    ensures
        under("{\"k\":\"pickup\"}"@, "k"@) == Some(quoted("pickup"@)),
        whole("{\"k\":\"pickup\"}"@),
{
    reveal_strlit("pickup");
    reveal_strlit("}");
    reveal_strlit("{\"k\":");
    reveal_strlit("{\"k\":\"pickup\"}");
    lemma_quoted_plain("pickup"@);
    law_strings_are_whole("pickup"@);
    lemma_first_k();
    let v = quoted("pickup"@);
    let x = Seq::<char>::empty();
    let t = "{\"k\":\"pickup\"}"@;
    let l = "{\"k\":"@;
    assert(t =~= x + l + v + "}"@);
    lemma_object_goes_on(x, l, v, "k"@, true);
    lemma_object_is_whole(x + l + v);
    lemma_ends(l);
    lemma_member(t, x, l, v, "}"@, true, "k"@);
}

proof fn lemma_only_kind_none()
    ensures
        under("{\"kind\":\"none\"}"@, "kind"@) == Some(quoted("none"@)),
        whole("{\"kind\":\"none\"}"@),
{
    reveal_strlit("none");
    reveal_strlit("}");
    reveal_strlit("{\"kind\":");
    reveal_strlit("{\"kind\":\"none\"}");
    lemma_quoted_plain("none"@);
    law_strings_are_whole("none"@);
    lemma_first_kind();
    let v = quoted("none"@);
    let x = Seq::<char>::empty();
    let t = "{\"kind\":\"none\"}"@;
    let l = "{\"kind\":"@;
    assert(t =~= x + l + v + "}"@);
    lemma_object_goes_on(x, l, v, "kind"@, true);
    lemma_object_is_whole(x + l + v);
    lemma_ends(l);
    lemma_member(t, x, l, v, "}"@, true, "kind"@);
}

proof fn lemma_only_kind_boulder()
    ensures
        under("{\"kind\":\"boulder\"}"@, "kind"@) == Some(quoted("boulder"@)),
        whole("{\"kind\":\"boulder\"}"@),
{
    reveal_strlit("boulder");
    reveal_strlit("}");
    reveal_strlit("{\"kind\":");
    reveal_strlit("{\"kind\":\"boulder\"}");
    lemma_quoted_plain("boulder"@);
    law_strings_are_whole("boulder"@);
    lemma_first_kind();
    let v = quoted("boulder"@);
    let x = Seq::<char>::empty();
    let t = "{\"kind\":\"boulder\"}"@;
    let l = "{\"kind\":"@;
    assert(t =~= x + l + v + "}"@);
    lemma_object_goes_on(x, l, v, "kind"@, true);
    lemma_object_is_whole(x + l + v);
    lemma_ends(l);
    lemma_member(t, x, l, v, "}"@, true, "kind"@);
}

proof fn lemma_only_kind_trader()
    ensures
        under("{\"kind\":\"trader\"}"@, "kind"@) == Some(quoted("trader"@)),
        whole("{\"kind\":\"trader\"}"@),
{
    reveal_strlit("trader");
    reveal_strlit("}");
    reveal_strlit("{\"kind\":");
    reveal_strlit("{\"kind\":\"trader\"}");
    lemma_quoted_plain("trader"@);
    law_strings_are_whole("trader"@);
    lemma_first_kind();
    let v = quoted("trader"@);
    let x = Seq::<char>::empty();
    let t = "{\"kind\":\"trader\"}"@;
    let l = "{\"kind\":"@;
    assert(t =~= x + l + v + "}"@);
    lemma_object_goes_on(x, l, v, "kind"@, true);
    lemma_object_is_whole(x + l + v);
    lemma_ends(l);
    lemma_member(t, x, l, v, "}"@, true, "kind"@);
}

proof fn lemma_only_kind_angel()
    ensures
        under("{\"kind\":\"angel\"}"@, "kind"@) == Some(quoted("angel"@)),
        whole("{\"kind\":\"angel\"}"@),
{
    reveal_strlit("angel");
    reveal_strlit("}");
    reveal_strlit("{\"kind\":");
    reveal_strlit("{\"kind\":\"angel\"}");
    lemma_quoted_plain("angel"@);
    law_strings_are_whole("angel"@);
    lemma_first_kind();
    let v = quoted("angel"@);
    let x = Seq::<char>::empty();
    let t = "{\"kind\":\"angel\"}"@;
    let l = "{\"kind\":"@;
    assert(t =~= x + l + v + "}"@);
    lemma_object_goes_on(x, l, v, "kind"@, true);
    lemma_object_is_whole(x + l + v);
    lemma_ends(l);
    lemma_member(t, x, l, v, "}"@, true, "kind"@);
}

proof fn lemma_only_kind_blacksmith()
    ensures
        under("{\"kind\":\"blacksmith\"}"@, "kind"@) == Some(quoted("blacksmith"@)),
        whole("{\"kind\":\"blacksmith\"}"@),
{
    reveal_strlit("blacksmith");
    reveal_strlit("}");
    reveal_strlit("{\"kind\":");
    reveal_strlit("{\"kind\":\"blacksmith\"}");
    lemma_quoted_plain("blacksmith"@);
    law_strings_are_whole("blacksmith"@);
    lemma_first_kind();
    let v = quoted("blacksmith"@);
    let x = Seq::<char>::empty();
    let t = "{\"kind\":\"blacksmith\"}"@;
    let l = "{\"kind\":"@;
    assert(t =~= x + l + v + "}"@);
    lemma_object_goes_on(x, l, v, "kind"@, true);
    lemma_object_is_whole(x + l + v);
    lemma_ends(l);
    lemma_member(t, x, l, v, "}"@, true, "kind"@);
}

proof fn lemma_only_kind_angler()
    ensures
        under("{\"kind\":\"angler\"}"@, "kind"@) == Some(quoted("angler"@)),
        whole("{\"kind\":\"angler\"}"@),
{
    reveal_strlit("angler");
    reveal_strlit("}");
    reveal_strlit("{\"kind\":");
    reveal_strlit("{\"kind\":\"angler\"}");
    lemma_quoted_plain("angler"@);
    law_strings_are_whole("angler"@);
    lemma_first_kind();
    let v = quoted("angler"@);
    let x = Seq::<char>::empty();
    let t = "{\"kind\":\"angler\"}"@;
    let l = "{\"kind\":"@;
    assert(t =~= x + l + v + "}"@);
    lemma_object_goes_on(x, l, v, "kind"@, true);
    lemma_object_is_whole(x + l + v);
    lemma_ends(l);
    lemma_member(t, x, l, v, "}"@, true, "kind"@);
}

/// What a player is about to do is read back under `k` by its name.
pub proof fn law_intents_read_back(i: Intent)
    ensures
        i == Intent::Idle ==> under(intent_json(i), "k"@) == Some(quoted("none"@)),
        i == Intent::Chop ==> under(intent_json(i), "k"@) == Some(quoted("chop"@)),
        i == Intent::Mine ==> under(intent_json(i), "k"@) == Some(quoted("mine"@)),
        i == Intent::Pick ==> under(intent_json(i), "k"@) == Some(quoted("pick"@)),
        i == Intent::Fish ==> under(intent_json(i), "k"@) == Some(quoted("fish"@)),
        i == Intent::Talk ==> under(intent_json(i), "k"@) == Some(quoted("talk"@)),
        i == Intent::Pickup ==> under(intent_json(i), "k"@) == Some(quoted("pickup"@)),
{
    lemma_only_k_none();
    lemma_only_k_chop();
    lemma_only_k_mine();
    lemma_only_k_pick();
    lemma_only_k_fish();
    lemma_only_k_talk();
    lemma_only_k_pickup();
}

/// What stands on a cell is read back under `kind` by its name.
pub proof fn law_kinds_read_back(o: Obj)
    ensures
        o == Obj::Empty ==> under(obj_json(o), "kind"@) == Some(quoted("none"@)),
        o == Obj::Boulder ==> under(obj_json(o), "kind"@) == Some(quoted("boulder"@)),
        o == Obj::Trader ==> under(obj_json(o), "kind"@) == Some(quoted("trader"@)),
        o == Obj::Angel ==> under(obj_json(o), "kind"@) == Some(quoted("angel"@)),
        o == Obj::Blacksmith ==> under(obj_json(o), "kind"@) == Some(quoted("blacksmith"@)),
        o == Obj::Angler ==> under(obj_json(o), "kind"@) == Some(quoted("angler"@)),
{
    lemma_only_kind_none();
    lemma_only_kind_boulder();
    lemma_only_kind_trader();
    lemma_only_kind_angel();
    lemma_only_kind_blacksmith();
    lemma_only_kind_angler();
}

} // verus!
