//! What things are worth to each other: how the tables grow from tier to tier, and that the
//! catalogues list all of them.

use vstd::prelude::*;
use crate::defs::{
    armors_table, fish_by_fish, fish_table, min_level, mobs_table, rocks_table, sell_price,
    swords_table, tools_table, trees_table,
};
use crate::json::quoted;
use crate::reading::{element, int_in, law_elements_read_back, under};
use crate::shown::{
    law_angler_rows_read_back, law_armour_forge_rows_read_back, law_armour_rows_read_back,
    law_berries_read_back, law_catalogues_read_back, law_fish_rows_read_back,
    law_resource_rows_read_back, law_rod_rows_read_back, law_shop_rows_read_back,
    law_sword_forge_rows_read_back, law_sword_rows_read_back, law_tool_rows_read_back, lemma_rows,
};
use crate::views::{
    angler_rows, armor_forge_rows, catalogs_json, sale_rows, shop_rows, sword_forge_rows,
};

verus! {

/// Trees and rocks: each tier asks for a tool of its own tier, and gives what is worth ten times as
/// much as that of the tier below, for more blows, more experience and a longer wait.
pub proof fn law_resources_by_tier(k: int)
    requires
        0 <= k < 4,
    ensures
        trees_table()[k].tier == k + 1 && trees_table()[k].req_tool_tier == k + 1,
        rocks_table()[k].tier == k + 1 && rocks_table()[k].req_tool_tier == k + 1,
        5 * rocks_table()[k].sell == 6 * trees_table()[k].sell,
        rocks_table()[k].hp > trees_table()[k].hp && rocks_table()[k].xp > trees_table()[k].xp,
        k > 0 ==> {
            let (t, r) = (trees_table(), rocks_table());
            &&& t[k].sell == 10 * t[k - 1].sell && r[k].sell == 10 * r[k - 1].sell
            &&& 2 * t[k - 1].hp <= t[k].hp && 2 * r[k - 1].hp <= r[k].hp
            &&& 2 * t[k - 1].xp <= t[k].xp && 2 * r[k - 1].xp <= r[k].xp
            &&& t[k - 1].regrow_secs + 20 <= t[k].regrow_secs
            &&& r[k - 1].regrow_secs + 20 <= r[k].regrow_secs
        },
{
    assert(k == 0 || k == 1 || k == 2 || k == 3);
}

/// Tools: axes and then pickaxes, of every tier, each twice as strong as that of the tier below.
pub proof fn law_tools_by_tier(k: int)
    requires
        0 <= k < 4,
    ensures
        ({
            let (a, p) = (tools_table()[k], tools_table()[k + 4]);
            &&& a.kind@ == "axe"@ && p.kind@ == "pickaxe"@
            &&& a.tier == k + 1 && p.tier == k + 1
            &&& a.power == p.power
            &&& k > 0 ==> a.power == 2 * tools_table()[k - 1].power && a.buy == p.buy
            &&& k > 0 ==> 7 * tools_table()[k - 1].buy < a.buy
            &&& k == 0 ==> a.power == 1
        }),
{
    assert(k == 0 || k == 1 || k == 2 || k == 3);
}

/// Fish: each heals twice as much as the one below, is worth four times as much and teaches four
/// times as much; its rod is made of the logs of its tier, and it takes ten more levels.
pub proof fn law_fish_by_tier(k: int)
    requires
        0 <= k < 4,
    ensures
        ({
            let f = fish_table();
            &&& f[k].tier == k
            &&& f[k].resource@ == trees_table()[k].item@
            &&& min_level(f[k].tier) == 10 * k + 1
            &&& f[k].xp == 2 * f[k].sell
            &&& k == 0 ==> f[k].heal == 4 && f[k].sell == 4
            &&& k > 0 ==> f[k].heal == 2 * f[k - 1].heal && f[k].sell == 4 * f[k - 1].sell
        }),
{
    assert(k == 0 || k == 1 || k == 2 || k == 3);
}

/// Armour and swords: the ore is that of the rocks of the tier, as much of it in every tier, and
/// what a piece adds doubles from tier to tier.
pub proof fn law_forged_by_tier(k: int)
    requires
        0 <= k < 16,
    ensures
        ({
            let a = armors_table();
            &&& a[k].tier == k / 4 + 1
            &&& a[k].ore@ == rocks_table()[k / 4].item@
            &&& k < 4 ==> a[k].defence == a[k].ore_qty
            &&& k >= 4 ==> a[k].defence == 2 * a[k - 4].defence && a[k].ore_qty == a[k - 4].ore_qty
                && a[k].slot@ == a[k - 4].slot@
            &&& k % 4 == 0 ==> a[k].slot@ == "helmet"@ && a[k].ore_qty == 5
            &&& k % 4 == 1 ==> a[k].slot@ == "chest"@ && a[k].ore_qty == 10
            &&& k % 4 == 2 ==> a[k].slot@ == "legs"@ && a[k].ore_qty == 7
            &&& k % 4 == 3 ==> a[k].slot@ == "left_hand"@ && a[k].ore_qty == 6
        }),
        k < 4 ==> {
            let s = swords_table();
            &&& s[k].tier == k + 1
            &&& s[k].ore@ == rocks_table()[k].item@
            &&& s[k].ore_qty == 10
            &&& k == 0 ==> s[k].damage == 10
            &&& k > 0 ==> s[k].damage == 2 * s[k - 1].damage
        },
{
    reveal_with_fuel(crate::defs::doubled, 5);
    assert(k == 0 || k == 1 || k == 2 || k == 3 || k == 4 || k == 5 || k == 6 || k == 7 || k == 8
        || k == 9 || k == 10 || k == 11 || k == 12 || k == 13 || k == 14 || k == 15);
}

/// Creatures: each of the four is stronger in everything than the one below, and leaves more.
pub proof fn law_creatures_by_tier(k: int)
    requires
        0 <= k < 4,
    ensures
        ({
            let m = mobs_table();
            &&& m[k].tier == k + 1
            &&& m[k].attack < m[k].strength && m[k].defence < m[k].attack
            &&& k > 0 ==> {
                &&& 2 * m[k - 1].hp <= m[k].hp && 2 * m[k - 1].attack <= m[k].attack
                &&& 2 * m[k - 1].strength <= m[k].strength && 2 * m[k - 1].defence <= m[k].defence
                &&& 5 * m[k - 1].coin <= 2 * m[k].coin
            }
        }),
{
    assert(k == 0 || k == 1 || k == 2 || k == 3);
}

/// The trader pays for a fish what its row says.
pub proof fn law_fish_prices(item: Seq<char>)
    requires
        item != "berries"@,
    ensures
        fish_by_fish(item) matches Some(f) ==> sell_price(item) == Some(f.sell),
{
}

/// Whether a list in JSON has a row for an item, with a number under a name.
pub open spec fn listed(list: Seq<char>, item: Seq<char>, name: Seq<char>, n: int) -> bool {
    exists|j: int|
        (#[trigger] element(list, 0, j)) matches Some(r) && under(r, "item"@) == Some(quoted(item))
            && (under(r, name) matches Some(v) && int_in(v) == n)
}

/// The shop's list has every tool with its price.
pub proof fn law_shop_lists_tools(k: int)
    requires
        0 <= k < 8,
    ensures
        under(catalogs_json(), "shop"@) matches Some(v) && listed(
            v,
            tools_table()[k].item@,
            "buy"@,
            tools_table()[k].buy as int,
        ),
{
    law_catalogues_read_back();
    lemma_rows();
    law_elements_read_back(shop_rows(), k);
    law_shop_rows_read_back(tools_table()[k]);
}

proof fn lemma_sale(j: int)
    requires
        0 <= j < 45,
    ensures
        sale_rows().len() == 45,
        under(catalogs_json(), "sells"@) matches Some(v) && element(v, 0, j) == Some(
            sale_rows()[j],
        ),
{
    law_catalogues_read_back();
    lemma_rows();
    assert(sale_rows().len() == 45);
    law_elements_read_back(sale_rows(), j);
}

/// What the trader buys has every tool, for what it costs.
pub proof fn law_sales_list_tools(k: int)
    requires
        0 <= k < 8,
    ensures
        under(catalogs_json(), "sells"@) matches Some(v) && listed(
            v,
            tools_table()[k].item@,
            "sell"@,
            tools_table()[k].buy as int,
        ),
{
    lemma_sale(k);
    law_tool_rows_read_back(tools_table()[k]);
}

/// What the trader buys has every kind of log and of ore, for what its row says.
pub proof fn law_sales_list_resources(k: int)
    requires
        0 <= k < 4,
    ensures
        under(catalogs_json(), "sells"@) matches Some(v) && listed(
            v,
            trees_table()[k].item@,
            "sell"@,
            trees_table()[k].sell as int,
        ) && listed(v, rocks_table()[k].item@, "sell"@, rocks_table()[k].sell as int),
{
    lemma_sale(8 + k);
    lemma_sale(12 + k);
    law_resource_rows_read_back(trees_table()[k]);
    law_resource_rows_read_back(rocks_table()[k]);
}

/// What the trader buys has every fish and every rod.
pub proof fn law_sales_list_fish(k: int)
    requires
        0 <= k < 4,
    ensures
        under(catalogs_json(), "sells"@) matches Some(v) && listed(
            v,
            fish_table()[k].fish@,
            "sell"@,
            fish_table()[k].sell as int,
        ) && listed(
            v,
            fish_table()[k].rod@,
            "sell"@,
            crate::views::or_nothing(crate::defs::rod_price(fish_table()[k].rod@)),
        ),
{
    lemma_sale(17 + 2 * k);
    lemma_sale(17 + 2 * k + 1);
    law_fish_rows_read_back(fish_table()[k]);
    law_rod_rows_read_back(fish_table()[k]);
    assert((2 * k) % 2 == 0 && (2 * k) / 2 == k && (2 * k + 1) % 2 == 1 && (2 * k + 1) / 2 == k);
    assert(sale_rows()[17 + 2 * k] == crate::views::catch_rows()[2 * k]);
    assert(sale_rows()[17 + 2 * k + 1] == crate::views::catch_rows()[2 * k + 1]);
}

/// What the trader buys has every piece of armour and every sword.
pub proof fn law_sales_list_forged(k: int)
    requires
        0 <= k < 16,
    ensures
        under(catalogs_json(), "sells"@) matches Some(v) && listed(
            v,
            armors_table()[k].item@,
            "sell"@,
            crate::views::or_nothing(crate::defs::armor_price(armors_table()[k].item@)),
        ) && (k < 4 ==> listed(
            v,
            swords_table()[k].item@,
            "sell"@,
            crate::views::or_nothing(crate::defs::sword_price(swords_table()[k].item@)),
        )),
{
    lemma_sale(25 + k);
    law_armour_rows_read_back(armors_table()[k]);
    assert(sale_rows()[25 + k] == crate::views::armor_sale_rows()[k]);
    if k < 4 {
        lemma_sale(41 + k);
        law_sword_rows_read_back(swords_table()[k]);
        assert(sale_rows()[41 + k] == crate::views::sword_sale_rows()[k]);
    }
}

/// What the blacksmith makes has every piece of armour and every sword, with how much ore it takes.
pub proof fn law_forge_lists_all(k: int)
    requires
        0 <= k < 16,
    ensures
        under(catalogs_json(), "forge"@) matches Some(v) && listed(
            v,
            armors_table()[k].item@,
            "ore_qty"@,
            armors_table()[k].ore_qty as int,
        ) && (k < 4 ==> listed(
            v,
            swords_table()[k].item@,
            "ore_qty"@,
            swords_table()[k].ore_qty as int,
        )),
{
    let rows = armor_forge_rows() + sword_forge_rows();
    law_catalogues_read_back();
    lemma_rows();
    law_elements_read_back(rows, k);
    assert(rows[k] == armor_forge_rows()[k]);
    law_armour_forge_rows_read_back(armors_table()[k]);
    if k < 4 {
        law_elements_read_back(rows, 16 + k);
        assert(rows[16 + k] == sword_forge_rows()[k]);
        law_sword_forge_rows_read_back(swords_table()[k]);
    }
}

/// What the angler makes has every rod, by its place in the list.
pub proof fn law_angler_lists_rods(k: int)
    requires
        0 <= k < 4,
    ensures
        under(catalogs_json(), "angler"@) matches Some(v) && (element(v, 0, k) matches Some(r)
            && under(r, "rod"@) == Some(quoted(fish_table()[k].rod@))),
{
    law_catalogues_read_back();
    lemma_rows();
    law_elements_read_back(angler_rows(), k);
    law_angler_rows_read_back(fish_table()[k]);
}

/// What the trader buys has berries, for a coin.
pub proof fn law_sales_list_berries()
    ensures
        under(catalogs_json(), "sells"@) matches Some(v) && (element(v, 0, 16) matches Some(r)
            && under(r, "item"@) == Some("\"berries\""@) && under(r, "sell"@) == Some("1"@)),
{
    lemma_sale(16);
    law_berries_read_back();
}

} // verus!
