//! The names that players see: every item that is worth something has one of its own.

use vstd::prelude::*;
use crate::defs::{
    armor_named, armor_of, armors_table, fish_by_fish, fish_by_rod, fish_table, fish_with_fish,
    fish_with_rod, item_label, item_price, resource_giving, rock_of_item, rocks_table, sword_named,
    sword_of, swords_table, tool_named, tool_of, tools_table, tree_of_item, trees_table,
};
use crate::search::{first_at, lemma_first_at};

verus! {

/// A number by which the known items differ, and the names of the items too, made of the
/// length and some characters.
spec fn mark_of(s: Seq<char>) -> int {
    (s.len() * 128 + s[2] as int) * 128 + s[s.len() - 2] as int
}

/// The item that has a mark.
spec fn item_marked(mark: int) -> Seq<char> {
    if mark == 129381 {
        "berries"@
    } else if mark == 94562 {
        "yabby"@
    } else if mark == 96245 {
        "trout"@
    } else if mark == 112239 {
        "salmon"@
    } else if mark == 177139 {
        "anglerfish"@
    } else if mark == 161639 {
        "pine_logs"@
    } else if mark == 144871 {
        "oak_logs"@
    } else if mark == 146407 {
        "yew_logs"@
    } else if mark == 177127 {
        "magic_logs"@
    } else if mark == 178290 {
        "copper_ore"@
    } else if mark == 145394 {
        "iron_ore"@
    } else if mark == 145010 {
        "gold_ore"@
    } else if mark == 176498 {
        "cobalt_ore"@
    } else if mark == 178168 {
        "bronze_axe"@
    } else if mark == 145400 {
        "iron_axe"@
    } else if mark == 160504 {
        "steel_axe"@
    } else if mark == 176504 {
        "cobalt_axe"@
    } else if mark == 243704 {
        "bronze_pickaxe"@
    } else if mark == 210936 {
        "iron_pickaxe"@
    } else if mark == 226040 {
        "steel_pickaxe"@
    } else if mark == 242040 {
        "cobalt_pickaxe"@
    } else if mark == 194668 {
        "copper_helm"@
    } else if mark == 211060 {
        "copper_plate"@
    } else if mark == 243813 {
        "copper_greaves"@
    } else if mark == 227436 {
        "copper_shield"@
    } else if mark == 161772 {
        "iron_helm"@
    } else if mark == 178164 {
        "iron_plate"@
    } else if mark == 210917 {
        "iron_greaves"@
    } else if mark == 194540 {
        "iron_shield"@
    } else if mark == 161388 {
        "gold_helm"@
    } else if mark == 177780 {
        "gold_plate"@
    } else if mark == 210533 {
        "gold_greaves"@
    } else if mark == 194156 {
        "gold_shield"@
    } else if mark == 192876 {
        "cobalt_helm"@
    } else if mark == 209268 {
        "cobalt_plate"@
    } else if mark == 242021 {
        "cobalt_greaves"@
    } else if mark == 225644 {
        "cobalt_shield"@
    } else if mark == 211058 {
        "copper_sword"@
    } else if mark == 178162 {
        "iron_sword"@
    } else if mark == 177778 {
        "gold_sword"@
    } else if mark == 209266 {
        "cobalt_sword"@
    } else if mark == 160111 {
        "yabbypot"@
    } else if mark == 128495 {
        "oakrod"@
    } else if mark == 130031 {
        "yewrod"@
    } else if mark == 160751 {
        "magicrod"@
    } else {
        Seq::empty()
    }
}

proof fn lemma_item_marks_0()
    ensures
        mark_of("coins"@) == 95470,
        mark_of("berries"@) == 129381,
        mark_of("pine_logs"@) == 161639,
        mark_of("oak_logs"@) == 144871,
        mark_of("yew_logs"@) == 146407,
        mark_of("magic_logs"@) == 177127,
        mark_of("copper_ore"@) == 178290,
        mark_of("iron_ore"@) == 145394,
{
    assert(mark_of("coins"@) == 95470) by {
        reveal_strlit("coins");
    }
    assert(mark_of("berries"@) == 129381) by {
        reveal_strlit("berries");
    }
    assert(mark_of("pine_logs"@) == 161639) by {
        reveal_strlit("pine_logs");
    }
    assert(mark_of("oak_logs"@) == 144871) by {
        reveal_strlit("oak_logs");
    }
    assert(mark_of("yew_logs"@) == 146407) by {
        reveal_strlit("yew_logs");
    }
    assert(mark_of("magic_logs"@) == 177127) by {
        reveal_strlit("magic_logs");
    }
    assert(mark_of("copper_ore"@) == 178290) by {
        reveal_strlit("copper_ore");
    }
    assert(mark_of("iron_ore"@) == 145394) by {
        reveal_strlit("iron_ore");
    }
}

proof fn lemma_item_marks_1()
    ensures
        mark_of("gold_ore"@) == 145010,
        mark_of("cobalt_ore"@) == 176498,
        mark_of("salmon"@) == 112239,
        mark_of("yabby"@) == 94562,
        mark_of("trout"@) == 96245,
        mark_of("anglerfish"@) == 177139,
        mark_of("fishing_rod"@) == 195055,
        mark_of("bronze_axe"@) == 178168,
{
    assert(mark_of("gold_ore"@) == 145010) by {
        reveal_strlit("gold_ore");
    }
    assert(mark_of("cobalt_ore"@) == 176498) by {
        reveal_strlit("cobalt_ore");
    }
    assert(mark_of("salmon"@) == 112239) by {
        reveal_strlit("salmon");
    }
    assert(mark_of("yabby"@) == 94562) by {
        reveal_strlit("yabby");
    }
    assert(mark_of("trout"@) == 96245) by {
        reveal_strlit("trout");
    }
    assert(mark_of("anglerfish"@) == 177139) by {
        reveal_strlit("anglerfish");
    }
    assert(mark_of("fishing_rod"@) == 195055) by {
        reveal_strlit("fishing_rod");
    }
    assert(mark_of("bronze_axe"@) == 178168) by {
        reveal_strlit("bronze_axe");
    }
}

proof fn lemma_item_marks_2()
    ensures
        mark_of("iron_axe"@) == 145400,
        mark_of("steel_axe"@) == 160504,
        mark_of("cobalt_axe"@) == 176504,
        mark_of("bronze_pickaxe"@) == 243704,
        mark_of("iron_pickaxe"@) == 210936,
        mark_of("steel_pickaxe"@) == 226040,
        mark_of("cobalt_pickaxe"@) == 242040,
        mark_of("copper_helm"@) == 194668,
{
    assert(mark_of("iron_axe"@) == 145400) by {
        reveal_strlit("iron_axe");
    }
    assert(mark_of("steel_axe"@) == 160504) by {
        reveal_strlit("steel_axe");
    }
    assert(mark_of("cobalt_axe"@) == 176504) by {
        reveal_strlit("cobalt_axe");
    }
    assert(mark_of("bronze_pickaxe"@) == 243704) by {
        reveal_strlit("bronze_pickaxe");
    }
    assert(mark_of("iron_pickaxe"@) == 210936) by {
        reveal_strlit("iron_pickaxe");
    }
    assert(mark_of("steel_pickaxe"@) == 226040) by {
        reveal_strlit("steel_pickaxe");
    }
    assert(mark_of("cobalt_pickaxe"@) == 242040) by {
        reveal_strlit("cobalt_pickaxe");
    }
    assert(mark_of("copper_helm"@) == 194668) by {
        reveal_strlit("copper_helm");
    }
}

proof fn lemma_item_marks_3()
    ensures
        mark_of("copper_plate"@) == 211060,
        mark_of("copper_greaves"@) == 243813,
        mark_of("copper_shield"@) == 227436,
        mark_of("iron_helm"@) == 161772,
        mark_of("iron_plate"@) == 178164,
        mark_of("iron_greaves"@) == 210917,
        mark_of("iron_shield"@) == 194540,
        mark_of("gold_helm"@) == 161388,
{
    assert(mark_of("copper_plate"@) == 211060) by {
        reveal_strlit("copper_plate");
    }
    assert(mark_of("copper_greaves"@) == 243813) by {
        reveal_strlit("copper_greaves");
    }
    assert(mark_of("copper_shield"@) == 227436) by {
        reveal_strlit("copper_shield");
    }
    assert(mark_of("iron_helm"@) == 161772) by {
        reveal_strlit("iron_helm");
    }
    assert(mark_of("iron_plate"@) == 178164) by {
        reveal_strlit("iron_plate");
    }
    assert(mark_of("iron_greaves"@) == 210917) by {
        reveal_strlit("iron_greaves");
    }
    assert(mark_of("iron_shield"@) == 194540) by {
        reveal_strlit("iron_shield");
    }
    assert(mark_of("gold_helm"@) == 161388) by {
        reveal_strlit("gold_helm");
    }
}

proof fn lemma_item_marks_4()
    ensures
        mark_of("gold_plate"@) == 177780,
        mark_of("gold_greaves"@) == 210533,
        mark_of("gold_shield"@) == 194156,
        mark_of("cobalt_helm"@) == 192876,
        mark_of("cobalt_plate"@) == 209268,
        mark_of("cobalt_greaves"@) == 242021,
        mark_of("cobalt_shield"@) == 225644,
        mark_of("copper_sword"@) == 211058,
{
    assert(mark_of("gold_plate"@) == 177780) by {
        reveal_strlit("gold_plate");
    }
    assert(mark_of("gold_greaves"@) == 210533) by {
        reveal_strlit("gold_greaves");
    }
    assert(mark_of("gold_shield"@) == 194156) by {
        reveal_strlit("gold_shield");
    }
    assert(mark_of("cobalt_helm"@) == 192876) by {
        reveal_strlit("cobalt_helm");
    }
    assert(mark_of("cobalt_plate"@) == 209268) by {
        reveal_strlit("cobalt_plate");
    }
    assert(mark_of("cobalt_greaves"@) == 242021) by {
        reveal_strlit("cobalt_greaves");
    }
    assert(mark_of("cobalt_shield"@) == 225644) by {
        reveal_strlit("cobalt_shield");
    }
    assert(mark_of("copper_sword"@) == 211058) by {
        reveal_strlit("copper_sword");
    }
}

proof fn lemma_item_marks_5()
    ensures
        mark_of("iron_sword"@) == 178162,
        mark_of("gold_sword"@) == 177778,
        mark_of("cobalt_sword"@) == 209266,
        mark_of("yabbypot"@) == 143727,
        mark_of("oakrod"@) == 112111,
        mark_of("yewrod"@) == 113647,
        mark_of("magicrod"@) == 144367,
{
    assert(mark_of("iron_sword"@) == 178162) by {
        reveal_strlit("iron_sword");
    }
    assert(mark_of("gold_sword"@) == 177778) by {
        reveal_strlit("gold_sword");
    }
    assert(mark_of("cobalt_sword"@) == 209266) by {
        reveal_strlit("cobalt_sword");
    }
    assert(mark_of("yabbypot"@) == 143727) by {
        reveal_strlit("yabbypot");
    }
    assert(mark_of("oakrod"@) == 112111) by {
        reveal_strlit("oakrod");
    }
    assert(mark_of("yewrod"@) == 113647) by {
        reveal_strlit("yewrod");
    }
    assert(mark_of("magicrod"@) == 144367) by {
        reveal_strlit("magicrod");
    }
}

proof fn lemma_label_marks_0()
    ensures
        mark_of("Berries"@) == 129381,
        mark_of("Yabby"@) == 94562,
        mark_of("Trout"@) == 96245,
        mark_of("Salmon"@) == 112239,
        mark_of("Anglerfish"@) == 177139,
        mark_of("Pine logs"@) == 161639,
        mark_of("Oak logs"@) == 144871,
        mark_of("Yew logs"@) == 146407,
{
    assert(mark_of("Berries"@) == 129381) by {
        reveal_strlit("Berries");
    }
    assert(mark_of("Yabby"@) == 94562) by {
        reveal_strlit("Yabby");
    }
    assert(mark_of("Trout"@) == 96245) by {
        reveal_strlit("Trout");
    }
    assert(mark_of("Salmon"@) == 112239) by {
        reveal_strlit("Salmon");
    }
    assert(mark_of("Anglerfish"@) == 177139) by {
        reveal_strlit("Anglerfish");
    }
    assert(mark_of("Pine logs"@) == 161639) by {
        reveal_strlit("Pine logs");
    }
    assert(mark_of("Oak logs"@) == 144871) by {
        reveal_strlit("Oak logs");
    }
    assert(mark_of("Yew logs"@) == 146407) by {
        reveal_strlit("Yew logs");
    }
}

proof fn lemma_label_marks_1()
    ensures
        mark_of("Magic logs"@) == 177127,
        mark_of("Copper ore"@) == 178290,
        mark_of("Iron ore"@) == 145394,
        mark_of("Gold ore"@) == 145010,
        mark_of("Cobalt ore"@) == 176498,
        mark_of("Bronze Axe"@) == 178168,
        mark_of("Iron Axe"@) == 145400,
        mark_of("Steel Axe"@) == 160504,
{
    assert(mark_of("Magic logs"@) == 177127) by {
        reveal_strlit("Magic logs");
    }
    assert(mark_of("Copper ore"@) == 178290) by {
        reveal_strlit("Copper ore");
    }
    assert(mark_of("Iron ore"@) == 145394) by {
        reveal_strlit("Iron ore");
    }
    assert(mark_of("Gold ore"@) == 145010) by {
        reveal_strlit("Gold ore");
    }
    assert(mark_of("Cobalt ore"@) == 176498) by {
        reveal_strlit("Cobalt ore");
    }
    assert(mark_of("Bronze Axe"@) == 178168) by {
        reveal_strlit("Bronze Axe");
    }
    assert(mark_of("Iron Axe"@) == 145400) by {
        reveal_strlit("Iron Axe");
    }
    assert(mark_of("Steel Axe"@) == 160504) by {
        reveal_strlit("Steel Axe");
    }
}

proof fn lemma_label_marks_2()
    ensures
        mark_of("Cobalt Axe"@) == 176504,
        mark_of("Bronze Pickaxe"@) == 243704,
        mark_of("Iron Pickaxe"@) == 210936,
        mark_of("Steel Pickaxe"@) == 226040,
        mark_of("Cobalt Pickaxe"@) == 242040,
        mark_of("Copper Helm"@) == 194668,
        mark_of("Copper Plate"@) == 211060,
        mark_of("Copper Greaves"@) == 243813,
{
    assert(mark_of("Cobalt Axe"@) == 176504) by {
        reveal_strlit("Cobalt Axe");
    }
    assert(mark_of("Bronze Pickaxe"@) == 243704) by {
        reveal_strlit("Bronze Pickaxe");
    }
    assert(mark_of("Iron Pickaxe"@) == 210936) by {
        reveal_strlit("Iron Pickaxe");
    }
    assert(mark_of("Steel Pickaxe"@) == 226040) by {
        reveal_strlit("Steel Pickaxe");
    }
    assert(mark_of("Cobalt Pickaxe"@) == 242040) by {
        reveal_strlit("Cobalt Pickaxe");
    }
    assert(mark_of("Copper Helm"@) == 194668) by {
        reveal_strlit("Copper Helm");
    }
    assert(mark_of("Copper Plate"@) == 211060) by {
        reveal_strlit("Copper Plate");
    }
    assert(mark_of("Copper Greaves"@) == 243813) by {
        reveal_strlit("Copper Greaves");
    }
}

proof fn lemma_label_marks_3()
    ensures
        mark_of("Copper Shield"@) == 227436,
        mark_of("Iron Helm"@) == 161772,
        mark_of("Iron Plate"@) == 178164,
        mark_of("Iron Greaves"@) == 210917,
        mark_of("Iron Shield"@) == 194540,
        mark_of("Gold Helm"@) == 161388,
        mark_of("Gold Plate"@) == 177780,
        mark_of("Gold Greaves"@) == 210533,
{
    assert(mark_of("Copper Shield"@) == 227436) by {
        reveal_strlit("Copper Shield");
    }
    assert(mark_of("Iron Helm"@) == 161772) by {
        reveal_strlit("Iron Helm");
    }
    assert(mark_of("Iron Plate"@) == 178164) by {
        reveal_strlit("Iron Plate");
    }
    assert(mark_of("Iron Greaves"@) == 210917) by {
        reveal_strlit("Iron Greaves");
    }
    assert(mark_of("Iron Shield"@) == 194540) by {
        reveal_strlit("Iron Shield");
    }
    assert(mark_of("Gold Helm"@) == 161388) by {
        reveal_strlit("Gold Helm");
    }
    assert(mark_of("Gold Plate"@) == 177780) by {
        reveal_strlit("Gold Plate");
    }
    assert(mark_of("Gold Greaves"@) == 210533) by {
        reveal_strlit("Gold Greaves");
    }
}

proof fn lemma_label_marks_4()
    ensures
        mark_of("Gold Shield"@) == 194156,
        mark_of("Cobalt Helm"@) == 192876,
        mark_of("Cobalt Plate"@) == 209268,
        mark_of("Cobalt Greaves"@) == 242021,
        mark_of("Cobalt Shield"@) == 225644,
        mark_of("Copper Sword"@) == 211058,
        mark_of("Iron Sword"@) == 178162,
        mark_of("Gold Sword"@) == 177778,
{
    assert(mark_of("Gold Shield"@) == 194156) by {
        reveal_strlit("Gold Shield");
    }
    assert(mark_of("Cobalt Helm"@) == 192876) by {
        reveal_strlit("Cobalt Helm");
    }
    assert(mark_of("Cobalt Plate"@) == 209268) by {
        reveal_strlit("Cobalt Plate");
    }
    assert(mark_of("Cobalt Greaves"@) == 242021) by {
        reveal_strlit("Cobalt Greaves");
    }
    assert(mark_of("Cobalt Shield"@) == 225644) by {
        reveal_strlit("Cobalt Shield");
    }
    assert(mark_of("Copper Sword"@) == 211058) by {
        reveal_strlit("Copper Sword");
    }
    assert(mark_of("Iron Sword"@) == 178162) by {
        reveal_strlit("Iron Sword");
    }
    assert(mark_of("Gold Sword"@) == 177778) by {
        reveal_strlit("Gold Sword");
    }
}

proof fn lemma_label_marks_5()
    ensures
        mark_of("Cobalt Sword"@) == 209266,
        mark_of("Yabby Pot"@) == 160111,
        mark_of("Oak Rod"@) == 128495,
        mark_of("Yew Rod"@) == 130031,
        mark_of("Magic Rod"@) == 160751,
        mark_of("Item"@) == 78565,
{
    assert(mark_of("Cobalt Sword"@) == 209266) by {
        reveal_strlit("Cobalt Sword");
    }
    assert(mark_of("Yabby Pot"@) == 160111) by {
        reveal_strlit("Yabby Pot");
    }
    assert(mark_of("Oak Rod"@) == 128495) by {
        reveal_strlit("Oak Rod");
    }
    assert(mark_of("Yew Rod"@) == 130031) by {
        reveal_strlit("Yew Rod");
    }
    assert(mark_of("Magic Rod"@) == 160751) by {
        reveal_strlit("Magic Rod");
    }
    assert(mark_of("Item"@) == 78565) by {
        reveal_strlit("Item");
    }
}

/// The marks of the items.
proof fn lemma_item_marks()
    ensures
        mark_of("coins"@) == 95470,
        mark_of("berries"@) == 129381,
        mark_of("pine_logs"@) == 161639,
        mark_of("oak_logs"@) == 144871,
        mark_of("yew_logs"@) == 146407,
        mark_of("magic_logs"@) == 177127,
        mark_of("copper_ore"@) == 178290,
        mark_of("iron_ore"@) == 145394,
        mark_of("gold_ore"@) == 145010,
        mark_of("cobalt_ore"@) == 176498,
        mark_of("salmon"@) == 112239,
        mark_of("yabby"@) == 94562,
        mark_of("trout"@) == 96245,
        mark_of("anglerfish"@) == 177139,
        mark_of("fishing_rod"@) == 195055,
        mark_of("bronze_axe"@) == 178168,
        mark_of("iron_axe"@) == 145400,
        mark_of("steel_axe"@) == 160504,
        mark_of("cobalt_axe"@) == 176504,
        mark_of("bronze_pickaxe"@) == 243704,
        mark_of("iron_pickaxe"@) == 210936,
        mark_of("steel_pickaxe"@) == 226040,
        mark_of("cobalt_pickaxe"@) == 242040,
        mark_of("copper_helm"@) == 194668,
        mark_of("copper_plate"@) == 211060,
        mark_of("copper_greaves"@) == 243813,
        mark_of("copper_shield"@) == 227436,
        mark_of("iron_helm"@) == 161772,
        mark_of("iron_plate"@) == 178164,
        mark_of("iron_greaves"@) == 210917,
        mark_of("iron_shield"@) == 194540,
        mark_of("gold_helm"@) == 161388,
        mark_of("gold_plate"@) == 177780,
        mark_of("gold_greaves"@) == 210533,
        mark_of("gold_shield"@) == 194156,
        mark_of("cobalt_helm"@) == 192876,
        mark_of("cobalt_plate"@) == 209268,
        mark_of("cobalt_greaves"@) == 242021,
        mark_of("cobalt_shield"@) == 225644,
        mark_of("copper_sword"@) == 211058,
        mark_of("iron_sword"@) == 178162,
        mark_of("gold_sword"@) == 177778,
        mark_of("cobalt_sword"@) == 209266,
        mark_of("yabbypot"@) == 143727,
        mark_of("oakrod"@) == 112111,
        mark_of("yewrod"@) == 113647,
        mark_of("magicrod"@) == 144367,
{
    lemma_item_marks_0();
    lemma_item_marks_1();
    lemma_item_marks_2();
    lemma_item_marks_3();
    lemma_item_marks_4();
    lemma_item_marks_5();
}

/// The marks of the names.
proof fn lemma_label_marks()
    ensures
        mark_of("Berries"@) == 129381,
        mark_of("Yabby"@) == 94562,
        mark_of("Trout"@) == 96245,
        mark_of("Salmon"@) == 112239,
        mark_of("Anglerfish"@) == 177139,
        mark_of("Pine logs"@) == 161639,
        mark_of("Oak logs"@) == 144871,
        mark_of("Yew logs"@) == 146407,
        mark_of("Magic logs"@) == 177127,
        mark_of("Copper ore"@) == 178290,
        mark_of("Iron ore"@) == 145394,
        mark_of("Gold ore"@) == 145010,
        mark_of("Cobalt ore"@) == 176498,
        mark_of("Bronze Axe"@) == 178168,
        mark_of("Iron Axe"@) == 145400,
        mark_of("Steel Axe"@) == 160504,
        mark_of("Cobalt Axe"@) == 176504,
        mark_of("Bronze Pickaxe"@) == 243704,
        mark_of("Iron Pickaxe"@) == 210936,
        mark_of("Steel Pickaxe"@) == 226040,
        mark_of("Cobalt Pickaxe"@) == 242040,
        mark_of("Copper Helm"@) == 194668,
        mark_of("Copper Plate"@) == 211060,
        mark_of("Copper Greaves"@) == 243813,
        mark_of("Copper Shield"@) == 227436,
        mark_of("Iron Helm"@) == 161772,
        mark_of("Iron Plate"@) == 178164,
        mark_of("Iron Greaves"@) == 210917,
        mark_of("Iron Shield"@) == 194540,
        mark_of("Gold Helm"@) == 161388,
        mark_of("Gold Plate"@) == 177780,
        mark_of("Gold Greaves"@) == 210533,
        mark_of("Gold Shield"@) == 194156,
        mark_of("Cobalt Helm"@) == 192876,
        mark_of("Cobalt Plate"@) == 209268,
        mark_of("Cobalt Greaves"@) == 242021,
        mark_of("Cobalt Shield"@) == 225644,
        mark_of("Copper Sword"@) == 211058,
        mark_of("Iron Sword"@) == 178162,
        mark_of("Gold Sword"@) == 177778,
        mark_of("Cobalt Sword"@) == 209266,
        mark_of("Yabby Pot"@) == 160111,
        mark_of("Oak Rod"@) == 128495,
        mark_of("Yew Rod"@) == 130031,
        mark_of("Magic Rod"@) == 160751,
        mark_of("Item"@) == 78565,
{
    lemma_label_marks_0();
    lemma_label_marks_1();
    lemma_label_marks_2();
    lemma_label_marks_3();
    lemma_label_marks_4();
    lemma_label_marks_5();
}

/// Whether an item can be told from its name, and has one.
spec fn told_by_name(item: Seq<char>) -> bool {
    &&& item_marked(mark_of(item_label(item))) == item
    &&& item_label(item) != "Item"@
}

proof fn lemma_gathered_named(item: Seq<char>)
    requires
        item == "berries"@ || fish_by_fish(item) is Some || tree_of_item(item) is Some
            || rock_of_item(item) is Some,
    ensures
        told_by_name(item),
{
    lemma_item_marks();
    lemma_label_marks();
    let (f, t, r) = (fish_table(), trees_table(), rocks_table());
    lemma_first_at(f, fish_with_fish(item), 0);
    lemma_first_at(t, resource_giving(item), 0);
    lemma_first_at(r, resource_giving(item), 0);
    let i = first_at(f, fish_with_fish(item), 0);
    let k = first_at(t, resource_giving(item), 0);
    let n = first_at(r, resource_giving(item), 0);
    if item != "berries"@ {
        if i < 4 {
            assert(fish_with_fish(item)(f[i]));
            assert(i == 0 || i == 1 || i == 2 || i == 3);
        } else if k < 4 {
            assert(resource_giving(item)(t[k]));
            assert(k == 0 || k == 1 || k == 2 || k == 3);
        } else {
            assert(resource_giving(item)(r[n]));
            assert(n == 0 || n == 1 || n == 2 || n == 3);
        }
    }
}

proof fn lemma_rod_named(item: Seq<char>)
    requires
        fish_by_rod(item) is Some,
    ensures
        told_by_name(item),
{
    lemma_item_marks();
    lemma_label_marks();
    let f = fish_table();
    lemma_first_at(f, fish_with_rod(item), 0);
    let i = first_at(f, fish_with_rod(item), 0);
    assert(fish_with_rod(item)(f[i]));
    assert(i == 0 || i == 1 || i == 2 || i == 3);
}

/// A rod is one of four.
proof fn lemma_no_rod(item: Seq<char>)
    ensures
        fish_by_rod(item) is Some ==> item == "yabbypot"@ || item == "oakrod"@ || item == "yewrod"@
            || item == "magicrod"@,
{
    let f = fish_table();
    lemma_first_at(f, fish_with_rod(item), 0);
    let i = first_at(f, fish_with_rod(item), 0);
    if i < 4 {
        assert(fish_with_rod(item)(f[i]));
        assert(i == 0 || i == 1 || i == 2 || i == 3);
    }
}

/// A tool is one of eight, each with its name.
proof fn lemma_which_tool(item: Seq<char>)
    ensures
        tool_of(item) matches Some(d) ==> (item == "bronze_axe"@ && d.name@ == "Bronze Axe"@)
            || (item == "iron_axe"@ && d.name@ == "Iron Axe"@)
            || (item == "steel_axe"@ && d.name@ == "Steel Axe"@)
            || (item == "cobalt_axe"@ && d.name@ == "Cobalt Axe"@)
            || (item == "bronze_pickaxe"@ && d.name@ == "Bronze Pickaxe"@)
            || (item == "iron_pickaxe"@ && d.name@ == "Iron Pickaxe"@)
            || (item == "steel_pickaxe"@ && d.name@ == "Steel Pickaxe"@)
            || (item == "cobalt_pickaxe"@ && d.name@ == "Cobalt Pickaxe"@),
{
    let t = tools_table();
    lemma_first_at(t, tool_named(item), 0);
    let k = first_at(t, tool_named(item), 0);
    if k < 8 {
        assert(tool_named(item)(t[k]));
        assert(k == 0 || k == 1 || k == 2 || k == 3 || k == 4 || k == 5 || k == 6 || k == 7);
    }
}

/// A piece of armour is one of sixteen, each with its name.
proof fn lemma_which_armor(item: Seq<char>)
    ensures
        armor_of(item) matches Some(d) ==> (item == "copper_helm"@ && d.name@ == "Copper Helm"@)
            || (item == "copper_plate"@ && d.name@ == "Copper Plate"@)
            || (item == "copper_greaves"@ && d.name@ == "Copper Greaves"@)
            || (item == "copper_shield"@ && d.name@ == "Copper Shield"@)
            || (item == "iron_helm"@ && d.name@ == "Iron Helm"@)
            || (item == "iron_plate"@ && d.name@ == "Iron Plate"@)
            || (item == "iron_greaves"@ && d.name@ == "Iron Greaves"@)
            || (item == "iron_shield"@ && d.name@ == "Iron Shield"@)
            || (item == "gold_helm"@ && d.name@ == "Gold Helm"@)
            || (item == "gold_plate"@ && d.name@ == "Gold Plate"@)
            || (item == "gold_greaves"@ && d.name@ == "Gold Greaves"@)
            || (item == "gold_shield"@ && d.name@ == "Gold Shield"@)
            || (item == "cobalt_helm"@ && d.name@ == "Cobalt Helm"@)
            || (item == "cobalt_plate"@ && d.name@ == "Cobalt Plate"@)
            || (item == "cobalt_greaves"@ && d.name@ == "Cobalt Greaves"@)
            || (item == "cobalt_shield"@ && d.name@ == "Cobalt Shield"@),
{
    let t = armors_table();
    lemma_first_at(t, armor_named(item), 0);
    let k = first_at(t, armor_named(item), 0);
    if k < 16 {
        assert(armor_named(item)(t[k]));
        assert(k == 0 || k == 1 || k == 2 || k == 3 || k == 4 || k == 5 || k == 6 || k == 7 || k == 8
            || k == 9 || k == 10 || k == 11 || k == 12 || k == 13 || k == 14 || k == 15);
    }
}

/// A sword is one of four, each with its name.
proof fn lemma_which_sword(item: Seq<char>)
    ensures
        sword_of(item) matches Some(d) ==> (item == "copper_sword"@ && d.name@ == "Copper Sword"@)
            || (item == "iron_sword"@ && d.name@ == "Iron Sword"@)
            || (item == "gold_sword"@ && d.name@ == "Gold Sword"@)
            || (item == "cobalt_sword"@ && d.name@ == "Cobalt Sword"@),
{
    let t = swords_table();
    lemma_first_at(t, sword_named(item), 0);
    let k = first_at(t, sword_named(item), 0);
    if k < 4 {
        assert(sword_named(item)(t[k]));
        assert(k == 0 || k == 1 || k == 2 || k == 3);
    }
}

proof fn lemma_tool_named(item: Seq<char>)
    requires
        tool_of(item) is Some,
    ensures
        told_by_name(item),
{
    lemma_item_marks();
    lemma_label_marks();
    lemma_no_rod(item);
    lemma_which_tool(item);
}

proof fn lemma_armor_named(item: Seq<char>)
    requires
        armor_of(item) is Some,
    ensures
        told_by_name(item),
{
    lemma_item_marks();
    lemma_label_marks();
    lemma_no_rod(item);
    lemma_which_tool(item);
    lemma_which_armor(item);
}

proof fn lemma_sword_named(item: Seq<char>)
    requires
        sword_of(item) is Some,
    ensures
        told_by_name(item),
{
    lemma_item_marks();
    lemma_label_marks();
    lemma_no_rod(item);
    lemma_which_tool(item);
    lemma_which_armor(item);
    lemma_which_sword(item);
}

proof fn lemma_valued_named(item: Seq<char>)
    requires
        item_price(item) is Some,
    ensures
        told_by_name(item),
{
    if tool_of(item) is Some {
        lemma_tool_named(item);
    } else if armor_of(item) is Some {
        lemma_armor_named(item);
    } else if sword_of(item) is Some {
        lemma_sword_named(item);
    } else if fish_by_rod(item) is Some {
        lemma_rod_named(item);
    } else {
        lemma_gathered_named(item);
    }
}

/// Every item that is worth something has a name of its own: not the one for unknown items,
/// and not that of another item that is worth something.
pub proof fn law_valued_items_have_names_of_their_own(a: Seq<char>, b: Seq<char>)
    requires
        item_price(a) is Some,
        item_price(b) is Some,
    ensures
        item_label(a) != "Item"@,
        a != b ==> item_label(a) != item_label(b),
{
    lemma_valued_named(a);
    lemma_valued_named(b);
}

} // verus!
