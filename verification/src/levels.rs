//! Experience points and levels.

use vstd::prelude::*;
use vstd::arithmetic::power2::*;
use crate::rounding::{
    law_rounding_keeps_order, law_rounding_keeps_short_numbers, round_to, rounded, DOUBLE,
};

verus! {

/// The highest level a skill can reach.
pub const XP_MAX_LEVEL: i32 = 99;

/// The highest level with a threshold below the largest 64-bit number.
pub const XP_TABLE_LEN: usize = 242;

/// Experience needed for level 1, 2, 3 and so on: `50 * (1.17^(level - 1) - 1) / 0.17`,
/// rounded down. Past level 162 a value carries the rounding of a 64-bit float.
pub const XP_TABLE: [i64; 242] = [
    0, 50, 108, 176, 257, 350,
    460, 588, 738, 914, 1119, 1359,
    1641, 1970, 2355, 2805, 3332, 3948,
    4670, 5514, 6501, 7656, 9008, 10590,
    12440, 14605, 17138, 20101, 23568, 27625,
    32371, 37925, 44422, 52024, 60918, 71324,
    83499, 97744, 114411, 133911, 156726, 183419,
    214650, 251191, 293944, 343964, 402488, 470961,
    551075, 644807, 754475, 882785, 1032909, 1208554,
    1414058, 1654498, 1935812, 2264950, 2650042, 3100599,
    3627751, 4244519, 4966138, 5810431, 6798254, 7954008,
    9306239, 10888350, 12739419, 14905171, 17439100, 20403797,
    23872493, 27930867, 32679164, 38234672, 44734616, 52339551,
    61237325, 71647720, 83827883, 98078673, 114752097, 134260004,
    157084254, 183788628, 215032745, 251588361, 294358433, 344399416,
    402947367, 471448470, 551594760, 645365919, 755078175, 883441515,
    1033626623, 1209343199, 1414931593, 1655470014, 1936899966, 2266173010,
    2651422472, 3102164342, 3629532331, 4246552877, 4968466916, 5813106342,
    6801334470, 7957561380, 9310346865, 10893105882, 12744933932, 14911572751,
    17446540168, 20412452047, 23882568945, 27942605716, 32692848737, 38250633073,
    44753240745, 52361291722, 61262711365, 71677372347, 83862525696, 98119155115,
    114799411534, 134315311545, 157148914558, 183864230083, 215121149247, 251691744669,
    294479341313, 344540829387, 403112770432, 471641941456, 551821071554, 645630653768,
    755387864958, 883803802051, 1034050448450, 1209839024737, 1415511658992, 1656148641071,
    1937693910103, 2267101874870, 2652509193648, 3103435756619, 3631019835294, 4248293207344,
    4970503052643, 5815488571642, 6804121628871, 7960822305829, 9314162097871, 10897569654559,
    12750156495884, 14917683100234, 17453689227324, 20420816396019, 23892355183392, 27954055564619,
    32706245010654, 38266306662516, 44771578795193, 52382747190426, 61287814212849, 71706742629083,
    83896888876077, 98159359985061, 114846451182571, 134370347883658, 157213307023930, 183939569218048,
    215209295985166, 251794876302695, 294600005274203, 344682006170868, 403277947219965, 471835198247409,
    552047181949519, 645895202880987, 755697387370805, 884165943223892, 1034474153572003, 1210334759679294,
    1416091668824824, 1656827252525094, 1938487885454410, 2268030825981710, 2653596066398650, 3104707397686471,
    3632507655293220, 4250033956693118, 4972539729330998, 5817871483317316, 6806909635481310, 7964084273513183,
    9317978600010474, 10902034962012302, 12755380905554446, 14923795659498748, 17460840921613584, 20429183878287944,
    23902145137596940, 27965509810988472, 32719646478856556, 38281986380262216, 44789924064906848, 52404211155941048,
    61312927052451088, 71736124651367808, 83931265842100384, 98199581035257488, 114893509811251296, 134425406479164064,
    157277725580621984, 184014938929327808, 215297478547313536, 251898049900356864, 294720718383417600, 344823240508598592,
    403443191395060416, 472028533932220608, 552273384700698176, 646159860099816960, 756007036316785664, 884528232490639488,
    1034898032014048000, 1210830697456436224, 1416671916024030208, 1657506141748115456, 1939282185845294848, 2268960157438994944,
    2654683384203624448, 3105979559518240256, 3633996084636340736, 4251775419024518144, 4974577240258686976, 5820255371102662656,
    6809698784190114816, 7967347577502434304,
];

/// Experience needed for a level.
pub open spec fn xp_threshold(level: int) -> i64 {
    if level <= 1 {
        0
    } else if level <= XP_TABLE_LEN {
        XP_TABLE@[level - 1]
    } else {
        i64::MAX
    }
}

/// Experience needed for a level.
pub fn xp_threshold_for_level(level: i32) -> (r: i64)
    ensures
        r == xp_threshold(level as int),
{
    if level <= 1 {
        return 0;
    }
    if level as usize <= XP_TABLE_LEN {
        XP_TABLE[level as usize - 1]
    } else {
        i64::MAX
    }
}

spec fn rises(level: int) -> bool {
    xp_threshold(level) < xp_threshold(level + 1)
}

proof fn lemma_all_rise()
    ensures
        forall|level: int| 1 <= level < 99 ==> rises(level),
{
    assert(rises(1) && rises(2) && rises(3) && rises(4) && rises(5) && rises(6) && rises(7) && rises(8) && rises(9) && rises(10));
    assert(rises(11) && rises(12) && rises(13) && rises(14) && rises(15) && rises(16) && rises(17) && rises(18) && rises(19) && rises(20));
    assert(rises(21) && rises(22) && rises(23) && rises(24) && rises(25) && rises(26) && rises(27) && rises(28) && rises(29) && rises(30));
    assert(rises(31) && rises(32) && rises(33) && rises(34) && rises(35) && rises(36) && rises(37) && rises(38) && rises(39) && rises(40));
    assert(rises(41) && rises(42) && rises(43) && rises(44) && rises(45) && rises(46) && rises(47) && rises(48) && rises(49) && rises(50));
    assert(rises(51) && rises(52) && rises(53) && rises(54) && rises(55) && rises(56) && rises(57) && rises(58) && rises(59) && rises(60));
    assert(rises(61) && rises(62) && rises(63) && rises(64) && rises(65) && rises(66) && rises(67) && rises(68) && rises(69) && rises(70));
    assert(rises(71) && rises(72) && rises(73) && rises(74) && rises(75) && rises(76) && rises(77) && rises(78) && rises(79) && rises(80));
    assert(rises(81) && rises(82) && rises(83) && rises(84) && rises(85) && rises(86) && rises(87) && rises(88) && rises(89) && rises(90));
    assert(rises(91) && rises(92) && rises(93) && rises(94) && rises(95) && rises(96) && rises(97) && rises(98));
}


/// The highest level, counted down from `top`, whose threshold `xp` reaches.
pub open spec fn level_below(xp: int, top: int) -> int
    decreases top,
{
    if top <= 1 || xp_threshold(top) <= xp {
        top
    } else {
        level_below(xp, top - 1)
    }
}

/// The level of a skill with this much experience; negative experience counts as none.
pub open spec fn level_of(xp: i32) -> i32 {
    level_below(if xp < 0 { 0 } else { xp as int }, XP_MAX_LEVEL as int) as i32
}

proof fn lemma_rises_to(a: int, b: int)
    requires
        1 <= a <= b <= XP_MAX_LEVEL,
    ensures
        xp_threshold(a) <= xp_threshold(b),
        a < b ==> xp_threshold(a) < xp_threshold(b),
    decreases b - a,
{
    lemma_all_rise();
    if a < b {
        assert(rises(b - 1));
        lemma_rises_to(a, b - 1);
    }
}

proof fn lemma_level_below(xp: int, top: int, level: int)
    requires
        1 <= level <= top <= XP_MAX_LEVEL,
        level == 1 || xp_threshold(level) <= xp,
        level == XP_MAX_LEVEL || xp < xp_threshold(level + 1),
    ensures
        level_below(xp, top) == level,
    decreases top,
{
    if level < top {
        lemma_rises_to(level + 1, top);
        lemma_level_below(xp, top - 1, level);
    }
}

/// The level of a skill with this much experience.
pub fn level_from_xp(xp: i32) -> (r: i32)
    ensures
        r == level_of(xp),
        1 <= r <= XP_MAX_LEVEL,
{
    let x: i64 = if xp < 0 { 0 } else { xp as i64 };
    let mut lo: i32 = 1;
    let mut hi: i32 = XP_MAX_LEVEL;
    while lo < hi
        invariant
            1 <= lo <= hi <= XP_MAX_LEVEL,
            x >= 0,
            xp_threshold(lo as int) <= x,
            hi == XP_MAX_LEVEL || x < xp_threshold(hi + 1),
        decreases hi - lo,
    {
        let mid: i32 = (lo + hi + 1) / 2;
        if xp_threshold_for_level(mid) <= x {
            lo = mid;
        } else {
            hi = mid - 1;
        }
    }
    proof {
        lemma_level_below(x as int, XP_MAX_LEVEL as int, lo as int);
    }
    lo
}

/// A level is the one whose threshold the experience reaches and whose successor's it
/// does not; past the highest level there is none to reach.
pub proof fn law_level_brackets_xp(xp: i32)
    ensures
        1 <= level_of(xp) <= XP_MAX_LEVEL,
        level_of(xp) > 1 ==> xp_threshold(level_of(xp) as int) <= xp,
        level_of(xp) < XP_MAX_LEVEL ==> xp < xp_threshold(level_of(xp) + 1),
{
    lemma_below_brackets(if xp < 0 { 0 } else { xp as int }, XP_MAX_LEVEL as int);
}

proof fn lemma_below_brackets(xp: int, top: int)
    requires
        xp >= 0,
        1 <= top <= XP_MAX_LEVEL,
    ensures
        1 <= level_below(xp, top) <= top,
        level_below(xp, top) > 1 ==> xp_threshold(level_below(xp, top)) <= xp,
        level_below(xp, top) < top ==> xp < xp_threshold(level_below(xp, top) + 1),
    decreases top,
{
    if !(top <= 1 || xp_threshold(top) <= xp) {
        lemma_below_brackets(xp, top - 1);
    }
}

/// Without experience a skill has level 1.
pub proof fn law_level_of_nothing()
    ensures
        level_of(0) == 1,
{
    law_level_brackets_xp(0);
    if level_of(0) > 1 {
        lemma_rises_to(1, level_of(0) as int);
    }
}

/// A higher level always takes more experience.
pub proof fn law_threshold_rises(a: int, b: int)
    requires
        1 <= a < b <= XP_MAX_LEVEL,
    ensures
        xp_threshold(a) < xp_threshold(b),
{
    lemma_rises_to(a, b);
}

/// More experience never lowers a level.
pub proof fn law_level_monotone(a: i32, b: i32)
    requires
        a <= b,
    ensures
        level_of(a) <= level_of(b),
{
    law_level_brackets_xp(a);
    law_level_brackets_xp(b);
    let (la, lb) = (level_of(a) as int, level_of(b) as int);
    if la > lb {
        lemma_rises_to(lb + 1, la);
    }
}

/// A hundredth as a 64-bit float, counted in units of 2^-59.
pub const HUNDREDTH_59: u128 = 5764607523034235;

/// One, counted in units of 2^-59.
pub const ONE_59: u128 = 0x800_0000_0000_0000;

/// The magnitude of a number.
pub open spec fn magnitude(x: int) -> nat {
    if x < 0 {
        (-x) as nat
    } else {
        x as nat
    }
}

/// The factor `1 + angel_points / 100` in double precision, in units of 2^-59.
pub open spec fn bonus_factor(angel_points: int) -> int {
    let p = rounded(magnitude(angel_points) * HUNDREDTH_59 as nat, DOUBLE as nat);
    let s = if angel_points < 0 { ONE_59 - p } else { ONE_59 + p };
    let m = rounded(magnitude(s), DOUBLE as nat);
    if s < 0 {
        -(m as int)
    } else {
        m as int
    }
}

/// `base` times the bonus factor in double precision, rounded to the nearest integer,
/// halves away from zero, and held to the range of 32 bits.
pub open spec fn bonus_xp(base: int, angel_points: int) -> int {
    let f = bonus_factor(angel_points);
    let m = rounded(magnitude(base) * magnitude(f), DOUBLE as nat);
    let q = (m + ONE_59 as int / 2) / (ONE_59 as int);
    if (base < 0) != (f < 0) {
        if q > 0x8000_0000 { -0x8000_0000 } else { -q }
    } else {
        if q > 0x7fff_ffff { 0x7fff_ffff } else { q }
    }
}

fn magnitude_of(x: i128) -> (r: u128)
    requires
        x > i128::MIN,
    ensures
        r == magnitude(x as int),
{
    if x < 0 {
        (0 - x) as u128
    } else {
        x as u128
    }
}

/// Experience gained for `base`, one percent more of it for each angel point.
pub fn xp_with_bonus(base: i32, angel_points: i32) -> (r: i32)
    ensures
        r == bonus_xp(base as int, angel_points as int),
{
    let a: u128 = magnitude_of(angel_points as i128);
    assert(a * HUNDREDTH_59 <= 0x8000_0000 * HUNDREDTH_59) by (nonlinear_arith)
        requires
            a <= 0x8000_0000,
    ;
    let p: u128 = round_to(a * HUNDREDTH_59, DOUBLE);
    let s: i128 = if angel_points < 0 {
        ONE_59 as i128 - p as i128
    } else {
        ONE_59 as i128 + p as i128
    };
    let f: u128 = round_to(magnitude_of(s), DOUBLE);
    let b: u128 = magnitude_of(base as i128);
    assert(b * f <= 0x8000_0000 * 0x40_0000_0000_0000_0000_0000) by (nonlinear_arith)
        requires
            0 <= b <= 0x8000_0000,
            0 <= f <= 0x40_0000_0000_0000_0000_0000,
    ;
    let m: u128 = round_to(b * f, DOUBLE);
    let q: u128 = (m + ONE_59 / 2) / ONE_59;
    let negative: bool = (base < 0) != (s < 0 && f != 0);
    if negative {
        if q > 0x8000_0000 {
            i32::MIN
        } else {
            (0 - q as i64) as i32
        }
    } else {
        if q > 0x7fff_ffff {
            i32::MAX
        } else {
            q as i32
        }
    }
}

/// Without angel points there is no bonus.
pub proof fn law_no_points_no_bonus(base: i32)
    ensures
        bonus_xp(base as int, 0) == base,
{
    let d = DOUBLE as nat;
    lemma2_to64_rest();
    assert(0 * pow2(59) == 0);
    law_rounding_keeps_short_numbers(0, 59, d);
    law_rounding_keeps_short_numbers(1, 59, d);
    assert(1 * pow2(59) == pow2(59));
    assert(magnitude(0) * HUNDREDTH_59 as nat == 0);
    assert(bonus_factor(0) == ONE_59);
    let b = magnitude(base as int);
    law_rounding_keeps_short_numbers(b, 59, d);
    let m = b * ONE_59 as nat;
    assert(rounded(m, d) == m);
    assert((m + ONE_59 as int / 2) / (ONE_59 as int) == b) by (nonlinear_arith)
        requires
            m == b * 0x800_0000_0000_0000,
            ONE_59 == 0x800_0000_0000_0000,
    ;
}

/// Where neither is negative, more angel points never bring less experience.
pub proof fn law_bonus_grows(base: i32, fewer: i32, more: i32)
    requires
        0 <= base,
        0 <= fewer <= more,
    ensures
        bonus_xp(base as int, fewer as int) <= bonus_xp(base as int, more as int),
{
    let d = DOUBLE as nat;
    let h = HUNDREDTH_59 as nat;
    let (a, b) = (magnitude(fewer as int), magnitude(more as int));
    assert(a * h <= b * h) by (nonlinear_arith)
        requires
            a <= b,
            h >= 0,
    ;
    law_rounding_keeps_order(a * h, b * h, d);
    let (p, q) = (rounded(a * h, d), rounded(b * h, d));
    law_rounding_keeps_order(ONE_59 as nat + p, ONE_59 as nat + q, d);
    let (f, g) = (bonus_factor(fewer as int), bonus_factor(more as int));
    assert(0 <= f <= g);
    let n = magnitude(base as int);
    assert(n * magnitude(f) <= n * magnitude(g)) by (nonlinear_arith)
        requires
            magnitude(f) <= magnitude(g),
            n >= 0,
    ;
    law_rounding_keeps_order(n * magnitude(f), n * magnitude(g), d);
}

/// Where neither is negative, angel points never take experience away.
pub proof fn law_bonus_adds(base: i32, angel_points: i32)
    requires
        0 <= base,
        0 <= angel_points,
    ensures
        base <= bonus_xp(base as int, angel_points as int),
{
    law_no_points_no_bonus(base);
    law_bonus_grows(base, 0, angel_points);
}

} // verus!
