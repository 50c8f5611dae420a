//! The experience table follows its curve.

use vstd::prelude::*;
use crate::levels::{xp_threshold, XP_MAX_LEVEL};

verus! {

/// The numerator of `50 * (1.17^n - 1) / 0.17`, that is of the sum of `50 * 1.17^k`
/// for `k` below `n`, over the denominator `100^n`.
pub open spec fn curve_num(n: nat) -> nat
    decreases n,
{
    if n == 0 {
        0
    } else {
        117 * curve_num((n - 1) as nat) + 5000 * curve_den((n - 1) as nat)
    }
}

/// `100^n`.
pub open spec fn curve_den(n: nat) -> nat
    decreases n,
{
    if n == 0 {
        1
    } else {
        100 * curve_den((n - 1) as nat)
    }
}

/// Whether the table holds the curve, rounded down, at this level.
pub open spec fn on_curve(level: int) -> bool {
    let n = (level - 1) as nat;
    curve_den(n) * xp_threshold(level) <= curve_num(n) < curve_den(n) * (xp_threshold(level) + 1)
}

/// One, in the fixed-point numbers that bracket the curve.
const SCALE: u128 = 100_000_000_000_000_000_000;

spec fn bracket_low(n: nat) -> nat
    decreases n,
{
    if n == 0 {
        0
    } else {
        ((117 * bracket_low((n - 1) as nat) + 5000 * SCALE) / 100) as nat
    }
}

spec fn bracket_width(n: nat) -> nat
    decreases n,
{
    if n == 0 {
        0
    } else {
        ((117 * bracket_width((n - 1) as nat)) / 100 + 2) as nat
    }
}

proof fn lemma_bracket(n: nat)
    ensures
        bracket_low(n) * curve_den(n) <= SCALE * curve_num(n),
        SCALE * curve_num(n) <= (bracket_low(n) + bracket_width(n)) * curve_den(n),
        curve_den(n) >= 1,
    decreases n,
{
    if n == 0 {
        assert(0 * curve_den(n) == 0) by (nonlinear_arith);
    } else {
        let m = (n - 1) as nat;
        lemma_bracket(m);
        let (lo, wd, den, num) = (bracket_low(m), bracket_width(m), curve_den(m), curve_num(m));
        let (lo1, wd1) = (bracket_low(n), bracket_width(n));
        assert(100 * lo1 <= 117 * lo + 5000 * SCALE);
        assert(117 * (lo + wd) + 5000 * SCALE <= 100 * (lo1 + wd1));
        assert(lo1 * (100 * den) <= SCALE * (117 * num + 5000 * den)) by (nonlinear_arith)
            requires
                100 * lo1 <= 117 * lo + 5000 * SCALE,
                lo * den <= SCALE * num,
                den >= 1,
        ;
        assert(SCALE * (117 * num + 5000 * den) <= (lo1 + wd1) * (100 * den)) by (nonlinear_arith)
            requires
                117 * (lo + wd) + 5000 * SCALE <= 100 * (lo1 + wd1),
                SCALE * num <= (lo + wd) * den,
                den >= 1,
        ;
    }
}

#[verifier::opaque]
spec fn bracketed(level: int) -> bool {
    let n = (level - 1) as nat;
    SCALE * xp_threshold(level) <= bracket_low(n) && bracket_low(n) + bracket_width(n) < SCALE * (
    xp_threshold(level) + 1)
}

proof fn lemma_bracketed_1()
    ensures
        bracket_low(11) == 135999682806364779857450,
        bracket_width(11) == 46,
        bracketed(1),
        bracketed(2),
        bracketed(3),
        bracketed(4),
        bracketed(5),
        bracketed(6),
        bracketed(7),
        bracketed(8),
        bracketed(9),
        bracketed(10),
        bracketed(11),
{
    reveal(bracketed);
    assert(bracket_low(0) == 0 && bracket_width(0) == 0);
    assert(bracketed(1) && bracket_low(1) == 5000000000000000000000 && bracket_width(1) == 2);
    assert(bracketed(2) && bracket_low(2) == 10850000000000000000000 && bracket_width(2) == 4);
    assert(bracketed(3) && bracket_low(3) == 17694500000000000000000 && bracket_width(3) == 6);
    assert(bracketed(4) && bracket_low(4) == 25702565000000000000000 && bracket_width(4) == 9);
    assert(bracketed(5) && bracket_low(5) == 35072001050000000000000 && bracket_width(5) == 12);
    assert(bracketed(6) && bracket_low(6) == 46034241228500000000000 && bracket_width(6) == 16);
    assert(bracketed(7) && bracket_low(7) == 58860062237345000000000 && bracket_width(7) == 20);
    assert(bracketed(8) && bracket_low(8) == 73866272817693650000000 && bracket_width(8) == 25);
    assert(bracketed(9) && bracket_low(9) == 91423539196701570500000 && bracket_width(9) == 31);
    assert(bracketed(10) && bracket_low(10) == 111965540860140837485000 && bracket_width(10) == 38);
    assert(bracketed(11) && bracket_low(11) == 135999682806364779857450 && bracket_width(11) == 46);
}

proof fn lemma_bracketed_12()
    requires
        bracket_low(11) == 135999682806364779857450,
        bracket_width(11) == 46,
    ensures
        bracket_low(22) == 900860432209411845112205,
        bracket_width(22) == 299,
        bracketed(12),
        bracketed(13),
        bracketed(14),
        bracketed(15),
        bracketed(16),
        bracketed(17),
        bracketed(18),
        bracketed(19),
        bracketed(20),
        bracketed(21),
        bracketed(22),
{
    reveal(bracketed);
    assert(bracketed(12) && bracket_low(12) == 164119628883446792433216 && bracket_width(12) == 55);
    assert(bracketed(13) && bracket_low(13) == 197019965793632747146862 && bracket_width(13) == 66);
    assert(bracketed(14) && bracket_low(14) == 235513359978550314161828 && bracket_width(14) == 79);
    assert(bracketed(15) && bracket_low(15) == 280550631174903867569338 && bracket_width(15) == 94);
    assert(bracketed(16) && bracket_low(16) == 333244238474637525056125 && bracket_width(16) == 111);
    assert(bracketed(17) && bracket_low(17) == 394895759015325904315666 && bracket_width(17) == 131);
    assert(bracketed(18) && bracket_low(18) == 467028038047931308049329 && bracket_width(18) == 155);
    assert(bracketed(19) && bracket_low(19) == 551422804516079630417714 && bracket_width(19) == 183);
    assert(bracketed(20) && bracket_low(20) == 650164681283813167588725 && bracket_width(20) == 216);
    assert(bracketed(21) && bracket_low(21) == 765692677102061406078808 && bracket_width(21) == 254);
    assert(bracketed(22) && bracket_low(22) == 900860432209411845112205 && bracket_width(22) == 299);
}

proof fn lemma_bracketed_23()
    requires
        bracket_low(22) == 900860432209411845112205,
        bracket_width(22) == 299,
    ensures
        bracket_low(33) == 5202429038147456168035816,
        bracket_width(33) == 1723,
        bracketed(23),
        bracketed(24),
        bracketed(25),
        bracketed(26),
        bracketed(27),
        bracketed(28),
        bracketed(29),
        bracketed(30),
        bracketed(31),
        bracketed(32),
        bracketed(33),
{
    reveal(bracketed);
    assert(bracketed(23) && bracket_low(23) == 1059006705685011858781279 && bracket_width(23) == 351);
    assert(bracketed(24) && bracket_low(24) == 1244037845651463874774096 && bracket_width(24) == 412);
    assert(bracketed(25) && bracket_low(25) == 1460524279412212733485692 && bracket_width(25) == 484);
    assert(bracketed(26) && bracket_low(26) == 1713813406912288898178259 && bracket_width(26) == 568);
    assert(bracketed(27) && bracket_low(27) == 2010161686087378010868563 && bracket_width(27) == 666);
    assert(bracketed(28) && bracket_low(28) == 2356889172722232272716218 && bracket_width(28) == 781);
    assert(bracketed(29) && bracket_low(29) == 2762560332085011759077975 && bracket_width(29) == 915);
    assert(bracketed(30) && bracket_low(30) == 3237195588539463758121230 && bracket_width(30) == 1072);
    assert(bracketed(31) && bracket_low(31) == 3792518838591172597001839 && bracket_width(31) == 1256);
    assert(bracketed(32) && bracket_low(32) == 4442247041151671938492151 && bracket_width(32) == 1471);
    assert(bracketed(33) && bracket_low(33) == 5202429038147456168035816 && bracket_width(33) == 1723);
}

proof fn lemma_bracketed_34()
    requires
        bracket_low(33) == 5202429038147456168035816,
        bracket_width(33) == 1723,
    ensures
        bracket_low(44) == 29394404487316786384967255,
        bracket_width(44) == 9725,
        bracketed(34),
        bracketed(35),
        bracketed(36),
        bracketed(37),
        bracketed(38),
        bracketed(39),
        bracketed(40),
        bracketed(41),
        bracketed(42),
        bracketed(43),
        bracketed(44),
{
    reveal(bracketed);
    assert(bracketed(34) && bracket_low(34) == 6091841974632523716601904 && bracket_width(34) == 2017);
    assert(bracketed(35) && bracket_low(35) == 7132455110320052748424227 && bracket_width(35) == 2361);
    assert(bracketed(36) && bracket_low(36) == 8349972479074461715656345 && bracket_width(36) == 2764);
    assert(bracketed(37) && bracket_low(37) == 9774467800517120207317923 && bracket_width(37) == 3235);
    assert(bracketed(38) && bracket_low(38) == 11441127326605030642561969 && bracket_width(38) == 3786);
    assert(bracketed(39) && bracket_low(39) == 13391118972127885851797503 && bracket_width(39) == 4431);
    assert(bracketed(40) && bracket_low(40) == 15672609197389626446603078 && bracket_width(40) == 5186);
    assert(bracketed(41) && bracket_low(41) == 18341952760945862942525601 && bracket_width(41) == 6069);
    assert(bracketed(42) && bracket_low(42) == 21465084730306659642754953 && bracket_width(42) == 7102);
    assert(bracketed(43) && bracket_low(43) == 25119149134458791782023295 && bracket_width(43) == 8311);
    assert(bracketed(44) && bracket_low(44) == 29394404487316786384967255 && bracket_width(44) == 9725);
}

proof fn lemma_bracketed_45()
    requires
        bracket_low(44) == 29394404487316786384967255,
        bracket_width(44) == 9725,
    ensures
        bracket_low(55) == 165449813513063479657324271,
        bracket_width(55) == 54734,
        bracketed(45),
        bracketed(46),
        bracketed(47),
        bracketed(48),
        bracketed(49),
        bracketed(50),
        bracketed(51),
        bracketed(52),
        bracketed(53),
        bracketed(54),
        bracketed(55),
{
    reveal(bracketed);
    assert(bracketed(45) && bracket_low(45) == 34396453250160640070411688 && bracket_width(45) == 11380);
    assert(bracketed(46) && bracket_low(46) == 40248850302687948882381674 && bracket_width(46) == 13316);
    assert(bracketed(47) && bracket_low(47) == 47096154854144900192386558 && bracket_width(47) == 15581);
    assert(bracketed(48) && bracket_low(48) == 55107501179349533225092272 && bracket_width(48) == 18231);
    assert(bracketed(49) && bracket_low(49) == 64480776379838953873357958 && bracket_width(49) == 21332);
    assert(bracketed(50) && bracket_low(50) == 75447508364411576031828810 && bracket_width(50) == 24960);
    assert(bracketed(51) && bracket_low(51) == 88278584786361543957239707 && bracket_width(51) == 29205);
    assert(bracketed(52) && bracket_low(52) == 103290944200043006429970457 && bracket_width(52) == 34171);
    assert(bracketed(53) && bracket_low(53) == 120855404714050317523065434 && bracket_width(53) == 39982);
    assert(bracketed(54) && bracket_low(54) == 141405823515438871501986557 && bracket_width(54) == 46780);
    assert(bracketed(55) && bracket_low(55) == 165449813513063479657324271 && bracket_width(55) == 54734);
}

proof fn lemma_bracketed_56()
    requires
        bracket_low(55) == 165449813513063479657324271,
        bracket_width(55) == 54734,
    ensures
        bracket_low(66) == 930623966572930354461505108,
        bracket_width(66) == 307860,
        bracketed(56),
        bracketed(57),
        bracketed(58),
        bracketed(59),
        bracketed(60),
        bracketed(61),
        bracketed(62),
        bracketed(63),
        bracketed(64),
        bracketed(65),
        bracketed(66),
{
    reveal(bracketed);
    assert(bracketed(56) && bracket_low(56) == 193581281810284271199069397 && bracket_width(56) == 64040);
    assert(bracketed(57) && bracket_low(57) == 226495099718032597302911194 && bracket_width(57) == 74928);
    assert(bracketed(58) && bracket_low(58) == 265004266670098138844406096 && bracket_width(58) == 87667);
    assert(bracketed(59) && bracket_low(59) == 310059992004014822447955132 && bracket_width(59) == 102572);
    assert(bracketed(60) && bracket_low(60) == 362775190644697342264107504 && bracket_width(60) == 120011);
    assert(bracketed(61) && bracket_low(61) == 424451973054295890449005779 && bracket_width(61) == 140414);
    assert(bracketed(62) && bracket_low(62) == 496613808473526191825336761 && bracket_width(62) == 164286);
    assert(bracketed(63) && bracket_low(63) == 581043155914025644435644010 && bracket_width(63) == 192216);
    assert(bracketed(64) && bracket_low(64) == 679825492419410003989703491 && bracket_width(64) == 224894);
    assert(bracketed(65) && bracket_low(65) == 795400826130709704667953084 && bracket_width(65) == 263127);
    assert(bracketed(66) && bracket_low(66) == 930623966572930354461505108 && bracket_width(66) == 307860);
}

proof fn lemma_bracketed_67()
    requires
        bracket_low(66) == 930623966572930354461505108,
        bracket_width(66) == 307860,
    ensures
        bracket_low(77) == 5233955151297001349560398079,
        bracket_width(77) == 1731444,
        bracketed(67),
        bracketed(68),
        bracketed(69),
        bracketed(70),
        bracketed(71),
        bracketed(72),
        bracketed(73),
        bracketed(74),
        bracketed(75),
        bracketed(76),
        bracketed(77),
{
    reveal(bracketed);
    assert(bracketed(67) && bracket_low(67) == 1088835040890328514719960976 && bracket_width(67) == 360198);
    assert(bracketed(68) && bracket_low(68) == 1273941997841684362222354341 && bracket_width(68) == 421433);
    assert(bracketed(69) && bracket_low(69) == 1490517137474770703800154578 && bracket_width(69) == 493078);
    assert(bracketed(70) && bracket_low(70) == 1743910050845481723446180856 && bracket_width(70) == 576903);
    assert(bracketed(71) && bracket_low(71) == 2040379759489213616432031601 && bracket_width(71) == 674978);
    assert(bracketed(72) && bracket_low(72) == 2387249318602379931225476973 && bracket_width(72) == 789726);
    assert(bracketed(73) && bracket_low(73) == 2793086702764784519533808058 && bracket_width(73) == 923981);
    assert(bracketed(74) && bracket_low(74) == 3267916442234797887854555427 && bracket_width(74) == 1081059);
    assert(bracketed(75) && bracket_low(75) == 3823467237414713528789829849 && bracket_width(75) == 1264841);
    assert(bracketed(76) && bracket_low(76) == 4473461667775214828684100923 && bracket_width(76) == 1479865);
    assert(bracketed(77) && bracket_low(77) == 5233955151297001349560398079 && bracket_width(77) == 1731444);
}

proof fn lemma_bracketed_78()
    requires
        bracket_low(77) == 5233955151297001349560398079,
        bracket_width(77) == 1731444,
    ensures
        bracket_low(88) == 29435843324550267305747623420,
        bracket_width(88) == 9737667,
        bracketed(78),
        bracketed(79),
        bracketed(80),
        bracketed(81),
        bracketed(82),
        bracketed(83),
        bracketed(84),
        bracketed(85),
        bracketed(86),
        bracketed(87),
        bracketed(88),
{
    reveal(bracketed);
    assert(bracketed(78) && bracket_low(78) == 6123732527017491578985665752 && bracket_width(78) == 2025791);
    assert(bracketed(79) && bracket_low(79) == 7164772056610465147413228929 && bracket_width(79) == 2370177);
    assert(bracketed(80) && bracket_low(80) == 8382788306234244222473477846 && bracket_width(80) == 2773109);
    assert(bracketed(81) && bracket_low(81) == 9807867318294065740293969079 && bracket_width(81) == 3244539);
    assert(bracketed(82) && bracket_low(82) == 11475209762404056916143943822 && bracket_width(82) == 3796112);
    assert(bracketed(83) && bracket_low(83) == 13426000422012746591888414271 && bracket_width(83) == 4441453);
    assert(bracketed(84) && bracket_low(84) == 15708425493754913512509444697 && bracket_width(84) == 5196502);
    assert(bracketed(85) && bracket_low(85) == 18378862827693248809636050295 && bracket_width(85) == 6079909);
    assert(bracketed(86) && bracket_low(86) == 21503274508401101107274178845 && bracket_width(86) == 7113495);
    assert(bracketed(87) && bracket_low(87) == 25158836174829288295510789248 && bracket_width(87) == 8322791);
    assert(bracketed(88) && bracket_low(88) == 29435843324550267305747623420 && bracket_width(88) == 9737667);
}

proof fn lemma_bracketed_89()
    requires
        bracket_low(88) == 29435843324550267305747623420,
        bracket_width(88) == 9737667,
    ensures
        bracketed(89),
        bracketed(90),
        bracketed(91),
        bracketed(92),
        bracketed(93),
        bracketed(94),
        bracketed(95),
        bracketed(96),
        bracketed(97),
        bracketed(98),
        bracketed(99),
{
    reveal(bracketed);
    assert(bracketed(89) && bracket_low(89) == 34439941689723812747724719401 && bracket_width(89) == 11393072);
    assert(bracketed(90) && bracket_low(90) == 40294736776976860914837921699 && bracket_width(90) == 13329896);
    assert(bracketed(91) && bracket_low(91) == 47144847029062927270360368387 && bracket_width(91) == 15595980);
    assert(bracketed(92) && bracket_low(92) == 55159476024003624906321631012 && bracket_width(92) == 18247298);
    assert(bracketed(93) && bracket_low(93) == 64536591948084241140396308284 && bracket_width(93) == 21349340);
    assert(bracketed(94) && bracket_low(94) == 75507817579258562134263680692 && bracket_width(94) == 24978729);
    assert(bracketed(95) && bracket_low(95) == 88344151567732517697088506409 && bracket_width(95) == 29225114);
    assert(bracketed(96) && bracket_low(96) == 103362662334247045705593552498 && bracket_width(96) == 34193385);
    assert(bracketed(97) && bracket_low(97) == 120934319931069043475544456422 && bracket_width(97) == 40006262);
    assert(bracketed(98) && bracket_low(98) == 141493159319350780866387014013 && bracket_width(98) == 46807328);
    assert(bracketed(99) && bracket_low(99) == 165547001403640413613672806395 && bracket_width(99) == 54764575);
}

/// The threshold of each level up to the highest one lies in its bracket.
proof fn lemma_all_bracketed(level: int)
    requires
        1 <= level <= XP_MAX_LEVEL,
    ensures
        bracketed(level),
{
    lemma_bracketed_1();
    lemma_bracketed_12();
    lemma_bracketed_23();
    lemma_bracketed_34();
    lemma_bracketed_45();
    lemma_bracketed_56();
    lemma_bracketed_67();
    lemma_bracketed_78();
    lemma_bracketed_89();
}

/// The experience needed for each level up to the highest one is
/// `50 * (1.17^(level - 1) - 1) / 0.17`, rounded down.
pub proof fn law_threshold_on_curve(level: int)
    requires
        1 <= level <= XP_MAX_LEVEL,
    ensures
        on_curve(level),
{
    lemma_all_bracketed(level);
    reveal(bracketed);
    let n = (level - 1) as nat;
    lemma_bracket(n);
    let (t, lo, wd, den, num) = (
        xp_threshold(level) as int,
        bracket_low(n) as int,
        bracket_width(n) as int,
        curve_den(n) as int,
        curve_num(n) as int,
    );
    assert(den * t <= num) by (nonlinear_arith)
        requires
            SCALE * t <= lo,
            lo * den <= SCALE * num,
            den >= 1,
    ;
    assert(num < den * (t + 1)) by (nonlinear_arith)
        requires
            lo + wd < SCALE * (t + 1),
            SCALE * num <= (lo + wd) * den,
            den >= 1,
    ;
}

} // verus!
