//! Where players and creatures may stand: nobody steps into water, onto an object or onto
//! another, and everybody comes nearer where there is a way.

use vstd::prelude::*;
use crate::combat::{drops_from, NOBODY};
use crate::defs::{mob_kind, mob_of, ToolDef};
use crate::path::{law_route_exists, law_route_is_walkable, moved, GoalKind, Trip};
use crate::pools::MobV;
use crate::search::lemma_first_at;
use crate::sim::{chebyshev_of, lemma_cell, mob_at, player_at, SimV};
use crate::types::{Intent, Obj, Tile, TPS};

verus! {

/// Whether a cell has firm ground: it lies on the map, is no water, and nothing is built or
/// grows there.
pub open spec fn firm(s: SimV, x: int, y: int) -> bool {
    &&& 0 <= x < s.w
    &&& 0 <= y < s.h
    &&& s.tiles[y * s.w + x] != Tile::Water
    &&& s.objects[y * s.w + x] == Obj::Empty
}

/// Whether no creature that is up stands on a cell.
pub open spec fn no_creature(s: SimV, x: i16, y: i16) -> bool {
    forall|k: int|
        0 <= k < s.mobs.slots.len() && (#[trigger] s.mobs.slots[k]).alive
            && s.mobs.slots[k].respawn_at == 0 ==> (s.mobs.slots[k].x, s.mobs.slots[k].y) != (x, y)
}

/// Whether no live player stands on a cell.
pub open spec fn no_player(s: SimV, x: i16, y: i16) -> bool {
    forall|k: int|
        0 <= k < s.players.slots.len() && (#[trigger] s.players.slots[k]).alive ==> (
            s.players.slots[k].x,
            s.players.slots[k].y,
        ) != (x, y)
}

/// A cell is open exactly where its ground is firm, no creature that is up stands there, and
/// the first live player there, if any, is the one to ignore.
pub proof fn law_open_cells(s: SimV, x: i32, y: i32, ignore_pid: i32)
    requires
        s.grid_ok(),
        s.players.slots.len() <= 0x1_0000,
    ensures
        s.open_to(x, y, ignore_pid) ==> firm(s, x as int, y as int) && no_creature(
            s,
            x as i16,
            y as i16,
        ),
        s.open_to(x, y, ignore_pid) && !(0 <= ignore_pid < s.players.slots.len()
            && s.players.slots[ignore_pid as int].alive && (
        s.players.slots[ignore_pid as int].x, s.players.slots[ignore_pid as int].y) == (
        x as i16, y as i16)) ==> no_player(s, x as i16, y as i16),
        firm(s, x as int, y as int) && no_creature(s, x as i16, y as i16) && no_player(
            s,
            x as i16,
            y as i16,
        ) ==> s.open_to(x, y, ignore_pid),
{
    if s.in_b(x, y) {
        lemma_cell(s, x, y);
    }
    let (ps, ms) = (s.players.slots, s.mobs.slots);
    lemma_first_at(ps, player_at(x, y), 0);
    lemma_first_at(ms, mob_at(x, y), 0);
    if s.open_to(x, y, ignore_pid) {
        assert forall|k: int| 0 <= k < ms.len() && (#[trigger] ms[k]).alive && ms[k].respawn_at
            == 0 implies (ms[k].x, ms[k].y) != (x as i16, y as i16) by {
            assert(!mob_at(x, y)(ms[k]));
        }
        if s.player_on(x, y) is None {
            assert forall|k: int| 0 <= k < ps.len() && (#[trigger] ps[k]).alive implies (
            ps[k].x, ps[k].y) != (x as i16, y as i16) by {
                assert(!player_at(x, y)(ps[k]));
            }
        }
    }
}

/// The distance in steps is the greater of the distances along the axes.
pub proof fn law_next_to(a: (i32, i32), b: (i32, i32))
    requires
        -0x8000 <= a.0 < 0x8000,
        -0x8000 <= a.1 < 0x8000,
        -0x8000 <= b.0 < 0x8000,
        -0x8000 <= b.1 < 0x8000,
    ensures
        chebyshev_of(a, b) == 1 <==> a != b && -1 <= a.0 - b.0 <= 1 && -1 <= a.1 - b.1 <= 1,
{
}

proof fn lemma_step(t: Trip, p: (i32, i32), d: int)
    requires
        t.s.grid_ok(),
        t.s.players.slots.len() <= 0x1_0000,
        -0x8000 <= p.0 < 0x8000,
        -0x8000 <= p.1 < 0x8000,
        t.step(p, d),
    ensures
        ({
            let n = moved(p, d);
            &&& -1 <= n.0 - p.0 <= 1
            &&& -1 <= n.1 - p.1 <= 1
            &&& n != p
            &&& firm(t.s, n.0 as int, n.1 as int)
            &&& no_creature(t.s, n.0 as i16, n.1 as i16)
            &&& n.0 != p.0 && n.1 != p.1 ==> firm(t.s, n.0 as int, p.1 as int) && firm(
                t.s,
                p.0 as int,
                n.1 as int,
            ) && no_creature(t.s, n.0 as i16, p.1 as i16) && no_creature(
                t.s,
                p.0 as i16,
                n.1 as i16,
            )
        }),
{
    let n = moved(p, d);
    law_open_cells(t.s, n.0, n.1, t.ignore_pid);
    law_open_cells(t.s, n.0, p.1, t.ignore_pid);
    law_open_cells(t.s, p.0, n.1, t.ignore_pid);
}

/// A step along an axis can be taken wherever the next cell has firm ground and nobody on it,
/// a diagonal one where the two cells beside it have too.
pub proof fn law_free_steps_are_allowed(t: Trip, p: (i32, i32), d: int)
    requires
        t.s.grid_ok(),
        t.s.players.slots.len() <= 0x1_0000,
        0 <= d < 8,
        -0x8000 <= p.0 < 0x7fff,
        -0x8000 <= p.1 < 0x7fff,
        ({
            let n = moved(p, d);
            &&& firm(t.s, n.0 as int, n.1 as int)
            &&& no_creature(t.s, n.0 as i16, n.1 as i16)
            &&& no_player(t.s, n.0 as i16, n.1 as i16)
            &&& n.0 != p.0 && n.1 != p.1 ==> {
                &&& firm(t.s, n.0 as int, p.1 as int)
                &&& firm(t.s, p.0 as int, n.1 as int)
                &&& no_creature(t.s, n.0 as i16, p.1 as i16)
                &&& no_creature(t.s, p.0 as i16, n.1 as i16)
                &&& no_player(t.s, n.0 as i16, p.1 as i16)
                &&& no_player(t.s, p.0 as i16, n.1 as i16)
            }
        }),
    ensures
        t.step(p, d) || t.goal == GoalKind::Adjacent(moved(p, d)),
{
    let n = moved(p, d);
    law_open_cells(t.s, n.0, n.1, t.ignore_pid);
    law_open_cells(t.s, n.0, p.1, t.ignore_pid);
    law_open_cells(t.s, p.0, n.1, t.ignore_pid);
}

/// A walk without its first step, from the cell to which that step leads.
proof fn lemma_rest_of_walk(t: Trip, w: Seq<int>)
    requires
        w.len() > 0,
    ensures
        ({
            let u = Trip { from: moved(t.from, w[0]), ..t };
            &&& u.end(w.skip(1)) == t.end(w)
            &&& t.legal(w) ==> u.legal(w.skip(1)) && t.step(t.from, w[0])
        }),
    decreases w.len(),
{
    let u = Trip { from: moved(t.from, w[0]), ..t };
    if w.len() == 1 {
        assert(w.drop_last() =~= Seq::<int>::empty());
        assert(w.skip(1) =~= Seq::<int>::empty());
        reveal_with_fuel(Trip::end, 2);
        reveal_with_fuel(Trip::legal, 2);
    } else {
        lemma_rest_of_walk(t, w.drop_last());
        assert(w.drop_last().skip(1) =~= w.skip(1).drop_last());
        assert(w.skip(1).last() == w.last());
        assert(w.drop_last()[0] == w[0]);
    }
}

/// The first cell of a route is one step nearer: from there on a shorter walk arrives than any
/// that arrives from the start.
pub proof fn lemma_route_comes_nearer(t: Trip, walk: Seq<int>)
    requires
        t.arrives(walk),
        !t.reached(t.from),
    ensures
        t.route() is Some,
        t.route().unwrap().len() > 0,
        exists|v: Seq<int>| #[trigger]
            (Trip { from: t.route().unwrap()[0], ..t }).arrives(v) && v.len() < walk.len(),
{
    law_route_exists(t, walk);
    let w = t.best_walk().unwrap();
    assert(t.is_best(w));
    assert(t.arrives(walk));
    assert(w.len() <= walk.len());
    if w.len() == 0 {
        assert(w =~= Seq::<int>::empty());
        assert(t.end(w) == t.from);
    }
    lemma_rest_of_walk(t, w);
    let u = Trip { from: moved(t.from, w[0]), ..t };
    assert(w.take(1).drop_last() =~= Seq::<int>::empty());
    assert(t.end(Seq::<int>::empty()) == t.from);
    assert(t.route().unwrap()[0] == t.end(w.take(1)));
    assert(t.end(w.take(1)) == moved(t.from, w[0]));
    assert(u.arrives(w.skip(1)));
}

proof fn lemma_first_cell(t: Trip)
    requires
        t.s.grid_ok(),
        t.s.players.slots.len() <= 0x1_0000,
        -0x8000 <= t.from.0 < 0x8000,
        -0x8000 <= t.from.1 < 0x8000,
        t.route() is Some,
        t.route().unwrap().len() > 0,
    ensures
        exists|d: int| #[trigger]
            t.step(t.from, d) && t.route().unwrap()[0] == moved(t.from, d),
{
    law_route_is_walkable(t, 0);
}

/// What a player's move onto another cell needs: it leads to the next cell, over firm ground,
/// past no corner, and onto nobody.
pub open spec fn good_move(s: SimV, from: (i16, i16), to: (i16, i16)) -> bool {
    &&& no_creature(s, to.0, to.1)
    &&& no_player(s, to.0, to.1)
    &&& s.w <= 0x8000 && s.h <= 0x8000 ==> {
        &&& -1 <= to.0 - from.0 <= 1
        &&& -1 <= to.1 - from.1 <= 1
        &&& firm(s, to.0 as int, to.1 as int)
        &&& to.0 != from.0 && to.1 != from.1 ==> firm(s, to.0 as int, from.1 as int) && firm(
            s,
            from.0 as int,
            to.1 as int,
        ) && no_creature(s, to.0, from.1) && no_creature(s, from.0, to.1)
    }
}

proof fn lemma_good_move(t: Trip, from: (i16, i16), pid: int)
    requires
        t.s.grid_ok(),
        t.s.players.slots.len() <= 0x1_0000,
        t.from == (from.0 as i32, from.1 as i32),
        t.ignore_pid == pid || t.ignore_pid < 0,
        0 <= t.ignore_pid < t.s.players.slots.len() ==> t.s.players.slots[t.ignore_pid as int].x
            == from.0 && t.s.players.slots[t.ignore_pid as int].y == from.1,
        t.route() is Some,
        t.route().unwrap().len() > 0,
    ensures
        ({
            let c = t.route().unwrap()[0];
            (c.0 as i16, c.1 as i16) != from ==> good_move(t.s, from, (c.0 as i16, c.1 as i16))
        }),
{
    lemma_first_cell(t);
    let d = choose|d: int| #[trigger]
        t.step(t.from, d) && t.route().unwrap()[0] == moved(t.from, d);
    let c = t.route().unwrap()[0];
    lemma_step(t, t.from, d);
    law_open_cells(t.s, c.0, c.1, t.ignore_pid);
}

/// Whether everybody stands in one world where it stands in another, on the same ground and
/// at the same time, and the chat that all see is the same.
pub open spec fn same_stands(a: SimV, b: SimV) -> bool {
    &&& (a.w, a.h, a.tick, a.player_spawn) == (b.w, b.h, b.tick, b.player_spawn)
    &&& a.tiles == b.tiles
    &&& a.chat == b.chat
    &&& a.players.slots.len() == b.players.slots.len()
    &&& forall|k: int|
        0 <= k < a.players.slots.len() ==> {
            let (p, q) = (#[trigger] a.players.slots[k], b.players.slots[k]);
            (p.x, p.y, p.alive) == (q.x, q.y, q.alive)
        }
    &&& a.mobs.slots.len() == b.mobs.slots.len()
    &&& forall|k: int|
        0 <= k < a.mobs.slots.len() ==> {
            let (p, q) = (#[trigger] a.mobs.slots[k], b.mobs.slots[k]);
            (p.x, p.y, p.alive) == (q.x, q.y, q.alive)
        }
}

proof fn lemma_pick_up_stays(s: SimV, pid: u16, ids: Seq<u16>, n: int)
    requires
        s.has(pid),
    ensures
        same_stands(s.pick_up(pid, ids, n).0, s),
    decreases n,
{
    if n > 0 {
        lemma_pick_up_stays(s, pid, ids, n - 1);
    }
}

proof fn lemma_spilled_stays(
    s: SimV,
    pid: u16,
    kind: Seq<char>,
    x: i32,
    y: i32,
    drops: Seq<ToolDef>,
    n: int,
)
    requires
        s.has(pid),
    ensures
        same_stands(s.spilled(pid, kind, x, y, drops, n), s),
    decreases n,
{
    if n > 0 {
        lemma_spilled_stays(s, pid, kind, x, y, drops, n - 1);
    }
}

proof fn lemma_slain_stays(s: SimV, pid: u16, mid: u16)
    requires
        s.has(pid),
        mid < s.mobs.slots.len(),
    ensures
        same_stands(s.slain(pid, mid), s),
{
    let m = s.m(mid);
    let kind = mob_kind(m.kind_id);
    let def = mob_of(kind);
    let (drops, rng) = drops_from(s.rng, def.tier as int, 0);
    let t = SimV {
        rng,
        ..s.put(pid, s.p(pid).said("You kill the "@ + kind + "!"@).idle())
    }.put_mob(mid, MobV { respawn_at: s.tick.wrapping_add((20 * TPS) as u64), ..m }).dropped(
        m.x as i32,
        m.y as i32,
        "coins"@,
        def.coin,
    );
    lemma_spilled_stays(t, pid, kind, m.x as i32, m.y as i32, drops, drops.len() as int);
}

proof fn lemma_attack_stays(s: SimV, pid: u16, mid: u16)
    requires
        s.has(pid),
    ensures
        same_stands(s.attack(pid, mid), s),
{
    assert forall|t: SimV|
        t.has(pid) && mid < t.mobs.slots.len() implies same_stands(#[trigger] t.slain(pid, mid), t) by {
        lemma_slain_stays(t, pid, mid);
    }
}

proof fn lemma_chop_stays(s: SimV, pid: u16, t: (i32, i32))
    requires
        s.has(pid),
    ensures
        same_stands(s.chop(pid, t), s),
{
}

proof fn lemma_mine_stays(s: SimV, pid: u16, t: (i32, i32))
    requires
        s.has(pid),
    ensures
        same_stands(s.mine(pid, t), s),
{
}

proof fn lemma_fish_stays(s: SimV, pid: u16, t: (i32, i32))
    requires
        s.has(pid),
    ensures
        same_stands(s.fish(pid, t), s),
{
}

proof fn lemma_pick_stays(s: SimV, pid: u16, t: (i32, i32))
    requires
        s.has(pid),
    ensures
        same_stands(s.pick(pid, t), s),
{
}

proof fn lemma_cancel_stays(s: SimV, pid: u16, line: Seq<char>)
    requires
        s.has(pid),
        s.players.slots.len() <= 0x1_0000,
    ensures
        same_stands(s.cancel_trade(pid, line), s),
{
}

proof fn lemma_begin_stays(s: SimV, a: u16, b: u16)
    requires
        s.has(a),
        s.has(b),
        s.players.slots.len() <= 0x1_0000,
    ensures
        same_stands(s.begin_trade(a, b), s),
{
    let line = "Trade cancelled."@;
    lemma_cancel_stays(s, a, line);
    let u = s.cancel_trade(a, line);
    lemma_cancel_stays(u, b, line);
    let v = u.cancel_trade(b, line);
    let w = v.enter_trade(a, b, v.p(b).name);
    assert(same_stands(w, v));
    assert(same_stands(w.enter_trade(b, a, v.p(a).name), w));
}

proof fn lemma_request_stays(s: SimV, pid: u16, other: u16)
    requires
        s.has(pid),
        s.players.slots.len() <= 0x1_0000,
    ensures
        same_stands(s.request_trade(pid, other), s),
{
    if s.has(other) {
        lemma_begin_stays(s, pid, other);
    }
}

/// Whatever a player does where it has arrived, everybody stays where it is.
pub proof fn law_acting_moves_nobody(s: SimV, pid: u16, t: (i32, i32))
    requires
        s.has(pid),
        s.players.slots.len() <= 0x1_0000,
    ensures
        same_stands(s.acted(pid, t), s),
{
    match s.p(pid).intent {
        Intent::Pickup => {
            let ids = s.stacks_on(t.0, t.1);
            lemma_pick_up_stays(s.rest(pid), pid, ids, ids.len() as int);
        },
        Intent::Attack { mid } => lemma_attack_stays(s, pid, mid as u16),
        Intent::Chop => lemma_chop_stays(s, pid, t),
        Intent::Mine => lemma_mine_stays(s, pid, t),
        Intent::Fish => lemma_fish_stays(s, pid, t),
        Intent::Pick => lemma_pick_stays(s, pid, t),
        Intent::Trade { pid: other } => lemma_request_stays(s, pid, other as u16),
        _ => {},
    }
}

/// A player's turn takes it at most to the next cell, over firm ground, past no corner and
/// onto nobody. Everybody else stays where it is.
pub proof fn law_players_step_onto_free_cells(s: SimV, pid: u16)
    requires
        s.grid_ok(),
        s.players.slots.len() <= 0x1_0000,
        s.has(pid),
    ensures
        ({
            let t = s.player_turn(pid);
            let from = (s.p(pid).x, s.p(pid).y);
            let to = (t.p(pid).x, t.p(pid).y);
            &&& t.players.slots.len() == s.players.slots.len()
            &&& t.mobs.slots.len() == s.mobs.slots.len()
            &&& to != from ==> good_move(s, from, to) && t.mobs == s.mobs
            &&& forall|k: int|
                0 <= k < s.players.slots.len() && k != pid ==> {
                    let (p, q) = (s.players.slots[k], #[trigger] t.players.slots[k]);
                    (p.x, p.y, p.alive) == (q.x, q.y, q.alive)
                }
            &&& forall|k: int|
                0 <= k < s.mobs.slots.len() ==> {
                    let (p, q) = (s.mobs.slots[k], #[trigger] t.mobs.slots[k]);
                    (p.x, p.y, p.alive) == (q.x, q.y, q.alive)
                }
        }),
{
    let p = s.p(pid);
    if p.alive {
        if let Some(t) = s.bound_for(pid) {
            law_acting_moves_nobody(s, pid, t);
            let trip = s.way(pid, t);
            if trip.route() is Some && trip.route().unwrap().len() > 0 {
                lemma_good_move(trip, (p.x, p.y), pid as int);
            }
        }
    }
}

/// Whether a player is after a cell: the place of the creature or the player that it follows,
/// else its target.
pub open spec fn is_after(s: SimV, pid: u16, t: (i32, i32)) -> bool {
    match s.players.slots[pid as int].intent {
        Intent::Attack { mid } => {
            &&& mid < s.mobs.slots.len()
            &&& s.mobs.slots[mid as int].alive
            &&& s.mobs.slots[mid as int].respawn_at == 0
            &&& t == (s.mobs.slots[mid as int].x as i32, s.mobs.slots[mid as int].y as i32)
        },
        Intent::Trade { pid: other } => {
            &&& other < s.players.slots.len()
            &&& s.players.slots[other as int].alive
            &&& t == (s.players.slots[other as int].x as i32, s.players.slots[other as int].y as i32)
        },
        _ => s.players.slots[pid as int].target == Some(t),
    }
}

/// The trip of a player to a cell: onto it to walk there or to pick something up, next to it
/// for everything else.
pub open spec fn trip_to(s: SimV, pid: u16, t: (i32, i32)) -> Trip {
    let p = s.players.slots[pid as int];
    Trip {
        s,
        from: (p.x as i32, p.y as i32),
        goal: if p.intent == Intent::Idle || p.intent == Intent::Pickup {
            GoalKind::Step(t)
        } else {
            GoalKind::Adjacent(t)
        },
        ignore_pid: pid as i32,
    }
}

/// A player that is on its way comes nearer in every turn, as long as any way leads there: from
/// where it then stands a walk arrives that is shorter than any from where it stood. Without a
/// way it gives up and hears so. Once it is there it stays where it is.
pub proof fn law_players_come_nearer(s: SimV, pid: u16, t: (i32, i32), walk: Seq<int>)
    requires
        s.has(pid),
        s.players.slots.len() <= 0x1_0000,
        s.p(pid).alive,
        is_after(s, pid, t),
        s.w <= 0x8000,
        s.h <= 0x8000,
    ensures
        ({
            let trip = trip_to(s, pid, t);
            let q = s.player_turn(pid).p(pid);
            let p = s.p(pid);
            &&& trip.reached(trip.from) ==> (q.x, q.y) == (p.x, p.y)
            &&& !trip.reached(trip.from) && trip.arrives(walk) ==> exists|v: Seq<int>| #[trigger]
                (Trip { from: (q.x as i32, q.y as i32), ..trip }).arrives(v) && v.len()
                    < walk.len()
            &&& !trip.reached(trip.from) && (forall|v: Seq<int>| !#[trigger] trip.arrives(v)) ==> {
                &&& (q.x, q.y) == (p.x, p.y)
                &&& q.intent == Intent::Idle
                &&& q.target is None
                &&& q.log == p.log.push("Can't reach there."@)
            }
        }),
{
    let p = s.p(pid);
    let trip = trip_to(s, pid, t);
    assert(s.bound_for(pid) == Some(t));
    assert(trip == s.way(pid, t));
    if trip.reached(trip.from) {
        law_acting_moves_nobody(s, pid, t);
    } else if trip.arrives(walk) {
        lemma_route_comes_nearer(trip, walk);
        law_route_is_walkable(trip, 0);
        let c = trip.route().unwrap()[0];
        assert(s.in_b(c.0, c.1));
        let u = Trip { from: c, ..trip };
        let v = choose|v: Seq<int>| #[trigger] u.arrives(v) && v.len() < walk.len();
        assert((Trip { from: (c.0 as i16 as i32, c.1 as i16 as i32), ..trip }).arrives(v));
    } else if trip.route() is Some {
        assert(trip.is_best(trip.best_walk().unwrap()));
        assert(trip.arrives(trip.best_walk().unwrap()));
    }
}

/// A creature that is up moves at most to the next cell, over firm ground, past no corner and
/// onto nobody. All others stay where they are, but for a player that it kills.
pub proof fn law_creatures_step_onto_free_cells(s: SimV, mid: u16)
    requires
        s.grid_ok(),
        s.players.slots.len() <= 0x1_0000,
        mid < s.mobs.slots.len(),
        s.m(mid).alive,
        s.m(mid).respawn_at == 0,
    ensures
        ({
            let t = s.mob_turn(mid);
            let from = (s.m(mid).x, s.m(mid).y);
            let to = (t.m(mid).x, t.m(mid).y);
            &&& t.mobs.slots.len() == s.mobs.slots.len()
            &&& to != from ==> good_move(s, from, to) && t.players == s.players
            &&& forall|k: int|
                0 <= k < s.mobs.slots.len() && k != mid ==> #[trigger] t.mobs.slots[k]
                    == s.mobs.slots[k]
        }),
{
    let m = s.m(mid);
    if let Some(pid) = s.prey(mid, s.players.live().len() as int) {
        let trip = Trip {
            s,
            from: (m.x as i32, m.y as i32),
            goal: GoalKind::Adjacent((s.p(pid).x as i32, s.p(pid).y as i32)),
            ignore_pid: NOBODY,
        };
        if trip.route() is Some && trip.route().unwrap().len() > 0 {
            lemma_good_move(trip, (m.x, m.y), -1);
        }
    }
}

} // verus!
