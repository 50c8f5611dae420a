//! What grows again: after a tick nothing is left that was due.

use vstd::prelude::*;
use crate::cells::{lemma_attack, lemma_pick_up, lemma_request_trade};
use crate::defs::{rocks_table, trees_table};
use crate::footing::law_acting_moves_nobody;
use crate::sim::{lemma_cell, SimV};
use crate::types::{Intent, Obj, TPS};

verus! {

/// Whether the time of an object has come: a stump or an empty rock whose time is over, or a
/// bush with less than three berries whose time is.
pub open spec fn overdue(o: Obj, now: u64) -> bool {
    match o {
        Obj::Stump { tier, regrow } => regrow <= now,
        Obj::DepletedRock { tier, regrow } => regrow <= now,
        Obj::Bush { berries, regrow } => berries < 3 && regrow <= now,
        _ => false,
    }
}

/// Nothing in a world is overdue.
pub open spec fn nothing_overdue(s: SimV) -> bool {
    forall|k: int| 0 <= k < s.objects.len() ==> !overdue(#[trigger] s.objects[k], s.tick)
}

/// What was due has grown: a stump is a tree and an empty rock a rock, of the same tier and
/// with all the hit points of its row, and a bush has one more berry and eight seconds to go.
/// Everything else is as it was, and exactly the cells that changed are newly listed.
pub proof fn law_what_is_due_grows(s: SimV, k: int)
    requires
        0 <= k < s.objects.len(),
        s.tick < 0xffff_ffff_0000_0000,
    ensures
        ({
            let (o, n) = (s.objects[k], s.grown().objects[k]);
            &&& s.grown().objects.len() == s.objects.len()
            &&& !overdue(o, s.tick) ==> n == o
            &&& overdue(o, s.tick) ==> match o {
                Obj::Stump { tier, regrow } => n matches Obj::Tree { tier: t, hp } && t == tier
                    && forall|j: int|
                    0 <= j < 4 && (#[trigger] trees_table()[j]).tier == tier ==> hp
                        == trees_table()[j].hp,
                Obj::DepletedRock { tier, regrow } => n matches Obj::Rock { tier: t, hp } && t
                    == tier && forall|j: int|
                    0 <= j < 4 && (#[trigger] rocks_table()[j]).tier == tier ==> hp
                        == rocks_table()[j].hp,
                Obj::Bush { berries, regrow } => n matches Obj::Bush { berries: b, regrow: r } && b
                    == berries + 1 && r == s.tick + 8 * TPS,
                _ => false,
            }
        }),
{
    assert forall|j: int| 0 <= j < 4 implies (#[trigger] trees_table()[j]).tier == j + 1 by {
        assert(j == 0 || j == 1 || j == 2 || j == 3);
    }
    assert forall|j: int| 0 <= j < 4 implies (#[trigger] rocks_table()[j]).tier == j + 1 by {
        assert(j == 0 || j == 1 || j == 2 || j == 3);
    }
}

/// After growing nothing is overdue.
pub proof fn law_growth_leaves_nothing_due(s: SimV)
    requires
        s.tick < 0xffff_ffff_0000_0000,
    ensures
        nothing_overdue(s.grown()),
        s.grown().tick == s.tick,
{
    assert forall|k: int| 0 <= k < s.objects.len() implies !overdue(
        #[trigger] s.grown().objects[k],
        s.tick,
    ) by {
        law_what_is_due_grows(s, k);
    }
}

proof fn lemma_with_obj_not_due(s: SimV, t: (i32, i32), o: Obj, r: SimV)
    requires
        nothing_overdue(s),
        s.grid_ok(),
        s.in_b(t.0, t.1),
        !overdue(o, s.tick),
        r.tick == s.tick,
        r.objects == s.objects.update(s.cell(t.0, t.1), o),
    ensures
        nothing_overdue(r),
{
    lemma_cell(s, t.0, t.1);
    assert forall|k: int| 0 <= k < r.objects.len() implies !overdue(
        #[trigger] r.objects[k],
        r.tick,
    ) by {
        if k != s.cell(t.0, t.1) {
            assert(r.objects[k] == s.objects[k]);
        }
    }
}

/// What a player's turn uses up is not due at once.
pub proof fn law_turns_leave_nothing_due(s: SimV, pid: u16)
    requires
        s.wf(),
        s.has(pid),
        s.players.slots.len() <= 0x1_0000,
        s.tick < 0xffff_ffff_0000_0000,
        nothing_overdue(s),
    ensures
        nothing_overdue(s.player_turn(pid)),
        s.player_turn(pid).tick == s.tick,
{
    let p = s.p(pid);
    assert(p.ok(s.w, s.h, s.players.slots.len()));
    if let Some(t) = s.bound_for(pid) {
        if p.alive && s.way(pid, t).reached((p.x as i32, p.y as i32)) {
            let r = s.acted(pid, t);
            law_acting_moves_nobody(s, pid, t);
            match p.intent {
                Intent::Chop => lemma_chop_not_due(s, pid, t),
                Intent::Mine => lemma_mine_not_due(s, pid, t),
                Intent::Pick => lemma_pick_not_due(s, pid, t),
                Intent::Pickup => {
                    let ids = s.stacks_on(t.0, t.1);
                    lemma_pick_up(s.rest(pid), pid, ids, ids.len() as int);
                },
                Intent::Attack { mid } => lemma_attack(s, pid, mid as u16),
                Intent::Trade { pid: other } => lemma_request_trade(s, pid, other as u16),
                _ => {},
            }
        }
    }
}

proof fn lemma_chop_not_due(s: SimV, pid: u16, t: (i32, i32))
    requires
        s.grid_ok(),
        s.in_b(t.0, t.1),
        s.tick < 0xffff_ffff_0000_0000,
        nothing_overdue(s),
    ensures
        nothing_overdue(s.chop(pid, t)),
{
    let r = s.chop(pid, t);
    let o = r.obj_at(t.0, t.1);
    lemma_cell(s, t.0, t.1);
    if r.objects != s.objects {
        lemma_with_obj_not_due(s, t, o, r);
    }
}

proof fn lemma_mine_not_due(s: SimV, pid: u16, t: (i32, i32))
    requires
        s.grid_ok(),
        s.in_b(t.0, t.1),
        s.tick < 0xffff_ffff_0000_0000,
        nothing_overdue(s),
    ensures
        nothing_overdue(s.mine(pid, t)),
{
    let r = s.mine(pid, t);
    let o = r.obj_at(t.0, t.1);
    lemma_cell(s, t.0, t.1);
    if r.objects != s.objects {
        lemma_with_obj_not_due(s, t, o, r);
    }
}

proof fn lemma_pick_not_due(s: SimV, pid: u16, t: (i32, i32))
    requires
        s.grid_ok(),
        s.in_b(t.0, t.1),
        s.tick < 0xffff_ffff_0000_0000,
        nothing_overdue(s),
    ensures
        nothing_overdue(s.pick(pid, t)),
{
    let r = s.pick(pid, t);
    let o = r.obj_at(t.0, t.1);
    lemma_cell(s, t.0, t.1);
    if r.objects != s.objects {
        lemma_with_obj_not_due(s, t, o, r);
    }
}

} // verus!
