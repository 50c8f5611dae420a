//! The pools of players, creatures and ground items. A pool keeps one array per
//! component; its view is the sequence of whole entities.

use vstd::prelude::*;
use crate::defs::{mob_def, mob_index, mob_kind_id, mob_of, MobDef};
use crate::inventory::{
    add_inv_into, added, count_of, deduct_coins, deduct_item_from, deducted, empty_slots, emptied,
    fits, paid, receive_items, received,
};
use crate::types::{
    chat_of, closed_ui, empty_inventory, free_slots, no_equipment, no_trade, slots_of,
    starter_skills, texts_of, ChatV, EquipV, SlotV, TradeV,
};
use crate::types::{ChatMsg, Equipment, InvSlot, Intent, Skills, TradeState, UiState};

verus! {

/// The live entities among the first `n`, as 16-bit numbers.
pub open spec fn live_below(alive: Seq<bool>, n: int) -> Seq<u16>
    decreases n,
{
    if n <= 0 {
        Seq::empty()
    } else if alive[n - 1] {
        live_below(alive, n - 1).push((n - 1) as u16)
    } else {
        live_below(alive, n - 1)
    }
}

/// The live entities, in order, as 16-bit numbers.
pub open spec fn live_ids(alive: Seq<bool>) -> Seq<u16> {
    live_below(alive, alive.len() as int)
}

fn collect_live(alive: &Vec<bool>) -> (r: Vec<u16>)
    ensures
        r@ == live_ids(alive@),
{
    let mut out: Vec<u16> = Vec::new();
    let mut i: usize = 0;
    while i < alive.len()
        invariant
            i <= alive.len(),
            out@ == live_below(alive@, i as int),
        decreases alive.len() - i,
    {
        if alive[i] {
            out.push(i as u16);
        }
        i = i + 1;
    }
    out
}

/// Each listed entity lies below the count.
pub proof fn lemma_live_below(alive: Seq<bool>, n: int)
    requires
        0 <= n <= alive.len(),
    ensures
        forall|k: int|
            0 <= k < live_below(alive, n).len() ==> (#[trigger] live_below(alive, n)[k]) < n,
    decreases n,
{
    if n > 0 {
        lemma_live_below(alive, n - 1);
        let last = (n - 1) as u16;
        assert(last < n);
        assert forall|k: int| 0 <= k < live_below(alive, n).len() implies (#[trigger] live_below(
            alive,
            n,
        )[k]) < n by {
            if k < live_below(alive, n - 1).len() {
                assert(live_below(alive, n)[k] == live_below(alive, n - 1)[k]);
            }
        }
    }
}

/// While there are at most 65536 entities, those listed are the live ones.
pub proof fn law_live_ids_are_live(alive: Seq<bool>, n: int)
    requires
        0 <= n <= alive.len(),
        n <= 0x1_0000,
    ensures
        forall|k: int|
            0 <= k < live_below(alive, n).len() ==> alive[#[trigger] live_below(alive, n)[k] as int],
        forall|i: int|
            0 <= i < n && #[trigger] alive[i] ==> live_below(alive, n).contains(i as u16),
    decreases n,
{
    if n > 0 {
        law_live_ids_are_live(alive, n - 1);
        let before = live_below(alive, n - 1);
        if alive[n - 1] {
            assert(before.push((n - 1) as u16)[before.len() as int] == (n - 1) as u16);
            assert forall|i: int| 0 <= i < n && #[trigger] alive[i] implies live_below(
                alive,
                n,
            ).contains(i as u16) by {
                if i < n - 1 {
                    let k = choose|k: int| 0 <= k < before.len() && before[k] == i as u16;
                    assert(before.push((n - 1) as u16)[k] == i as u16);
                }
            }
        }
    }
}

/// The free list names dead entities, each once.
pub open spec fn free_ok(free: Seq<u16>, alive: Seq<bool>) -> bool {
    &&& forall|k: int| 0 <= k < free.len() ==> (#[trigger] free[k]) < alive.len()
    &&& forall|k: int| 0 <= k < free.len() ==> !alive[#[trigger] free[k] as int]
    &&& forall|j: int, k: int| 0 <= j < k < free.len() ==> free[j] != free[k]
}

/// A player.
#[verifier::ext_equal]
pub struct PlayerV {
    pub alive: bool,
    pub gen: u16,
    pub x: i16,
    pub y: i16,
    pub hp_cur: i16,
    pub hp_max: i16,
    pub uuid: Seq<char>,
    pub name: Seq<char>,
    pub skills: Skills,
    pub inv: Seq<SlotV>,
    pub equipment: EquipV,
    pub intent: Intent,
    pub target: Option<(i32, i32)>,
    pub trade: TradeV,
    pub ui: UiState,
    pub log: Seq<Seq<char>>,
    pub private_chat: Seq<ChatV>,
    pub regen_ctr: u32,
    pub last_ack: u32,
}

/// The players.
#[verifier::ext_equal]
pub struct PlayersV {
    pub slots: Seq<PlayerV>,
    pub free: Seq<u16>,
    pub spawned: Seq<u16>,
    pub despawned: Seq<u16>,
}

impl PlayersV {
    /// Which entities are alive.
    pub open spec fn alive(self) -> Seq<bool> {
        Seq::new(self.slots.len(), |i: int| self.slots[i].alive)
    }

    /// The live entities, in order, as 16-bit numbers.
    pub open spec fn live(self) -> Seq<u16> {
        live_ids(self.alive())
    }

    /// The pool with one entity replaced.
    pub open spec fn put(self, i: int, e: PlayerV) -> PlayersV {
        PlayersV { slots: self.slots.update(i, e), ..self }
    }

    /// The slot that the next spawn takes: the last free one, else a new one at the end.
    pub open spec fn next_slot(self) -> u16 {
        if self.free.len() > 0 {
            self.free.last()
        } else {
            self.slots.len() as u16
        }
    }

    /// The generation of the entity that spawns next.
    pub open spec fn next_gen(self) -> u16 {
        if self.free.len() > 0 {
            self.slots[self.free.last() as int].gen.wrapping_add(1)
        } else {
            0
        }
    }

    /// The pool after the entity was placed on the next slot.
    pub open spec fn spawn_entity(self, e: PlayerV) -> PlayersV {
        if self.free.len() > 0 {
            PlayersV {
                slots: self.slots.update(self.free.last() as int, e),
                free: self.free.drop_last(),
                spawned: self.spawned.push(self.next_slot()),
                despawned: self.despawned,
            }
        } else {
            PlayersV {
                slots: self.slots.push(e),
                free: self.free,
                spawned: self.spawned.push(self.next_slot()),
                despawned: self.despawned,
            }
        }
    }

    /// The pool after an entity was removed; unchanged where there is none.
    pub open spec fn remove_entity(self, idx: u16) -> PlayersV {
        if idx < self.slots.len() && self.slots[idx as int].alive {
            PlayersV {
                slots: self.slots.update(
                    idx as int,
                    PlayerV { alive: false, ..self.slots[idx as int] },
                ),
                free: self.free.push(idx),
                spawned: self.spawned,
                despawned: self.despawned.push(idx),
            }
        } else {
            self
        }
    }

    /// The pool with the lists of spawned and removed entities cleared.
    pub open spec fn audit_cleared(self) -> PlayersV {
        PlayersV { spawned: Seq::empty(), despawned: Seq::empty(), ..self }
    }
}

/// The players.
pub struct PlayerPool {
    pub alive: Vec<bool>,
    pub gens: Vec<u16>,
    pub free: Vec<u16>,
    pub xs: Vec<i16>,
    pub ys: Vec<i16>,
    pub hp_cur: Vec<i16>,
    pub hp_max: Vec<i16>,
    pub uuid: Vec<String>,
    pub name: Vec<String>,
    pub skills: Vec<Skills>,
    pub inv: Vec<Vec<InvSlot>>,
    pub equipment: Vec<Equipment>,
    pub intent: Vec<Intent>,
    pub target: Vec<Option<(i32, i32)>>,
    pub trade: Vec<TradeState>,
    pub ui: Vec<UiState>,
    pub log: Vec<Vec<String>>,
    pub private_chat: Vec<Vec<ChatMsg>>,
    pub regen_ctr: Vec<u32>,
    pub last_ack: Vec<u32>,
    pub spawned: Vec<u16>,
    pub despawned: Vec<u16>,
}

impl View for PlayerPool {
    type V = PlayersV;

    open spec fn view(&self) -> PlayersV {
        PlayersV {
            slots: Seq::new(self.alive@.len(), |i: int| self.slot(i)),
            free: self.free@,
            spawned: self.spawned@,
            despawned: self.despawned@,
        }
    }
}

impl Default for PlayerPool {
    fn default() -> (r: Self)
        ensures
            r.wf(),
            r@ == (PlayersV {
                slots: Seq::empty(),
                free: Seq::empty(),
                spawned: Seq::empty(),
                despawned: Seq::empty(),
            }),
    {
        PlayerPool {
            alive: Vec::new(),
            gens: Vec::new(),
            free: Vec::new(),
            xs: Vec::new(),
            ys: Vec::new(),
            hp_cur: Vec::new(),
            hp_max: Vec::new(),
            uuid: Vec::new(),
            name: Vec::new(),
            skills: Vec::new(),
            inv: Vec::new(),
            equipment: Vec::new(),
            intent: Vec::new(),
            target: Vec::new(),
            trade: Vec::new(),
            ui: Vec::new(),
            log: Vec::new(),
            private_chat: Vec::new(),
            regen_ctr: Vec::new(),
            last_ack: Vec::new(),
            spawned: Vec::new(),
            despawned: Vec::new(),
        }
    }
}

impl PlayerPool {
    /// The entity at a position.
    pub open spec fn slot(&self, i: int) -> PlayerV {
        PlayerV {
            alive: self.alive@[i],
            gen: self.gens@[i],
            x: self.xs@[i],
            y: self.ys@[i],
            hp_cur: self.hp_cur@[i],
            hp_max: self.hp_max@[i],
            uuid: self.uuid@[i]@,
            name: self.name@[i]@,
            skills: self.skills@[i],
            inv: slots_of(self.inv@[i]@),
            equipment: self.equipment@[i]@,
            intent: self.intent@[i],
            target: self.target@[i],
            trade: self.trade@[i]@,
            ui: self.ui@[i],
            log: texts_of(self.log@[i]@),
            private_chat: chat_of(self.private_chat@[i]@),
            regen_ctr: self.regen_ctr@[i],
            last_ack: self.last_ack@[i],
        }
    }

    /// All arrays have the same length, and the free list names dead entities.
    pub open spec fn wf(&self) -> bool {
        &&& self.gens@.len() == self.alive@.len()
        &&& self.xs@.len() == self.alive@.len()
        &&& self.ys@.len() == self.alive@.len()
        &&& self.hp_cur@.len() == self.alive@.len()
        &&& self.hp_max@.len() == self.alive@.len()
        &&& self.uuid@.len() == self.alive@.len()
        &&& self.name@.len() == self.alive@.len()
        &&& self.skills@.len() == self.alive@.len()
        &&& self.inv@.len() == self.alive@.len()
        &&& self.equipment@.len() == self.alive@.len()
        &&& self.intent@.len() == self.alive@.len()
        &&& self.target@.len() == self.alive@.len()
        &&& self.trade@.len() == self.alive@.len()
        &&& self.ui@.len() == self.alive@.len()
        &&& self.log@.len() == self.alive@.len()
        &&& self.private_chat@.len() == self.alive@.len()
        &&& self.regen_ctr@.len() == self.alive@.len()
        &&& self.last_ack@.len() == self.alive@.len()
        &&& free_ok(self.free@, self.alive@)
    }

    /// How many entities the pool has room for, dead ones included.
    pub fn capacity(&self) -> (r: usize)
        ensures
            r == self@.slots.len(),
    {
        self.alive.len()
    }

    /// The live entities, in order.
    pub fn iter_live(&self) -> (r: Vec<u16>)
        ensures
            r@ == self@.live(),
    {
        assert(self@.alive() =~= self.alive@);
        collect_live(&self.alive)
    }

    /// Clears the lists of spawned and removed entities.
    pub fn clear_audit(&mut self)
        requires
            old(self).wf(),
        ensures
            final(self).wf(),
            final(self)@ == old(self)@.audit_cleared(),
    {
        self.spawned.clear();
        self.despawned.clear();
        assert(self@ =~= old(self)@.audit_cleared());
    }

    /// Spawns a player on the last free slot, or on a new one, and returns its number.
    pub fn spawn(&mut self, uuid: String, name: String, x: i32, y: i32) -> (r: u16)
        requires
            old(self).wf(),
        ensures
            final(self).wf(),
            final(self)@ == old(self)@.spawn_player(uuid@, name@, x, y),
            r == old(self)@.next_slot(),
            r < final(self)@.slots.len(),
    {
        let ghost before = self@;
        let idx: u16 = match self.free.pop() {
            Some(i) => {
                let u: usize = i as usize;
                let gen: u16 = self.gens[u];
                self.alive[u] = true;
                self.gens[u] = gen.wrapping_add(1);
                self.xs[u] = x as i16;
                self.ys[u] = y as i16;
                self.hp_cur[u] = 10;
                self.hp_max[u] = 10;
                self.uuid[u] = uuid;
                self.name[u] = name;
                self.skills[u] = Skills::starter();
                self.inv[u] = empty_inventory();
                self.equipment[u] = Equipment::default();
                self.intent[u] = Intent::Idle;
                self.target[u] = None;
                self.trade[u] = TradeState::default();
                self.ui[u] = UiState::default();
                self.log[u] = Vec::new();
                self.private_chat[u] = Vec::new();
                self.regen_ctr[u] = 0;
                self.last_ack[u] = 0;
                i
            },
            None => {
                let i: u16 = self.alive.len() as u16;
                self.alive.push(true);
                self.gens.push(0);
                self.xs.push(x as i16);
                self.ys.push(y as i16);
                self.hp_cur.push(10);
                self.hp_max.push(10);
                self.uuid.push(uuid);
                self.name.push(name);
                self.skills.push(Skills::starter());
                self.inv.push(empty_inventory());
                self.equipment.push(Equipment::default());
                self.intent.push(Intent::Idle);
                self.target.push(None);
                self.trade.push(TradeState::default());
                self.ui.push(UiState::default());
                self.log.push(Vec::new());
                self.private_chat.push(Vec::new());
                self.regen_ctr.push(0);
                self.last_ack.push(0);
                i
            },
        };
        self.spawned.push(idx);
        proof {
            let e = fresh_player(uuid@, name@, x, y, before.next_gen());
            assert(texts_of(Seq::<String>::empty()) =~= Seq::<Seq<char>>::empty());
            assert(chat_of(Seq::<ChatMsg>::empty()) =~= Seq::<ChatV>::empty());
            assert(self@ =~= before.spawn_entity(e));
        }
        idx
    }

    /// Removes a player; a number without a live player changes nothing.
    pub fn despawn(&mut self, idx: u16)
        requires
            old(self).wf(),
        ensures
            final(self).wf(),
            final(self)@ == old(self)@.remove_entity(idx),
    {
        let i: usize = idx as usize;
        if i >= self.alive.len() || !self.alive[i] {
            return;
        }
        self.alive[i] = false;
        self.free.push(idx);
        self.despawned.push(idx);
        assert(self@ =~= old(self)@.remove_entity(idx));
    }

    /// Whether there is a live player with the number.
    pub fn is_alive(&self, idx: u16) -> (r: bool)
        requires
            self.wf(),
        ensures
            r == self@.is_live(idx as int),
    {
        (idx as usize) < self.alive.len() && self.alive[idx as usize]
    }

    /// Moves a player.
    pub fn set_pos(&mut self, i: usize, x: i16, y: i16)
        requires
            old(self).wf(),
            i < old(self)@.slots.len(),
        ensures
            final(self).wf(),
            final(self)@ == old(self)@.put(
                i as int,
                PlayerV { x, y, ..old(self)@.slots[i as int] },
            ),
    {
        self.xs[i] = x;
        self.ys[i] = y;
        assert(self@.slots =~= old(self)@.slots.update(
            i as int,
            PlayerV { x, y, ..old(self)@.slots[i as int] },
        ));
    }

    /// Sets the hit points of a player.
    pub fn set_hp(&mut self, i: usize, hp: i16)
        requires
            old(self).wf(),
            i < old(self)@.slots.len(),
        ensures
            final(self).wf(),
            final(self)@ == old(self)@.put(
                i as int,
                PlayerV { hp_cur: hp, ..old(self)@.slots[i as int] },
            ),
    {
        self.hp_cur[i] = hp;
        assert(self@.slots =~= old(self)@.slots.update(
            i as int,
            PlayerV { hp_cur: hp, ..old(self)@.slots[i as int] },
        ));
    }

    /// Sets the greatest hit points shown for a player.
    pub fn set_hp_max(&mut self, i: usize, hp: i16)
        requires
            old(self).wf(),
            i < old(self)@.slots.len(),
        ensures
            final(self).wf(),
            final(self)@ == old(self)@.put(
                i as int,
                PlayerV { hp_max: hp, ..old(self)@.slots[i as int] },
            ),
    {
        self.hp_max[i] = hp;
        assert(self@.slots =~= old(self)@.slots.update(
            i as int,
            PlayerV { hp_max: hp, ..old(self)@.slots[i as int] },
        ));
    }

    /// Renames a player.
    pub fn set_name(&mut self, i: usize, name: String)
        requires
            old(self).wf(),
            i < old(self)@.slots.len(),
        ensures
            final(self).wf(),
            final(self)@ == old(self)@.put(
                i as int,
                PlayerV { name: name@, ..old(self)@.slots[i as int] },
            ),
    {
        self.name[i] = name;
        assert(self@.slots =~= old(self)@.slots.update(
            i as int,
            PlayerV { name: name@, ..old(self)@.slots[i as int] },
        ));
    }

    /// Sets the skills of a player.
    pub fn set_skills(&mut self, i: usize, skills: Skills)
        requires
            old(self).wf(),
            i < old(self)@.slots.len(),
        ensures
            final(self).wf(),
            final(self)@ == old(self)@.put(
                i as int,
                PlayerV { skills, ..old(self)@.slots[i as int] },
            ),
    {
        self.skills[i] = skills;
        assert(self@.slots =~= old(self)@.slots.update(
            i as int,
            PlayerV { skills, ..old(self)@.slots[i as int] },
        ));
    }

    /// Replaces the inventory of a player.
    pub fn set_inv(&mut self, i: usize, inv: Vec<InvSlot>)
        requires
            old(self).wf(),
            i < old(self)@.slots.len(),
        ensures
            final(self).wf(),
            final(self)@ == old(self)@.put(
                i as int,
                PlayerV { inv: slots_of(inv@), ..old(self)@.slots[i as int] },
            ),
    {
        self.inv[i] = inv;
        assert(self@.slots =~= old(self)@.slots.update(
            i as int,
            PlayerV { inv: slots_of(inv@), ..old(self)@.slots[i as int] },
        ));
    }

    /// Replaces the equipment of a player.
    pub fn set_equipment(&mut self, i: usize, equipment: Equipment)
        requires
            old(self).wf(),
            i < old(self)@.slots.len(),
        ensures
            final(self).wf(),
            final(self)@ == old(self)@.put(
                i as int,
                PlayerV { equipment: equipment@, ..old(self)@.slots[i as int] },
            ),
    {
        self.equipment[i] = equipment;
        assert(self@.slots =~= old(self)@.slots.update(
            i as int,
            PlayerV { equipment: equipment@, ..old(self)@.slots[i as int] },
        ));
    }

    /// Sets what a player is about to do, and where.
    pub fn aim(&mut self, i: usize, intent: Intent, target: Option<(i32, i32)>)
        requires
            old(self).wf(),
            i < old(self)@.slots.len(),
        ensures
            final(self).wf(),
            final(self)@ == old(self)@.put(
                i as int,
                PlayerV { intent, target, ..old(self)@.slots[i as int] },
            ),
    {
        self.intent[i] = intent;
        self.target[i] = target;
        assert(self@.slots =~= old(self)@.slots.update(
            i as int,
            PlayerV { intent, target, ..old(self)@.slots[i as int] },
        ));
    }

    /// Sets which windows a player has open.
    pub fn set_ui(&mut self, i: usize, ui: UiState)
        requires
            old(self).wf(),
            i < old(self)@.slots.len(),
        ensures
            final(self).wf(),
            final(self)@ == old(self)@.put(
                i as int,
                PlayerV { ui, ..old(self)@.slots[i as int] },
            ),
    {
        self.ui[i] = ui;
        assert(self@.slots =~= old(self)@.slots.update(
            i as int,
            PlayerV { ui, ..old(self)@.slots[i as int] },
        ));
    }

    /// Replaces a player's side of a trade.
    pub fn set_trade(&mut self, i: usize, trade: TradeState)
        requires
            old(self).wf(),
            i < old(self)@.slots.len(),
        ensures
            final(self).wf(),
            final(self)@ == old(self)@.put(
                i as int,
                PlayerV { trade: trade@, ..old(self)@.slots[i as int] },
            ),
    {
        self.trade[i] = trade;
        assert(self@.slots =~= old(self)@.slots.update(
            i as int,
            PlayerV { trade: trade@, ..old(self)@.slots[i as int] },
        ));
    }

    /// Notes who asked a player for a trade.
    pub fn set_request(&mut self, i: usize, from: Option<u32>)
        requires
            old(self).wf(),
            i < old(self)@.slots.len(),
        ensures
            final(self).wf(),
            final(self)@ == old(self)@.put(
                i as int,
                PlayerV { trade: TradeV { request_from: from, ..old(self)@.slots[i as int].trade }, ..old(self)@.slots[i as int] },
            ),
    {
        self.trade[i].request_from = from;
        assert(self@.slots =~= old(self)@.slots.update(
            i as int,
            PlayerV { trade: TradeV { request_from: from, ..old(self)@.slots[i as int].trade }, ..old(self)@.slots[i as int] },
        ));
    }

    /// Adds a line to a player's log.
    pub fn push_log(&mut self, i: usize, line: String)
        requires
            old(self).wf(),
            i < old(self)@.slots.len(),
        ensures
            final(self).wf(),
            final(self)@ == old(self)@.put(
                i as int,
                PlayerV { log: old(self)@.slots[i as int].log.push(line@), ..old(self)@.slots[i as int] },
            ),
    {
        self.log[i].push(line);
        assert(texts_of(self.log@[i as int]@) =~= texts_of(old(self).log@[i as int]@).push(line@));
        assert(self@.slots =~= old(self)@.slots.update(
            i as int,
            PlayerV { log: old(self)@.slots[i as int].log.push(line@), ..old(self)@.slots[i as int] },
        ));
    }

    /// Adds a chat line that only this player sees.
    pub fn push_private(&mut self, i: usize, msg: ChatMsg)
        requires
            old(self).wf(),
            i < old(self)@.slots.len(),
        ensures
            final(self).wf(),
            final(self)@ == old(self)@.put(
                i as int,
                PlayerV { private_chat: old(self)@.slots[i as int].private_chat.push(msg@), ..old(self)@.slots[i as int] },
            ),
    {
        self.private_chat[i].push(msg);
        assert(chat_of(self.private_chat@[i as int]@) =~= chat_of(
            old(self).private_chat@[i as int]@,
        ).push(msg@));
        assert(self@.slots =~= old(self)@.slots.update(
            i as int,
            PlayerV { private_chat: old(self)@.slots[i as int].private_chat.push(msg@), ..old(self)@.slots[i as int] },
        ));
    }

    /// Sets a player's ticks since the last recovered hit point.
    pub fn set_regen(&mut self, i: usize, ticks: u32)
        requires
            old(self).wf(),
            i < old(self)@.slots.len(),
        ensures
            final(self).wf(),
            final(self)@ == old(self)@.put(
                i as int,
                PlayerV { regen_ctr: ticks, ..old(self)@.slots[i as int] },
            ),
    {
        self.regen_ctr[i] = ticks;
        assert(self@.slots =~= old(self)@.slots.update(
            i as int,
            PlayerV { regen_ctr: ticks, ..old(self)@.slots[i as int] },
        ));
    }

    /// Replaces one inventory slot.
    pub fn set_slot(&mut self, i: usize, slot: usize, s: InvSlot)
        requires
            old(self).wf(),
            i < old(self)@.slots.len(),
            slot < old(self)@.slots[i as int].inv.len(),
        ensures
            final(self).wf(),
            final(self)@ == old(self)@.put(
                i as int,
                PlayerV { inv: old(self)@.slots[i as int].inv.update(slot as int, s@), ..old(self)@.slots[i as int] },
            ),
    {
        self.inv[i][slot] = s;
        assert(slots_of(self.inv@[i as int]@) =~= slots_of(old(self).inv@[i as int]@).update(
            slot as int,
            s@,
        ));
        assert(self@.slots =~= old(self)@.slots.update(
            i as int,
            PlayerV { inv: old(self)@.slots[i as int].inv.update(slot as int, s@), ..old(self)@.slots[i as int] },
        ));
    }

    /// Adds items to a player's inventory and tells whether there was room.
    pub fn add_item(&mut self, i: usize, item: &str, qty: i32) -> (r: bool)
        requires
            old(self).wf(),
            i < old(self)@.slots.len(),
        ensures
            final(self).wf(),
            final(self)@ == old(self)@.put(
                i as int,
                PlayerV { inv: added(old(self)@.slots[i as int].inv, item@, qty), ..old(self)@.slots[i as int] },
            ),
            r == fits(old(self)@.slots[i as int].inv, item@),
            final(self)@.slots[i as int].inv.len() == old(self)@.slots[i as int].inv.len(),
    {
        let r: bool = add_inv_into(&mut self.inv[i], item, qty);
        assert(self@.slots =~= old(self)@.slots.update(
            i as int,
            PlayerV { inv: added(old(self)@.slots[i as int].inv, item@, qty), ..old(self)@.slots[i as int] },
        ));
        r
    }

    /// Takes items from a player's inventory, if it holds that many.
    pub fn deduct_item(&mut self, i: usize, item: &str, qty: i32)
        requires
            old(self).wf(),
            i < old(self)@.slots.len(),
        ensures
            final(self).wf(),
            final(self)@ == old(self)@.put(
                i as int,
                PlayerV { inv: deducted(old(self)@.slots[i as int].inv, item@, qty), ..old(self)@.slots[i as int] },
            ),
            final(self)@.slots[i as int].inv.len() == old(self)@.slots[i as int].inv.len(),
    {
        let _ = deduct_item_from(&mut self.inv[i], item, qty);
        assert(self@.slots =~= old(self)@.slots.update(
            i as int,
            PlayerV { inv: deducted(old(self)@.slots[i as int].inv, item@, qty), ..old(self)@.slots[i as int] },
        ));
    }

    /// Empties inventory slots of a player.
    pub fn empty_slots(&mut self, i: usize, slots: &[usize])
        requires
            old(self).wf(),
            i < old(self)@.slots.len(),
            forall|k: int|
                0 <= k < slots@.len() ==> (#[trigger] slots@[k])
                    < old(self)@.slots[i as int].inv.len(),
        ensures
            final(self).wf(),
            final(self)@ == old(self)@.put(
                i as int,
                PlayerV { inv: emptied(old(self)@.slots[i as int].inv, slots@), ..old(self)@.slots[i as int] },
            ),
            final(self)@.slots[i as int].inv.len() == old(self)@.slots[i as int].inv.len(),
    {
        empty_slots(&mut self.inv[i], slots);
        assert(self@.slots =~= old(self)@.slots.update(
            i as int,
            PlayerV { inv: emptied(old(self)@.slots[i as int].inv, slots@), ..old(self)@.slots[i as int] },
        ));
    }

    /// Adds stacks to a player's inventory.
    pub fn receive(&mut self, i: usize, items: &[InvSlot])
        requires
            old(self).wf(),
            i < old(self)@.slots.len(),
        ensures
            final(self).wf(),
            final(self)@ == old(self)@.put(
                i as int,
                PlayerV { inv: received(old(self)@.slots[i as int].inv, slots_of(items@)), ..old(self)@.slots[i as int] },
            ),
            final(self)@.slots[i as int].inv.len() == old(self)@.slots[i as int].inv.len(),
    {
        receive_items(&mut self.inv[i], items);
        assert(self@.slots =~= old(self)@.slots.update(
            i as int,
            PlayerV { inv: received(old(self)@.slots[i as int].inv, slots_of(items@)), ..old(self)@.slots[i as int] },
        ));
    }

    /// Puts an item at a place of a player's equipment.
    pub fn wear(&mut self, i: usize, place: &str, item: String)
        requires
            old(self).wf(),
            i < old(self)@.slots.len(),
        ensures
            final(self).wf(),
            final(self)@ == old(self)@.put(
                i as int,
                PlayerV { equipment: old(self)@.slots[i as int].equipment.with(place@, item@), ..old(self)@.slots[i as int] },
            ),
    {
        self.equipment[i].set(place, item);
        assert(self@.slots =~= old(self)@.slots.update(
            i as int,
            PlayerV { equipment: old(self)@.slots[i as int].equipment.with(place@, item@), ..old(self)@.slots[i as int] },
        ));
    }

    /// Pays coins from a player's inventory, if it holds that many; tells whether it did.
    pub fn pay(&mut self, i: usize, amt: i32) -> (r: bool)
        requires
            old(self).wf(),
            i < old(self)@.slots.len(),
        ensures
            final(self).wf(),
            r == (count_of(old(self)@.slots[i as int].inv, "coins"@) >= amt),
            final(self)@ == if r {
                old(self)@.put(
                    i as int,
                    PlayerV {
                        inv: paid(old(self)@.slots[i as int].inv, amt, 0),
                        ..old(self)@.slots[i as int]
                    },
                )
            } else {
                old(self)@
            },
            final(self)@.slots[i as int].inv.len() == old(self)@.slots[i as int].inv.len(),
    {
        let r: bool = deduct_coins(&mut self.inv[i], amt);
        if r {
            assert(self@.slots =~= old(self)@.slots.update(
                i as int,
                PlayerV {
                    inv: paid(old(self)@.slots[i as int].inv, amt, 0),
                    ..old(self)@.slots[i as int]
                },
            ));
        } else {
            assert(self@.slots =~= old(self)@.slots);
        }
        r
    }

    /// Takes the lines of a player's log away.
    pub fn take_log(&mut self, i: usize) -> (r: Vec<String>)
        requires
            old(self).wf(),
            i < old(self)@.slots.len(),
        ensures
            final(self).wf(),
            texts_of(r@) == old(self)@.slots[i as int].log,
            final(self)@ == old(self)@.put(
                i as int,
                PlayerV { log: Seq::empty(), ..old(self)@.slots[i as int] },
            ),
    {
        let mut lines: Vec<String> = Vec::new();
        std::mem::swap(&mut lines, &mut self.log[i]);
        assert(texts_of(self.log@[i as int]@) =~= Seq::<Seq<char>>::empty());
        assert(self@.slots =~= old(self)@.slots.update(
            i as int,
            PlayerV { log: Seq::empty(), ..old(self)@.slots[i as int] },
        ));
        lines
    }

    /// Takes the chat lines away that only this player sees.
    pub fn take_private(&mut self, i: usize) -> (r: Vec<ChatMsg>)
        requires
            old(self).wf(),
            i < old(self)@.slots.len(),
        ensures
            final(self).wf(),
            chat_of(r@) == old(self)@.slots[i as int].private_chat,
            final(self)@ == old(self)@.put(
                i as int,
                PlayerV { private_chat: Seq::empty(), ..old(self)@.slots[i as int] },
            ),
    {
        let mut lines: Vec<ChatMsg> = Vec::new();
        std::mem::swap(&mut lines, &mut self.private_chat[i]);
        assert(chat_of(self.private_chat@[i as int]@) =~= Seq::<ChatV>::empty());
        assert(self@.slots =~= old(self)@.slots.update(
            i as int,
            PlayerV { private_chat: Seq::empty(), ..old(self)@.slots[i as int] },
        ));
        lines
    }
}

/// A player as it spawns: 10 hit points, level 1 in everything, nothing carried.
pub open spec fn fresh_player(
    uuid: Seq<char>,
    name: Seq<char>,
    x: i32,
    y: i32,
    gen: u16,
) -> PlayerV {
    PlayerV {
        alive: true,
        gen,
        x: x as i16,
        y: y as i16,
        hp_cur: 10,
        hp_max: 10,
        uuid,
        name,
        skills: starter_skills(),
        inv: free_slots(),
        equipment: no_equipment(),
        intent: Intent::Idle,
        target: None,
        trade: no_trade(),
        ui: closed_ui(),
        log: Seq::empty(),
        private_chat: Seq::empty(),
        regen_ctr: 0,
        last_ack: 0,
    }
}

impl PlayersV {
    /// Whether there is a live player with the number.
    pub open spec fn is_live(self, i: int) -> bool {
        0 <= i < self.slots.len() && self.slots[i].alive
    }

    /// The pool after a player spawned.
    pub open spec fn spawn_player(
        self,
        uuid: Seq<char>,
        name: Seq<char>,
        x: i32,
        y: i32,
    ) -> PlayersV {
        self.spawn_entity(fresh_player(uuid, name, x, y, self.next_gen()))
    }
}

/// A creature. `respawn_at` is 0 while it is up.
#[verifier::ext_equal]
pub struct MobV {
    pub alive: bool,
    pub gen: u16,
    pub x: i16,
    pub y: i16,
    pub hp_cur: i16,
    pub hp_max: i16,
    pub kind_id: u8,
    pub attack: i32,
    pub strength: i32,
    pub defence: i32,
    pub home: (i16, i16),
    pub respawn_at: u64,
}

/// The creatures.
#[verifier::ext_equal]
pub struct MobsV {
    pub slots: Seq<MobV>,
    pub free: Seq<u16>,
    pub spawned: Seq<u16>,
    pub despawned: Seq<u16>,
}

impl MobsV {
    /// Which entities are alive.
    pub open spec fn alive(self) -> Seq<bool> {
        Seq::new(self.slots.len(), |i: int| self.slots[i].alive)
    }

    /// The live entities, in order, as 16-bit numbers.
    pub open spec fn live(self) -> Seq<u16> {
        live_ids(self.alive())
    }

    /// The pool with one entity replaced.
    pub open spec fn put(self, i: int, e: MobV) -> MobsV {
        MobsV { slots: self.slots.update(i, e), ..self }
    }

    /// The slot that the next spawn takes: the last free one, else a new one at the end.
    pub open spec fn next_slot(self) -> u16 {
        if self.free.len() > 0 {
            self.free.last()
        } else {
            self.slots.len() as u16
        }
    }

    /// The generation of the entity that spawns next.
    pub open spec fn next_gen(self) -> u16 {
        if self.free.len() > 0 {
            self.slots[self.free.last() as int].gen.wrapping_add(1)
        } else {
            0
        }
    }

    /// The pool after the entity was placed on the next slot.
    pub open spec fn spawn_entity(self, e: MobV) -> MobsV {
        if self.free.len() > 0 {
            MobsV {
                slots: self.slots.update(self.free.last() as int, e),
                free: self.free.drop_last(),
                spawned: self.spawned.push(self.next_slot()),
                despawned: self.despawned,
            }
        } else {
            MobsV {
                slots: self.slots.push(e),
                free: self.free,
                spawned: self.spawned.push(self.next_slot()),
                despawned: self.despawned,
            }
        }
    }

    /// The pool after an entity was removed; unchanged where there is none.
    pub open spec fn remove_entity(self, idx: u16) -> MobsV {
        if idx < self.slots.len() && self.slots[idx as int].alive {
            MobsV {
                slots: self.slots.update(
                    idx as int,
                    MobV { alive: false, ..self.slots[idx as int] },
                ),
                free: self.free.push(idx),
                spawned: self.spawned,
                despawned: self.despawned.push(idx),
            }
        } else {
            self
        }
    }

    /// The pool with the lists of spawned and removed entities cleared.
    pub open spec fn audit_cleared(self) -> MobsV {
        MobsV { spawned: Seq::empty(), despawned: Seq::empty(), ..self }
    }
}

/// The creatures.
pub struct MobPool {
    pub alive: Vec<bool>,
    pub gens: Vec<u16>,
    pub free: Vec<u16>,
    pub xs: Vec<i16>,
    pub ys: Vec<i16>,
    pub hp_cur: Vec<i16>,
    pub hp_max: Vec<i16>,
    pub kind_id: Vec<u8>,
    pub attack: Vec<i32>,
    pub strength: Vec<i32>,
    pub defence: Vec<i32>,
    pub home: Vec<(i16, i16)>,
    pub respawn_at: Vec<u64>,
    pub spawned: Vec<u16>,
    pub despawned: Vec<u16>,
}

impl View for MobPool {
    type V = MobsV;

    open spec fn view(&self) -> MobsV {
        MobsV {
            slots: Seq::new(self.alive@.len(), |i: int| self.slot(i)),
            free: self.free@,
            spawned: self.spawned@,
            despawned: self.despawned@,
        }
    }
}

impl Default for MobPool {
    fn default() -> (r: Self)
        ensures
            r.wf(),
            r@ == (MobsV {
                slots: Seq::empty(),
                free: Seq::empty(),
                spawned: Seq::empty(),
                despawned: Seq::empty(),
            }),
    {
        MobPool {
            alive: Vec::new(),
            gens: Vec::new(),
            free: Vec::new(),
            xs: Vec::new(),
            ys: Vec::new(),
            hp_cur: Vec::new(),
            hp_max: Vec::new(),
            kind_id: Vec::new(),
            attack: Vec::new(),
            strength: Vec::new(),
            defence: Vec::new(),
            home: Vec::new(),
            respawn_at: Vec::new(),
            spawned: Vec::new(),
            despawned: Vec::new(),
        }
    }
}

impl MobPool {
    /// The entity at a position.
    pub open spec fn slot(&self, i: int) -> MobV {
        MobV {
            alive: self.alive@[i],
            gen: self.gens@[i],
            x: self.xs@[i],
            y: self.ys@[i],
            hp_cur: self.hp_cur@[i],
            hp_max: self.hp_max@[i],
            kind_id: self.kind_id@[i],
            attack: self.attack@[i],
            strength: self.strength@[i],
            defence: self.defence@[i],
            home: self.home@[i],
            respawn_at: self.respawn_at@[i],
        }
    }

    /// All arrays have the same length, and the free list names dead entities.
    pub open spec fn wf(&self) -> bool {
        &&& self.gens@.len() == self.alive@.len()
        &&& self.xs@.len() == self.alive@.len()
        &&& self.ys@.len() == self.alive@.len()
        &&& self.hp_cur@.len() == self.alive@.len()
        &&& self.hp_max@.len() == self.alive@.len()
        &&& self.kind_id@.len() == self.alive@.len()
        &&& self.attack@.len() == self.alive@.len()
        &&& self.strength@.len() == self.alive@.len()
        &&& self.defence@.len() == self.alive@.len()
        &&& self.home@.len() == self.alive@.len()
        &&& self.respawn_at@.len() == self.alive@.len()
        &&& free_ok(self.free@, self.alive@)
    }

    /// How many entities the pool has room for, dead ones included.
    pub fn capacity(&self) -> (r: usize)
        ensures
            r == self@.slots.len(),
    {
        self.alive.len()
    }

    /// The live entities, in order.
    pub fn iter_live(&self) -> (r: Vec<u16>)
        ensures
            r@ == self@.live(),
    {
        assert(self@.alive() =~= self.alive@);
        collect_live(&self.alive)
    }

    /// Clears the lists of spawned and removed entities.
    pub fn clear_audit(&mut self)
        requires
            old(self).wf(),
        ensures
            final(self).wf(),
            final(self)@ == old(self)@.audit_cleared(),
    {
        self.spawned.clear();
        self.despawned.clear();
        assert(self@ =~= old(self)@.audit_cleared());
    }

    /// Spawns a creature of a kind and returns its number.
    pub fn spawn(&mut self, kind: &str, x: i32, y: i32) -> (r: u16)
        requires
            old(self).wf(),
        ensures
            final(self).wf(),
            final(self)@ == old(self)@.spawn_mob(kind@, x, y),
            r == old(self)@.next_slot(),
            r < final(self)@.slots.len(),
    {
        let d: MobDef = mob_def(kind);
        let kid: u8 = mob_kind_id(kind);
        let ghost before = self@;
        let idx: u16 = match self.free.pop() {
            Some(i) => {
                let u: usize = i as usize;
                let gen: u16 = self.gens[u];
                self.alive[u] = true;
                self.gens[u] = gen.wrapping_add(1);
                self.xs[u] = x as i16;
                self.ys[u] = y as i16;
                self.hp_cur[u] = d.hp as i16;
                self.hp_max[u] = d.hp as i16;
                self.kind_id[u] = kid;
                self.attack[u] = d.attack;
                self.strength[u] = d.strength;
                self.defence[u] = d.defence;
                self.home[u] = (x as i16, y as i16);
                self.respawn_at[u] = 0;
                i
            },
            None => {
                let i: u16 = self.alive.len() as u16;
                self.alive.push(true);
                self.gens.push(0);
                self.xs.push(x as i16);
                self.ys.push(y as i16);
                self.hp_cur.push(d.hp as i16);
                self.hp_max.push(d.hp as i16);
                self.kind_id.push(kid);
                self.attack.push(d.attack);
                self.strength.push(d.strength);
                self.defence.push(d.defence);
                self.home.push((x as i16, y as i16));
                self.respawn_at.push(0);
                i
            },
        };
        self.spawned.push(idx);
        assert(self@ =~= before.spawn_mob(kind@, x, y));
        idx
    }

    /// Moves a creature.
    pub fn set_pos(&mut self, i: usize, x: i16, y: i16)
        requires
            old(self).wf(),
            i < old(self)@.slots.len(),
        ensures
            final(self).wf(),
            final(self)@ == old(self)@.put(
                i as int,
                MobV { x, y, ..old(self)@.slots[i as int] },
            ),
    {
        self.xs[i] = x;
        self.ys[i] = y;
        assert(self@.slots =~= old(self)@.slots.update(
            i as int,
            MobV { x, y, ..old(self)@.slots[i as int] },
        ));
    }

    /// Sets the hit points of a creature.
    pub fn set_hp(&mut self, i: usize, hp: i16)
        requires
            old(self).wf(),
            i < old(self)@.slots.len(),
        ensures
            final(self).wf(),
            final(self)@ == old(self)@.put(
                i as int,
                MobV { hp_cur: hp, ..old(self)@.slots[i as int] },
            ),
    {
        self.hp_cur[i] = hp;
        assert(self@.slots =~= old(self)@.slots.update(
            i as int,
            MobV { hp_cur: hp, ..old(self)@.slots[i as int] },
        ));
    }

    /// Sets when a fallen creature rises again.
    pub fn set_respawn(&mut self, i: usize, at: u64)
        requires
            old(self).wf(),
            i < old(self)@.slots.len(),
        ensures
            final(self).wf(),
            final(self)@ == old(self)@.put(
                i as int,
                MobV { respawn_at: at, ..old(self)@.slots[i as int] },
            ),
    {
        self.respawn_at[i] = at;
        assert(self@.slots =~= old(self)@.slots.update(
            i as int,
            MobV { respawn_at: at, ..old(self)@.slots[i as int] },
        ));
    }

}

/// A creature of a kind as it spawns: unhurt, at home where it stands.
pub open spec fn fresh_mob(kind: Seq<char>, x: i32, y: i32, gen: u16) -> MobV {
    let d = mob_of(kind);
    MobV {
        alive: true,
        gen,
        x: x as i16,
        y: y as i16,
        hp_cur: d.hp as i16,
        hp_max: d.hp as i16,
        kind_id: mob_index(kind) as u8,
        attack: d.attack,
        strength: d.strength,
        defence: d.defence,
        home: (x as i16, y as i16),
        respawn_at: 0,
    }
}

impl MobsV {
    /// The pool after a creature spawned.
    pub open spec fn spawn_mob(self, kind: Seq<char>, x: i32, y: i32) -> MobsV {
        self.spawn_entity(fresh_mob(kind, x, y, self.next_gen()))
    }

    /// Whether the creature is up: alive and not waiting to rise again.
    pub open spec fn is_up(self, i: int) -> bool {
        0 <= i < self.slots.len() && self.slots[i].alive && self.slots[i].respawn_at == 0
    }
}

/// A stack of items on the ground.
#[verifier::ext_equal]
pub struct GroundV {
    pub alive: bool,
    pub gen: u16,
    pub x: i16,
    pub y: i16,
    pub item: Seq<char>,
    pub qty: i32,
}

/// The items on the ground.
#[verifier::ext_equal]
pub struct GroundsV {
    pub slots: Seq<GroundV>,
    pub free: Seq<u16>,
    pub spawned: Seq<u16>,
    pub despawned: Seq<u16>,
}

impl GroundsV {
    /// Which entities are alive.
    pub open spec fn alive(self) -> Seq<bool> {
        Seq::new(self.slots.len(), |i: int| self.slots[i].alive)
    }

    /// The live entities, in order, as 16-bit numbers.
    pub open spec fn live(self) -> Seq<u16> {
        live_ids(self.alive())
    }

    /// The pool with one entity replaced.
    pub open spec fn put(self, i: int, e: GroundV) -> GroundsV {
        GroundsV { slots: self.slots.update(i, e), ..self }
    }

    /// The slot that the next spawn takes: the last free one, else a new one at the end.
    pub open spec fn next_slot(self) -> u16 {
        if self.free.len() > 0 {
            self.free.last()
        } else {
            self.slots.len() as u16
        }
    }

    /// The generation of the entity that spawns next.
    pub open spec fn next_gen(self) -> u16 {
        if self.free.len() > 0 {
            self.slots[self.free.last() as int].gen.wrapping_add(1)
        } else {
            0
        }
    }

    /// The pool after the entity was placed on the next slot.
    pub open spec fn spawn_entity(self, e: GroundV) -> GroundsV {
        if self.free.len() > 0 {
            GroundsV {
                slots: self.slots.update(self.free.last() as int, e),
                free: self.free.drop_last(),
                spawned: self.spawned.push(self.next_slot()),
                despawned: self.despawned,
            }
        } else {
            GroundsV {
                slots: self.slots.push(e),
                free: self.free,
                spawned: self.spawned.push(self.next_slot()),
                despawned: self.despawned,
            }
        }
    }

    /// The pool after an entity was removed; unchanged where there is none.
    pub open spec fn remove_entity(self, idx: u16) -> GroundsV {
        if idx < self.slots.len() && self.slots[idx as int].alive {
            GroundsV {
                slots: self.slots.update(
                    idx as int,
                    GroundV { alive: false, ..self.slots[idx as int] },
                ),
                free: self.free.push(idx),
                spawned: self.spawned,
                despawned: self.despawned.push(idx),
            }
        } else {
            self
        }
    }

    /// The pool with the lists of spawned and removed entities cleared.
    pub open spec fn audit_cleared(self) -> GroundsV {
        GroundsV { spawned: Seq::empty(), despawned: Seq::empty(), ..self }
    }
}

/// The items on the ground.
pub struct GroundPool {
    pub alive: Vec<bool>,
    pub gens: Vec<u16>,
    pub free: Vec<u16>,
    pub xs: Vec<i16>,
    pub ys: Vec<i16>,
    pub item: Vec<String>,
    pub qty: Vec<i32>,
    pub spawned: Vec<u16>,
    pub despawned: Vec<u16>,
}

impl View for GroundPool {
    type V = GroundsV;

    open spec fn view(&self) -> GroundsV {
        GroundsV {
            slots: Seq::new(self.alive@.len(), |i: int| self.slot(i)),
            free: self.free@,
            spawned: self.spawned@,
            despawned: self.despawned@,
        }
    }
}

impl Default for GroundPool {
    fn default() -> (r: Self)
        ensures
            r.wf(),
            r@ == (GroundsV {
                slots: Seq::empty(),
                free: Seq::empty(),
                spawned: Seq::empty(),
                despawned: Seq::empty(),
            }),
    {
        GroundPool {
            alive: Vec::new(),
            gens: Vec::new(),
            free: Vec::new(),
            xs: Vec::new(),
            ys: Vec::new(),
            item: Vec::new(),
            qty: Vec::new(),
            spawned: Vec::new(),
            despawned: Vec::new(),
        }
    }
}

impl GroundPool {
    /// The entity at a position.
    pub open spec fn slot(&self, i: int) -> GroundV {
        GroundV {
            alive: self.alive@[i],
            gen: self.gens@[i],
            x: self.xs@[i],
            y: self.ys@[i],
            item: self.item@[i]@,
            qty: self.qty@[i],
        }
    }

    /// All arrays have the same length, and the free list names dead entities.
    pub open spec fn wf(&self) -> bool {
        &&& self.gens@.len() == self.alive@.len()
        &&& self.xs@.len() == self.alive@.len()
        &&& self.ys@.len() == self.alive@.len()
        &&& self.item@.len() == self.alive@.len()
        &&& self.qty@.len() == self.alive@.len()
        &&& free_ok(self.free@, self.alive@)
    }

    /// How many entities the pool has room for, dead ones included.
    pub fn capacity(&self) -> (r: usize)
        ensures
            r == self@.slots.len(),
    {
        self.alive.len()
    }

    /// The live entities, in order.
    pub fn iter_live(&self) -> (r: Vec<u16>)
        ensures
            r@ == self@.live(),
    {
        assert(self@.alive() =~= self.alive@);
        collect_live(&self.alive)
    }

    /// Clears the lists of spawned and removed entities.
    pub fn clear_audit(&mut self)
        requires
            old(self).wf(),
        ensures
            final(self).wf(),
            final(self)@ == old(self)@.audit_cleared(),
    {
        self.spawned.clear();
        self.despawned.clear();
        assert(self@ =~= old(self)@.audit_cleared());
    }

    /// Puts a stack on the ground and returns its number.
    pub fn spawn(&mut self, x: i32, y: i32, item: &str, qty: i32) -> (r: u16)
        requires
            old(self).wf(),
        ensures
            final(self).wf(),
            final(self)@ == old(self)@.spawn_stack(x, y, item@, qty),
            r == old(self)@.next_slot(),
            r < final(self)@.slots.len(),
    {
        let ghost before = self@;
        let idx: u16 = match self.free.pop() {
            Some(i) => {
                let u: usize = i as usize;
                let gen: u16 = self.gens[u];
                self.alive[u] = true;
                self.gens[u] = gen.wrapping_add(1);
                self.xs[u] = x as i16;
                self.ys[u] = y as i16;
                self.item[u] = item.to_owned();
                self.qty[u] = qty;
                i
            },
            None => {
                let i: u16 = self.alive.len() as u16;
                self.alive.push(true);
                self.gens.push(0);
                self.xs.push(x as i16);
                self.ys.push(y as i16);
                self.item.push(item.to_owned());
                self.qty.push(qty);
                i
            },
        };
        self.spawned.push(idx);
        assert(self@ =~= before.spawn_stack(x, y, item@, qty));
        idx
    }

    /// Removes a stack; a number without one changes nothing.
    pub fn despawn(&mut self, idx: u16)
        requires
            old(self).wf(),
        ensures
            final(self).wf(),
            final(self)@ == old(self)@.remove_entity(idx),
    {
        let i: usize = idx as usize;
        if i >= self.alive.len() || !self.alive[i] {
            return;
        }
        self.alive[i] = false;
        self.free.push(idx);
        self.despawned.push(idx);
        assert(self@ =~= old(self)@.remove_entity(idx));
    }

    /// Sets how many items a stack holds.
    pub fn set_qty(&mut self, i: usize, qty: i32)
        requires
            old(self).wf(),
            i < old(self)@.slots.len(),
        ensures
            final(self).wf(),
            final(self)@ == old(self)@.put(
                i as int,
                GroundV { qty, ..old(self)@.slots[i as int] },
            ),
    {
        self.qty[i] = qty;
        assert(self@.slots =~= old(self)@.slots.update(
            i as int,
            GroundV { qty, ..old(self)@.slots[i as int] },
        ));
    }

}

impl GroundsV {
    /// The pool after a stack was put on the ground.
    pub open spec fn spawn_stack(self, x: i32, y: i32, item: Seq<char>, qty: i32) -> GroundsV {
        self.spawn_entity(
            GroundV { alive: true, gen: self.next_gen(), x: x as i16, y: y as i16, item, qty },
        )
    }
}

} // verus!
