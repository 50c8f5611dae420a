//! Coming and going: identities, stored players, and joining the world.

use vstd::prelude::*;
use crate::chat::{clean_name, name_for};
use crate::inventory::{migrate_legacy_fishing_rod, renamed_hand, renamed_rod};
use crate::levels::{law_level_of_nothing, level_from_xp, level_of};
use crate::pools::{free_ok, lemma_live_below, PlayerV};
use crate::sim::{levels_right, lemma_update_twice, Sim, SimV};
use crate::text::{lower_char, lower_text};
use crate::types::{
    copy_slots, empty_inventory, free_slot, free_slots, no_equipment, slots_of, starter_skills,
    EquipV, SlotV,
};
use crate::types::{Equipment, InvSlot, Skills, INV_SIZE};

verus! {

broadcast use lemma_update_twice;

/// Whether a character is a hexadecimal digit.
pub open spec fn hex_digit(c: char) -> bool {
    ||| '0' <= c <= '9'
    ||| 'a' <= c <= 'f'
    ||| 'A' <= c <= 'F'
}

/// Whether a hyphen stands at a place of a hyphenated identity.
pub open spec fn hyphen_at(k: int) -> bool {
    k == 8 || k == 13 || k == 18 || k == 23
}

/// Whether a text is an identity in the hyphenated form: groups of 8, 4, 4, 4 and 12
/// hexadecimal digits.
pub open spec fn hyphenated(s: Seq<char>) -> bool {
    &&& s.len() == 36
    &&& forall|k: int|
        0 <= k < 36 ==> if hyphen_at(k) {
            #[trigger] s[k] == '-'
        } else {
            hex_digit(s[k])
        }
}

/// Whether a text is an identity without hyphens.
pub open spec fn unhyphenated(s: Seq<char>) -> bool {
    s.len() == 32 && forall|k: int| 0 <= k < 32 ==> hex_digit(#[trigger] s[k])
}

/// The place of a digit of a hyphenated identity once the hyphens are left out.
pub open spec fn digit_place(k: int) -> int {
    if k < 8 {
        k
    } else if k < 13 {
        k - 1
    } else if k < 18 {
        k - 2
    } else if k < 23 {
        k - 3
    } else {
        k - 4
    }
}

/// The identity that a text stands for, in lower case and with hyphens: a text of 32
/// digits, of the hyphenated form, of that form in braces, or behind `urn:uuid:`.
pub open spec fn uuid_text(s: Seq<char>) -> Option<Seq<char>> {
    if unhyphenated(s) {
        Some(
            Seq::new(
                36,
                |k: int|
                    if hyphen_at(k) {
                        '-'
                    } else {
                        lower_char(s[digit_place(k)])
                    },
            ),
        )
    } else if hyphenated(s) {
        Some(lower_text(s))
    } else if s.len() == 38 && s[0] == '{' && s[37] == '}' && hyphenated(s.subrange(1, 37)) {
        Some(lower_text(s.subrange(1, 37)))
    } else if s.len() == 45 && lower_text(s.take(9)) == "urn:uuid:"@ && hyphenated(s.skip(9)) {
        Some(lower_text(s.skip(9)))
    } else {
        None
    }
}

/// `uuid::Uuid::parse_str` on a text, the identity written again by its `Display`. It
/// reads 32 hexadecimal digits of either case, plain, hyphenated, in braces or behind
/// `urn:uuid:` in either case, and writes them in lower case with hyphens.
#[verifier::external_body]
fn parse_uuid(s: &str) -> (r: Option<String>)
    ensures
        r is Some == uuid_text(s@) is Some,
        r matches Some(u) ==> uuid_text(s@) == Some(u@),
{
    uuid::Uuid::parse_str(s).ok().map(|u| u.to_string())
}

/// An identity of version 4 and of the variant 10, in lower case with hyphens.
pub open spec fn random_form(s: Seq<char>) -> bool {
    &&& hyphenated(s)
    &&& lower_text(s) == s
    &&& s[14] == '4'
    &&& s[19] == '8' || s[19] == '9' || s[19] == 'a' || s[19] == 'b'
}

/// `uuid::Uuid::new_v4`, written by its `Display`: a random identity of version 4
/// and of the variant 10, in lower case with hyphens.
#[verifier::external_body]
fn fresh_uuid() -> (r: String)
    ensures
        random_form(r@),
{
    uuid::Uuid::new_v4().to_string()
}

/// The identity of a player: the one that the client brings, if it is one, else a
/// new random one.
pub fn valid_uuid_or_new(raw: Option<&str>) -> (r: String)
    ensures
        match raw {
            Some(s) => if uuid_text(s@) is Some {
                uuid_text(s@) == Some(r@)
            } else {
                random_form(r@)
            },
            None => random_form(r@),
        },
        hyphenated(r@),
        lower_text(r@) == r@,
{
    if let Some(s) = raw {
        if let Some(u) = parse_uuid(s) {
            proof {
                law_uuid_canonical(s@);
            }
            return u;
        }
    }
    fresh_uuid()
}

/// An identity is written in the hyphenated form and in lower case, and stands for
/// itself.
pub proof fn law_uuid_canonical(s: Seq<char>)
    ensures
        uuid_text(s) matches Some(u) ==> hyphenated(u) && lower_text(u) == u && uuid_text(u)
            == Some(u),
{
    if let Some(u) = uuid_text(s) {
        if unhyphenated(s) {
            assert forall|k: int| 0 <= k < 36 implies if hyphen_at(k) {
                #[trigger] u[k] == '-'
            } else {
                hex_digit(u[k])
            } by {
                if !hyphen_at(k) {
                    assert(hex_digit(s[digit_place(k)]));
                }
            }
            assert(lower_text(u) =~= u) by {
                assert forall|k: int| 0 <= k < 36 implies lower_char(#[trigger] u[k]) == u[k] by {
                    if !hyphen_at(k) {
                        assert(hex_digit(s[digit_place(k)]));
                    }
                }
            }
        } else {
            let t = if hyphenated(s) {
                s
            } else if s.len() == 38 {
                s.subrange(1, 37)
            } else {
                s.skip(9)
            };
            assert forall|k: int| 0 <= k < 36 implies if hyphen_at(k) {
                #[trigger] u[k] == '-'
            } else {
                hex_digit(u[k])
            } by {
                assert(if hyphen_at(k) {
                    t[k] == '-'
                } else {
                    hex_digit(t[k])
                });
            }
            assert(lower_text(u) =~= u) by {
                assert forall|k: int| 0 <= k < 36 implies lower_char(#[trigger] u[k]) == u[k] by {
                    assert(if hyphen_at(k) {
                        t[k] == '-'
                    } else {
                        hex_digit(t[k])
                    });
                }
            }
        }
        assert(u.len() == 36);
    }
}

/// A player as it is stored.
#[derive(Debug)]
pub struct PlayerSave {
    pub uuid: String,
    pub name: String,
    pub x: i32,
    pub y: i32,
    pub hp_cur: i32,
    pub skills: Skills,
    pub inv: Vec<InvSlot>,
    pub equipment: Equipment,
}

/// A player as it is stored.
#[verifier::ext_equal]
pub struct SaveV {
    pub uuid: Seq<char>,
    pub name: Seq<char>,
    pub x: i32,
    pub y: i32,
    pub hp_cur: i32,
    pub skills: Skills,
    pub inv: Seq<SlotV>,
    pub equipment: EquipV,
}

impl View for PlayerSave {
    type V = SaveV;

    open spec fn view(&self) -> SaveV {
        SaveV {
            uuid: self.uuid@,
            name: self.name@,
            x: self.x,
            y: self.y,
            hp_cur: self.hp_cur,
            skills: self.skills,
            inv: slots_of(self.inv@),
            equipment: self.equipment@,
        }
    }
}

impl Clone for PlayerSave {
    fn clone(&self) -> (r: Self)
        ensures
            r@ == self@,
    {
        PlayerSave {
            uuid: self.uuid.clone(),
            name: self.name.clone(),
            x: self.x,
            y: self.y,
            hp_cur: self.hp_cur,
            skills: self.skills,
            inv: copy_slots(self.inv.as_slice()),
            equipment: self.equipment.clone(),
        }
    }
}

/// What a record, if there is one, stores.
pub open spec fn view_of(saved: Option<PlayerSave>) -> Option<SaveV> {
    match saved {
        Some(s) => Some(s@),
        None => None,
    }
}

/// What a list of records stores.
pub open spec fn saves_of(v: Seq<PlayerSave>) -> Seq<SaveV> {
    Seq::new(v.len(), |k: int| v[k]@)
}

impl SaveV {
    /// The levels follow from the experience and the inventory has 28 slots.
    pub open spec fn wf(self) -> bool {
        self.skills.wf() && levels_right(self.skills) && self.inv.len() == INV_SIZE
    }
}

/// What the store holds of a player. A part that cannot be read is missing.
#[derive(Debug)]
pub struct StoredPlayer {
    pub name: String,
    pub x: i32,
    pub y: i32,
    pub hp_cur: i32,
    pub skills: Option<Skills>,
    pub inv: Option<Vec<InvSlot>>,
    pub equipment: Option<Equipment>,
}

/// The skills with the levels that follow from the experience.
pub open spec fn releveled(s: Skills) -> Skills {
    Skills {
        woodcutting: level_of(s.woodcutting_xp),
        mining: level_of(s.mining_xp),
        fishing: level_of(s.fishing_xp),
        attack: level_of(s.attack_xp),
        strength: level_of(s.strength_xp),
        defence: level_of(s.defence_xp),
        hp: (level_of(s.hp_xp) + 9) as i32,
        ..s
    }
}

/// The inventory cut or filled up to 28 slots.
pub open spec fn resized(inv: Seq<SlotV>) -> Seq<SlotV> {
    Seq::new(
        INV_SIZE as nat,
        |k: int|
            if k < inv.len() {
                inv[k]
            } else {
                free_slot()
            },
    )
}

/// The player that the store holds: levels follow from experience, the inventory has
/// 28 slots, old fishing rods are oak rods, and missing parts are as at the start.
pub open spec fn restored(uuid: Seq<char>, row: StoredPlayer) -> SaveV {
    SaveV {
        uuid,
        name: row.name@,
        x: row.x,
        y: row.y,
        hp_cur: row.hp_cur,
        skills: releveled(
            match row.skills {
                Some(s) => s,
                None => starter_skills(),
            },
        ),
        inv: Seq::new(
            INV_SIZE as nat,
            |k: int|
                renamed_rod(
                    resized(
                        match row.inv {
                            Some(v) => slots_of(v@),
                            None => free_slots(),
                        },
                    )[k],
                ),
        ),
        equipment: renamed_hand(
            match row.equipment {
                Some(e) => e@,
                None => no_equipment(),
            },
        ),
    }
}

fn relevel(s: Skills) -> (r: Skills)
    ensures
        r == releveled(s),
        r.wf(),
        levels_right(r),
{
    Skills {
        woodcutting: level_from_xp(s.woodcutting_xp),
        mining: level_from_xp(s.mining_xp),
        fishing: level_from_xp(s.fishing_xp),
        attack: level_from_xp(s.attack_xp),
        strength: level_from_xp(s.strength_xp),
        defence: level_from_xp(s.defence_xp),
        hp: 10 + level_from_xp(s.hp_xp) - 1,
        woodcutting_xp: s.woodcutting_xp,
        mining_xp: s.mining_xp,
        fishing_xp: s.fishing_xp,
        attack_xp: s.attack_xp,
        strength_xp: s.strength_xp,
        defence_xp: s.defence_xp,
        hp_xp: s.hp_xp,
        angel_points: s.angel_points,
    }
}

fn resize_slots(inv: Vec<InvSlot>) -> (r: Vec<InvSlot>)
    ensures
        slots_of(r@) == resized(slots_of(inv@)),
        r@.len() == INV_SIZE,
{
    let mut out: Vec<InvSlot> = Vec::new();
    let mut k: usize = 0;
    while k < INV_SIZE
        invariant
            k <= INV_SIZE,
            out@.len() == k,
            forall|j: int| 0 <= j < k ==> (#[trigger] out@[j])@ == resized(slots_of(inv@))[j],
        decreases INV_SIZE - k,
    {
        if k < inv.len() {
            out.push(inv[k].clone());
        } else {
            out.push(InvSlot::default());
        }
        k = k + 1;
    }
    assert(slots_of(out@) =~= resized(slots_of(inv@)));
    out
}

/// The player that the store holds under an identity, if it holds one.
pub fn load_saved_player(uuid: &str, row: Option<StoredPlayer>) -> (r: Option<PlayerSave>)
    ensures
        r is Some == row is Some,
        r matches Some(s) ==> s@ == restored(uuid@, row.unwrap()) && s@.wf(),
{
    match row {
        None => None,
        Some(row) => {
            let ghost given = row;
            let skills: Skills = relevel(
                match row.skills {
                    Some(s) => s,
                    None => Skills::starter(),
                },
            );
            let stored: Vec<InvSlot> = match row.inv {
                Some(v) => v,
                None => empty_inventory(),
            };
            let mut inv: Vec<InvSlot> = resize_slots(stored);
            let mut equipment: Equipment = match row.equipment {
                Some(e) => e,
                None => Equipment::default(),
            };
            let ghost before = slots_of(inv@);
            migrate_legacy_fishing_rod(&mut inv, &mut equipment);
            assert(slots_of(inv@) =~= restored(uuid@, given).inv);
            Some(
                PlayerSave {
                    uuid: uuid.to_owned(),
                    name: row.name,
                    x: row.x,
                    y: row.y,
                    hp_cur: row.hp_cur,
                    skills,
                    inv,
                    equipment,
                },
            )
        },
    }
}

/// A player that was stored and read back is the one that was stored, but for old
/// fishing rods.
pub proof fn law_store_round_trip(s: SaveV, row: StoredPlayer)
    requires
        s.wf(),
        row.name@ == s.name,
        row.x == s.x,
        row.y == s.y,
        row.hp_cur == s.hp_cur,
        row.skills == Some(s.skills),
        row.inv is Some,
        slots_of(row.inv.unwrap()@) == s.inv,
        row.equipment is Some,
        row.equipment.unwrap()@ == s.equipment,
        forall|k: int| 0 <= k < s.inv.len() ==> (#[trigger] s.inv[k]).item != "fishing_rod"@
            || s.inv[k].qty <= 0,
        s.equipment.right_hand != "fishing_rod"@,
    ensures
        restored(s.uuid, row) == s,
{
    assert(restored(s.uuid, row).inv =~= s.inv);
}

/// How many coins a new player starts with.
pub const START_COINS: i32 = 50;

/// The inventory of a new player: its coins.
pub open spec fn start_inventory() -> Seq<SlotV> {
    free_slots().update(0, SlotV { item: "coins"@, qty: START_COINS })
}

fn starting_inventory() -> (r: Vec<InvSlot>)
    ensures
        slots_of(r@) == start_inventory(),
        r@.len() == INV_SIZE,
{
    let mut inv: Vec<InvSlot> = empty_inventory();
    inv[0] = InvSlot { item: "coins".to_owned(), qty: START_COINS };
    assert(slots_of(inv@) =~= start_inventory());
    inv
}

/// A number held between 1 and the greatest hit points.
pub open spec fn within(hp: i32, max: i32) -> i32 {
    if hp < 1 {
        1
    } else if hp > max {
        max
    } else {
        hp
    }
}

impl SimV {
    /// What would be stored of a player.
    pub open spec fn save_of(self, pid: u16) -> SaveV {
        let p = self.p(pid);
        SaveV {
            uuid: p.uuid,
            name: p.name,
            x: p.x as i32,
            y: p.y as i32,
            hp_cur: p.hp_cur as i32,
            skills: p.skills,
            inv: p.inv,
            equipment: p.equipment,
        }
    }

    /// What would be stored of the listed players that are there.
    pub open spec fn saves(self, ids: Seq<u16>) -> Seq<SaveV>
        decreases ids.len(),
    {
        if ids.len() == 0 {
            Seq::empty()
        } else if self.p(ids.last()).alive {
            self.saves(ids.drop_last()).push(self.save_of(ids.last()))
        } else {
            self.saves(ids.drop_last())
        }
    }

    /// How a player comes into the world: a stored one as it left, a new one at the
    /// start with its coins.
    pub open spec fn arrival(self, uuid: Seq<char>, name: Seq<char>, saved: Option<SaveV>) -> SaveV {
        match saved {
            Some(s) => SaveV {
                uuid,
                name: name_for(s.name),
                hp_cur: within(s.hp_cur, s.skills.hp),
                ..s
            },
            None => SaveV {
                uuid,
                name,
                x: self.player_spawn.0,
                y: self.player_spawn.1,
                hp_cur: 10,
                skills: starter_skills(),
                inv: start_inventory(),
                equipment: no_equipment(),
            },
        }
    }

    /// The world after a player was placed in it as the record says.
    pub open spec fn placed(self, uuid: Seq<char>, a: SaveV) -> SimV {
        let pid = self.players.next_slot();
        let s = SimV { players: self.players.spawn_player(uuid, a.name, a.x, a.y), ..self };
        s.put(
            pid,
            PlayerV {
                hp_cur: a.hp_cur as i16,
                hp_max: a.skills.hp as i16,
                skills: a.skills,
                inv: a.inv,
                equipment: a.equipment,
                ..s.p(pid)
            }.said("Welcome to Tradscape, /help for commands."@),
        )
    }

    /// The world after a player joined.
    #[verifier::opaque]
    pub open spec fn joined(
        self,
        uuid: Seq<char>,
        name: Seq<char>,
        saved: Option<SaveV>,
        today: i32,
    ) -> SimV {
        self.placed(uuid, self.arrival(uuid, name, saved)).visited(uuid, today)
    }
}

/// A player that joins leaves the map and the clock as they are, and there is room for it.
pub proof fn lemma_joined_keeps(
    s: SimV,
    uuid: Seq<char>,
    name: Seq<char>,
    saved: Option<SaveV>,
    today: i32,
)
    ensures
        s.joined(uuid, name, saved, today).objects == s.objects,
        s.joined(uuid, name, saved, today).tick == s.tick,
        free_ok(s.players.free, s.players.alive()) ==> s.players.slots.len() <= s.joined(
            uuid,
            name,
            saved,
            today,
        ).players.slots.len(),
{
    reveal(SimV::joined);
    let n = s.players.free.len() - 1;
    if s.players.free.len() > 0 && free_ok(s.players.free, s.players.alive()) {
        assert(s.players.free[n] < s.players.alive().len());
    }
}

/// A player that left and comes back has its name, its things and its skills, stands where
/// it stood and is as well as it was.
pub proof fn law_return(s: SimV, pid: u16, later: SimV, asked: Seq<char>, today: i32)
    requires
        s.has(pid),
        later.players.slots.len() < 0x1_0000,
        free_ok(later.players.free, later.players.alive()),
        name_for(s.p(pid).name) == s.p(pid).name,
        1 <= s.p(pid).hp_cur <= s.p(pid).skills.hp,
    ensures
        ({
            let old_self = s.p(pid);
            let new_self = later.joined(old_self.uuid, asked, Some(s.save_of(pid)), today).p(
                later.players.next_slot(),
            );
            &&& new_self.alive
            &&& new_self.uuid == old_self.uuid
            &&& new_self.name == old_self.name
            &&& (new_self.x, new_self.y) == (old_self.x, old_self.y)
            &&& new_self.hp_cur == old_self.hp_cur
            &&& new_self.skills == old_self.skills
            &&& new_self.inv == old_self.inv
            &&& new_self.equipment == old_self.equipment
        }),
{
    reveal(SimV::joined);
    let n = later.players.free.len() - 1;
    if later.players.free.len() > 0 {
        assert(later.players.free[n] < later.players.alive().len());
    }
}

impl Sim {
    /// What is to be stored of a player; nothing of one that is not there.
    pub fn snapshot_player_save(&self, pid: u16) -> (r: Option<PlayerSave>)
        requires
            self.wf(),
            self@.has(pid),
        ensures
            r is Some == self@.p(pid).alive,
            r matches Some(s) ==> s@ == self@.save_of(pid),
    {
        let i: usize = pid as usize;
        if !self.players.alive[i] {
            return None;
        }
        Some(
            PlayerSave {
                uuid: self.players.uuid[i].clone(),
                name: self.players.name[i].clone(),
                x: self.players.xs[i] as i32,
                y: self.players.ys[i] as i32,
                hp_cur: self.players.hp_cur[i] as i32,
                skills: self.players.skills[i],
                inv: copy_slots(self.players.inv[i].as_slice()),
                equipment: self.players.equipment[i].clone(),
            },
        )
    }

    /// What is to be stored of all live players, in order.
    pub fn save_all(&self) -> (r: Vec<PlayerSave>)
        requires
            self.wf(),
        ensures
            saves_of(r@) == self@.saves(self@.players.live()),
    {
        let ids: Vec<u16> = self.players.iter_live();
        proof {
            lemma_live_below(self@.players.alive(), self@.players.slots.len() as int);
        }
        let mut out: Vec<PlayerSave> = Vec::new();
        let mut k: usize = 0;
        assert(ids@.take(0) =~= Seq::<u16>::empty());
        assert(saves_of(out@) =~= Seq::<SaveV>::empty());
        while k < ids.len()
            invariant
                k <= ids.len(),
                self.wf(),
                ids@ == self@.players.live(),
                forall|j: int|
                    0 <= j < ids@.len() ==> (#[trigger] ids@[j]) < self@.players.slots.len(),
                saves_of(out@) == self@.saves(ids@.take(k as int)),
            decreases ids.len() - k,
        {
            assert(ids@.take(k + 1).drop_last() =~= ids@.take(k as int));
            let ghost had = saves_of(out@);
            if let Some(rec) = self.snapshot_player_save(ids[k]) {
                out.push(rec);
                assert(saves_of(out@) =~= had.push(rec@));
            }
            k = k + 1;
        }
        assert(ids@.take(k as int) =~= ids@);
        out
    }

    fn arrive(&self, uuid: &str, name: &str, saved: Option<PlayerSave>) -> (r: PlayerSave)
        requires
            saved matches Some(s) ==> s@.wf(),
        ensures
            r@ == self@.arrival(uuid@, name@, view_of(saved)),
            r@.wf(),
            1 <= r.hp_cur <= r.skills.hp,
    {
        proof {
            law_level_of_nothing();
        }
        match saved {
            Some(s) => {
                let max: i32 = s.skills.hp;
                let hp: i32 = if s.hp_cur < 1 {
                    1
                } else if s.hp_cur > max {
                    max
                } else {
                    s.hp_cur
                };
                PlayerSave {
                    uuid: uuid.to_owned(),
                    name: clean_name(s.name.as_str()),
                    x: s.x,
                    y: s.y,
                    hp_cur: hp,
                    skills: s.skills,
                    inv: s.inv,
                    equipment: s.equipment,
                }
            },
            None => PlayerSave {
                uuid: uuid.to_owned(),
                name: name.to_owned(),
                x: self.player_spawn.0,
                y: self.player_spawn.1,
                hp_cur: 10,
                skills: Skills::starter(),
                inv: starting_inventory(),
                equipment: Equipment::default(),
            },
        }
    }

    /// Lets a player join: as it was stored, or as a new one. Returns its number.
    pub fn join_player(
        &mut self,
        uuid: &str,
        requested_name: &str,
        saved: Option<PlayerSave>,
        today: i32,
    ) -> (r: u16)
        requires
            old(self).wf(),
            saved matches Some(s) ==> s@.wf(),
        ensures
            final(self).wf(),
            r == old(self)@.players.next_slot(),
            final(self)@.has(r),
            final(self)@ == old(self)@.joined(uuid@, requested_name@, view_of(saved), today),
    {
        let save: PlayerSave = self.arrive(uuid, requested_name, saved);
        reveal(SimV::joined);
        self.place_player(uuid, save, today)
    }

    fn place_player(&mut self, uuid: &str, save: PlayerSave, today: i32) -> (r: u16)
        requires
            old(self).wf(),
            save@.wf(),
            1 <= save.hp_cur <= save.skills.hp,
        ensures
            final(self).wf(),
            r == old(self)@.players.next_slot(),
            final(self)@.has(r),
            final(self)@ == old(self)@.placed(uuid@, save@).visited(uuid@, today),
    {
        proof {
            law_level_of_nothing();
        }
        let idx: u16 = self.players.spawn(uuid.to_owned(), save.name, save.x, save.y);
        let i: usize = idx as usize;
        self.players.set_hp(i, save.hp_cur as i16);
        self.players.set_hp_max(i, save.skills.hp as i16);
        self.players.set_skills(i, save.skills);
        self.players.set_inv(i, save.inv);
        self.players.set_equipment(i, save.equipment);
        self.players.push_log(i, "Welcome to Tradscape, /help for commands.".to_owned());
        self.note_player_visit_today(uuid, today);
        idx
    }
}

} // verus!
