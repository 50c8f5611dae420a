//! What the server sends: the first frame, the full picture of the world, what has
//! changed since, and the lines and events of a tick.
//!
//! Every frame starts with a byte for its kind. A change of an entity is a record: a
//! byte with the pool in its upper three bits, the operation in the two below, and
//! in the lowest bit whether the number of the entity has four bytes in place of
//! two; the number; and, unless the entity goes, the mask of the components that
//! follow, lowest bit first. A byte of ones ends the records.

use vstd::prelude::*;
use crate::codec::{le16, le32, long_text, short_text, BufWriter};
use crate::json::{
    equipment_json, equipment_text, intent_json, intent_text, inv_json, inv_text, obj_json, obj_text,
    skills_json, skills_text, target_json, target_text, ui_json, ui_text,
};
use crate::pools::{GroundV, MobV, PlayerV};
use crate::sim::{EventRec, Sim, SimV};
use crate::text::same_text;
use crate::types::{chat_of, texts_of, ChatV};
use crate::types::{ChatMsg, Obj, Tile};

verus! {

broadcast use vstd::string::group_string_axioms;

pub const MSG_CLIENT_JOIN: u8 = 0x01;
pub const MSG_SERVER_INIT: u8 = 0x02;
pub const MSG_SERVER_BASELINE: u8 = 0x03;
pub const MSG_SERVER_DELTA: u8 = 0x04;
pub const MSG_CLIENT_ACK: u8 = 0x05;
pub const MSG_CLIENT_CMD: u8 = 0x06;
pub const MSG_SERVER_CHAT: u8 = 0x07;
pub const MSG_SERVER_EVENTS: u8 = 0x08;
pub const MSG_SERVER_LOG: u8 = 0x09;
pub const MSG_SERVER_CATALOGS: u8 = 0x0A;
pub const MSG_SERVER_YOUVIEW: u8 = 0x0B;

pub const POOL_PLAYER: u8 = 0;
pub const POOL_MOB: u8 = 1;
pub const POOL_GROUND: u8 = 2;
pub const POOL_OBJECT: u8 = 3;
pub const POOL_TERMINATOR: u8 = 0xFF;

pub const OP_UPDATE: u8 = 0;
pub const OP_SPAWN: u8 = 1;
pub const OP_DESPAWN: u8 = 2;

pub const PC_X: u16 = 0x0001;
pub const PC_Y: u16 = 0x0002;
pub const PC_HP_CUR: u16 = 0x0004;
pub const PC_HP_MAX: u16 = 0x0008;
pub const PC_NAME: u16 = 0x0010;
pub const PC_SKILLS: u16 = 0x0020;
pub const PC_INV: u16 = 0x0040;
pub const PC_EQUIP: u16 = 0x0080;
pub const PC_INTENT: u16 = 0x0100;
pub const PC_TARGET: u16 = 0x0200;
pub const PC_UI: u16 = 0x0400;

pub const MC_X: u16 = 0x0001;
pub const MC_Y: u16 = 0x0002;
pub const MC_HP_CUR: u16 = 0x0004;
pub const MC_HP_MAX: u16 = 0x0008;
pub const MC_KIND: u16 = 0x0010;

pub const GC_X: u16 = 0x0001;
pub const GC_Y: u16 = 0x0002;
pub const GC_ITEM: u16 = 0x0004;
pub const GC_QTY: u16 = 0x0008;

pub const OC_OBJ: u16 = 0x0001;

/// Every component of a player.
pub const PC_ALL: u16 = 0x07ff;

/// Every component of a creature.
pub const MC_ALL: u16 = 0x001f;

/// Every component of a stack on the ground.
pub const GC_ALL: u16 = 0x000f;

/// The layout of the components. Where client and server differ in it, its hash
/// differs.
pub const SCHEMA_DECL: &'static str = "v1|player:x:i16,y:i16,hp_cur:i16,hp_max:i16,name:str,skills:json,inv:json,equipment:json,intent:json,target:json,ui:json|mob:x:i16,y:i16,hp_cur:i16,hp_max:i16,kind_id:u8|ground:x:i16,y:i16,item:str,qty:i32|object:obj:json";

/// The SHA-256 hash of bytes.
pub uninterp spec fn sha256_of(data: Seq<u8>) -> Seq<u8>;

/// `Sha256::digest` of the crate `sha2`: the 32 bytes of the SHA-256 hash.
#[verifier::external_body]
fn sha256(data: &[u8]) -> (r: Vec<u8>)
    ensures
        r@ == sha256_of(data@),
        r@.len() == 32,
{
    <sha2::Sha256 as sha2::Digest>::digest(data).to_vec()
}

/// The number of the first four bytes of a hash.
pub fn hash_prefix(h: &[u8]) -> (r: u32)
    requires
        h@.len() >= 4,
    ensures
        r == crate::codec::from_le32(h@, 0),
{
    h[0] as u32 + 256 * (h[1] as u32) + 65536 * (h[2] as u32) + 16777216 * (h[3] as u32)
}

/// The number by which client and server compare their layouts: the first four
/// bytes of the layout's hash.
pub fn schema_hash() -> (r: u32)
    ensures
        r == schema_number(),
{
    let h: Vec<u8> = sha256(SCHEMA_DECL.as_bytes());
    hash_prefix(h.as_slice())
}

/// The number by which client and server compare their layouts.
pub open spec fn schema_number() -> u32 {
    crate::codec::from_le32(sha256_of(vstd::utf8::encode_utf8(SCHEMA_DECL@)), 0)
}

/// A mask with another bit where a condition holds.
pub open spec fn or_if(mask: u16, b: bool, bit: u16) -> u16 {
    if b {
        mask | bit
    } else {
        mask
    }
}

fn with_bit(mask: u16, b: bool, bit: u16) -> (r: u16)
    ensures
        r == or_if(mask, b, bit),
{
    if b {
        mask | bit
    } else {
        mask
    }
}

/// The bytes of a component where its bit is in the mask.
pub open spec fn part(mask: u16, bit: u16, bytes: Seq<u8>) -> Seq<u8> {
    if mask & bit != 0 {
        bytes
    } else {
        Seq::empty()
    }
}

/// The first byte of a record.
pub open spec fn record_head(pool: u8, op: u8) -> u8 {
    (pool << 5u8) | (op << 3u8)
}

fn head(pool: u8, op: u8) -> (r: u8)
    ensures
        r == record_head(pool, op),
{
    (pool << 5u8) | (op << 3u8)
}

/// The record of an entity that goes.
pub open spec fn gone(pool: u8, idx: u16) -> Seq<u8> {
    seq![record_head(pool, OP_DESPAWN)] + le16(idx)
}

/// The byte of a tile.
pub open spec fn tile_byte(t: Tile) -> u8 {
    match t {
        Tile::Grass => 0,
        Tile::Dirt => 1,
        Tile::Sand => 2,
        Tile::Water => 3,
        Tile::Stone => 4,
        Tile::Path => 5,
    }
}

/// The byte of a tile.
pub fn tile_to_u8(t: Tile) -> (r: u8)
    ensures
        r == tile_byte(t),
{
    match t {
        Tile::Grass => 0,
        Tile::Dirt => 1,
        Tile::Sand => 2,
        Tile::Water => 3,
        Tile::Stone => 4,
        Tile::Path => 5,
    }
}

/// Different tiles have different bytes.
pub proof fn law_tile_bytes_differ(a: Tile, b: Tile)
    ensures
        tile_byte(a) == tile_byte(b) <==> a == b,
{
}

/// The frame that tells a client the size of the map, its own number and identity,
/// and the tiles.
#[verifier::opaque]
pub open spec fn init_frame(s: SimV, your_pid: u16, uuid: Seq<char>) -> Seq<u8> {
    seq![MSG_SERVER_INIT] + le32(schema_number()) + le16(s.w as u16) + le16(s.h as u16) + le16(
        your_pid,
    ) + short_text(uuid) + le32(s.tiles.len() as u32) + Seq::new(
        s.tiles.len(),
        |k: int| tile_byte(s.tiles[k]),
    )
}

/// The frame that tells a client the size of the map, its own number and identity,
/// and the tiles.
pub fn encode_init(sim: &Sim, your_pid: u16, uuid: &str) -> (r: Vec<u8>)
    ensures
        r@ == init_frame(sim@, your_pid, uuid@),
{
    reveal(init_frame);
    let mut w = BufWriter::new();
    w.u8(MSG_SERVER_INIT);
    assert(w@ =~= seq![MSG_SERVER_INIT]);
    w.u32(schema_hash());
    w.u16(sim.w as u16);
    w.u16(sim.h as u16);
    w.u16(your_pid);
    w.str_u8(uuid);
    w.u32(sim.tiles.len() as u32);
    let ghost top = w@;
    let mut k: usize = 0;
    assert(top + Seq::<u8>::empty() =~= top);
    assert(Seq::new(0, |k: int| tile_byte(sim@.tiles[k])) =~= Seq::<u8>::empty());
    while k < sim.tiles.len()
        invariant
            k <= sim.tiles.len(),
            w@ == top + Seq::new(k as nat, |k: int| tile_byte(sim@.tiles[k])),
        decreases sim.tiles.len() - k,
    {
        w.u8(tile_to_u8(sim.tiles[k]));
        assert(w@ =~= top + Seq::new(k as nat + 1, |k: int| tile_byte(sim@.tiles[k])));
        k = k + 1;
    }
    w.into_vec()
}

/// What a client knows of a player.
#[derive(Debug)]
pub struct PlayerWireMirror {
    pub seen: bool,
    pub x: i16,
    pub y: i16,
    pub hp_cur: i16,
    pub hp_max: i16,
    pub name: String,
    pub skills_json: String,
    pub inv_json: String,
    pub equipment_json: String,
    pub intent_json: String,
    pub target_json: String,
    pub ui_json: String,
}

/// What a client knows of a player.
#[verifier::ext_equal]
pub struct PlayerMirrorV {
    pub seen: bool,
    pub x: i16,
    pub y: i16,
    pub hp_cur: i16,
    pub hp_max: i16,
    pub name: Seq<char>,
    pub skills_json: Seq<char>,
    pub inv_json: Seq<char>,
    pub equipment_json: Seq<char>,
    pub intent_json: Seq<char>,
    pub target_json: Seq<char>,
    pub ui_json: Seq<char>,
}

impl View for PlayerWireMirror {
    type V = PlayerMirrorV;

    open spec fn view(&self) -> PlayerMirrorV {
        PlayerMirrorV {
            seen: self.seen,
            x: self.x,
            y: self.y,
            hp_cur: self.hp_cur,
            hp_max: self.hp_max,
            name: self.name@,
            skills_json: self.skills_json@,
            inv_json: self.inv_json@,
            equipment_json: self.equipment_json@,
            intent_json: self.intent_json@,
            target_json: self.target_json@,
            ui_json: self.ui_json@,
        }
    }
}

/// What a client knows of an entity that it was told nothing of.
pub open spec fn unknown_player() -> PlayerMirrorV {
    PlayerMirrorV {
        seen: false,
        x: 0,
        y: 0,
        hp_cur: 0,
        hp_max: 0,
        name: Seq::empty(),
        skills_json: Seq::empty(),
        inv_json: Seq::empty(),
        equipment_json: Seq::empty(),
        intent_json: Seq::empty(),
        target_json: Seq::empty(),
        ui_json: Seq::empty(),
    }
}

impl Default for PlayerWireMirror {
    fn default() -> (r: Self)
        ensures
            r@ == unknown_player(),
    {
        PlayerWireMirror {
            seen: false,
            x: 0,
            y: 0,
            hp_cur: 0,
            hp_max: 0,
            name: String::new(),
            skills_json: String::new(),
            inv_json: String::new(),
            equipment_json: String::new(),
            intent_json: String::new(),
            target_json: String::new(),
            ui_json: String::new(),
        }
    }
}

impl Clone for PlayerWireMirror {
    fn clone(&self) -> (r: Self)
        ensures
            r@ == self@,
    {
        PlayerWireMirror {
            seen: self.seen,
            x: self.x,
            y: self.y,
            hp_cur: self.hp_cur,
            hp_max: self.hp_max,
            name: self.name.clone(),
            skills_json: self.skills_json.clone(),
            inv_json: self.inv_json.clone(),
            equipment_json: self.equipment_json.clone(),
            intent_json: self.intent_json.clone(),
            target_json: self.target_json.clone(),
            ui_json: self.ui_json.clone(),
        }
    }
}

/// What a client knows of a creature.
#[derive(Debug)]
pub struct MobWireMirror {
    pub seen: bool,
    pub x: i16,
    pub y: i16,
    pub hp_cur: i16,
    pub hp_max: i16,
    pub kind_id: u8,
}

/// What a client knows of a creature.
#[verifier::ext_equal]
pub struct MobMirrorV {
    pub seen: bool,
    pub x: i16,
    pub y: i16,
    pub hp_cur: i16,
    pub hp_max: i16,
    pub kind_id: u8,
}

impl View for MobWireMirror {
    type V = MobMirrorV;

    open spec fn view(&self) -> MobMirrorV {
        MobMirrorV {
            seen: self.seen,
            x: self.x,
            y: self.y,
            hp_cur: self.hp_cur,
            hp_max: self.hp_max,
            kind_id: self.kind_id,
        }
    }
}

/// What a client knows of an entity that it was told nothing of.
pub open spec fn unknown_mob() -> MobMirrorV {
    MobMirrorV {
        seen: false,
        x: 0,
        y: 0,
        hp_cur: 0,
        hp_max: 0,
        kind_id: 0,
    }
}

impl Default for MobWireMirror {
    fn default() -> (r: Self)
        ensures
            r@ == unknown_mob(),
    {
        MobWireMirror {
            seen: false,
            x: 0,
            y: 0,
            hp_cur: 0,
            hp_max: 0,
            kind_id: 0,
        }
    }
}

impl Clone for MobWireMirror {
    fn clone(&self) -> (r: Self)
        ensures
            r@ == self@,
    {
        MobWireMirror {
            seen: self.seen,
            x: self.x,
            y: self.y,
            hp_cur: self.hp_cur,
            hp_max: self.hp_max,
            kind_id: self.kind_id,
        }
    }
}

/// What a client knows of a stack on the ground.
#[derive(Debug)]
pub struct GroundWireMirror {
    pub seen: bool,
    pub x: i16,
    pub y: i16,
    pub item: String,
    pub qty: i32,
}

/// What a client knows of a stack on the ground.
#[verifier::ext_equal]
pub struct GroundMirrorV {
    pub seen: bool,
    pub x: i16,
    pub y: i16,
    pub item: Seq<char>,
    pub qty: i32,
}

impl View for GroundWireMirror {
    type V = GroundMirrorV;

    open spec fn view(&self) -> GroundMirrorV {
        GroundMirrorV {
            seen: self.seen,
            x: self.x,
            y: self.y,
            item: self.item@,
            qty: self.qty,
        }
    }
}

/// What a client knows of an entity that it was told nothing of.
pub open spec fn unknown_ground() -> GroundMirrorV {
    GroundMirrorV {
        seen: false,
        x: 0,
        y: 0,
        item: Seq::empty(),
        qty: 0,
    }
}

impl Default for GroundWireMirror {
    fn default() -> (r: Self)
        ensures
            r@ == unknown_ground(),
    {
        GroundWireMirror {
            seen: false,
            x: 0,
            y: 0,
            item: String::new(),
            qty: 0,
        }
    }
}

impl Clone for GroundWireMirror {
    fn clone(&self) -> (r: Self)
        ensures
            r@ == self@,
    {
        GroundWireMirror {
            seen: self.seen,
            x: self.x,
            y: self.y,
            item: self.item.clone(),
            qty: self.qty,
        }
    }
}

/// What a client knows of an object: its JSON.
#[derive(Debug)]
pub struct ObjWireMirror {
    pub json: String,
}

impl Default for ObjWireMirror {
    fn default() -> (r: Self)
        ensures
            r.json@ == Seq::<char>::empty(),
    {
        let r = ObjWireMirror { json: String::new() };
        assert(r.json@ =~= Seq::<char>::empty());
        r
    }
}

impl Clone for ObjWireMirror {
    fn clone(&self) -> (r: Self)
        ensures
            r.json@ == self.json@,
    {
        ObjWireMirror { json: self.json.clone() }
    }
}

/// What a client knows of the world.
#[derive(Debug)]
pub struct ClientWireState {
    pub players: Vec<PlayerWireMirror>,
    pub mobs: Vec<MobWireMirror>,
    pub ground: Vec<GroundWireMirror>,
    pub objects: Vec<ObjWireMirror>,
    pub last_sent_tick: u32,
}

/// What a client knows of the world.
#[verifier::ext_equal]
pub struct WireV {
    pub players: Seq<PlayerMirrorV>,
    pub mobs: Seq<MobMirrorV>,
    pub ground: Seq<GroundMirrorV>,
    pub objects: Seq<Seq<char>>,
    pub last_sent_tick: u32,
}

/// What the mirrors of a list hold.
pub open spec fn player_mirrors(v: Seq<PlayerWireMirror>) -> Seq<PlayerMirrorV> {
    Seq::new(v.len(), |k: int| v[k]@)
}

/// What the mirrors of a list hold.
pub open spec fn mob_mirrors(v: Seq<MobWireMirror>) -> Seq<MobMirrorV> {
    Seq::new(v.len(), |k: int| v[k]@)
}

/// What the mirrors of a list hold.
pub open spec fn ground_mirrors(v: Seq<GroundWireMirror>) -> Seq<GroundMirrorV> {
    Seq::new(v.len(), |k: int| v[k]@)
}

/// What the mirrors of a list hold.
pub open spec fn object_mirrors(v: Seq<ObjWireMirror>) -> Seq<Seq<char>> {
    Seq::new(v.len(), |k: int| v[k].json@)
}

impl View for ClientWireState {
    type V = WireV;

    open spec fn view(&self) -> WireV {
        WireV {
            players: player_mirrors(self.players@),
            mobs: mob_mirrors(self.mobs@),
            ground: ground_mirrors(self.ground@),
            objects: object_mirrors(self.objects@),
            last_sent_tick: self.last_sent_tick,
        }
    }
}

/// A client that knows nothing.
pub open spec fn knows_nothing() -> WireV {
    WireV {
        players: Seq::empty(),
        mobs: Seq::empty(),
        ground: Seq::empty(),
        objects: Seq::empty(),
        last_sent_tick: 0,
    }
}

impl Default for ClientWireState {
    fn default() -> (r: Self)
        ensures
            r@ == knows_nothing(),
    {
        let r = ClientWireState {
            players: Vec::new(),
            mobs: Vec::new(),
            ground: Vec::new(),
            objects: Vec::new(),
            last_sent_tick: 0,
        };
        assert(r@ =~= knows_nothing());
        r
    }
}

/// A list filled up to a length.
pub open spec fn filled<T>(s: Seq<T>, n: nat, x: T) -> Seq<T> {
    Seq::new(
        if s.len() < n {
            n
        } else {
            s.len()
        },
        |k: int|
            if k < s.len() {
                s[k]
            } else {
                x
            },
    )
}

impl WireV {
    /// What the client knows, with room for everything in a world.
    pub open spec fn with_room(self, s: SimV) -> WireV {
        WireV {
            players: filled(self.players, s.players.slots.len(), unknown_player()),
            mobs: filled(self.mobs, s.mobs.slots.len(), unknown_mob()),
            ground: filled(self.ground, s.ground.slots.len(), unknown_ground()),
            objects: filled(self.objects, s.objects.len(), Seq::empty()),
            last_sent_tick: self.last_sent_tick,
        }
    }
}

impl ClientWireState {
    /// Makes room for so many players.
    pub fn ensure_player_cap(&mut self, cap: usize)
        ensures
            final(self)@ == (WireV {
                players: filled(old(self)@.players, cap as nat, unknown_player()),
                ..old(self)@
            }),
    {
        let ghost start = self.players@;
        while self.players.len() < cap
            invariant
                self.players@.len() >= start.len(),
                self.players@.len() <= cap || self.players@.len() == start.len(),
                start == old(self).players@,
                *self == (ClientWireState { players: self.players, ..*old(self) }),
                forall|k: int| 0 <= k < start.len() ==> #[trigger] self.players@[k] == start[k],
                forall|k: int|
                    start.len() <= k < self.players@.len() ==> (#[trigger] self.players@[k])@
                        == unknown_player(),
            decreases cap - self.players.len(),
        {
            self.players.push(PlayerWireMirror::default());
        }
        assert(player_mirrors(self.players@) =~= filled(player_mirrors(start), cap as nat, unknown_player()));
    }

    /// Makes room for so many creatures.
    pub fn ensure_mob_cap(&mut self, cap: usize)
        ensures
            final(self)@ == (WireV {
                mobs: filled(old(self)@.mobs, cap as nat, unknown_mob()),
                ..old(self)@
            }),
    {
        let ghost start = self.mobs@;
        while self.mobs.len() < cap
            invariant
                self.mobs@.len() >= start.len(),
                self.mobs@.len() <= cap || self.mobs@.len() == start.len(),
                start == old(self).mobs@,
                *self == (ClientWireState { mobs: self.mobs, ..*old(self) }),
                forall|k: int| 0 <= k < start.len() ==> #[trigger] self.mobs@[k] == start[k],
                forall|k: int|
                    start.len() <= k < self.mobs@.len() ==> (#[trigger] self.mobs@[k])@
                        == unknown_mob(),
            decreases cap - self.mobs.len(),
        {
            self.mobs.push(MobWireMirror::default());
        }
        assert(mob_mirrors(self.mobs@) =~= filled(mob_mirrors(start), cap as nat, unknown_mob()));
    }

    /// Makes room for so many stacks on the ground.
    pub fn ensure_ground_cap(&mut self, cap: usize)
        ensures
            final(self)@ == (WireV {
                ground: filled(old(self)@.ground, cap as nat, unknown_ground()),
                ..old(self)@
            }),
    {
        let ghost start = self.ground@;
        while self.ground.len() < cap
            invariant
                self.ground@.len() >= start.len(),
                self.ground@.len() <= cap || self.ground@.len() == start.len(),
                start == old(self).ground@,
                *self == (ClientWireState { ground: self.ground, ..*old(self) }),
                forall|k: int| 0 <= k < start.len() ==> #[trigger] self.ground@[k] == start[k],
                forall|k: int|
                    start.len() <= k < self.ground@.len() ==> (#[trigger] self.ground@[k])@
                        == unknown_ground(),
            decreases cap - self.ground.len(),
        {
            self.ground.push(GroundWireMirror::default());
        }
        assert(ground_mirrors(self.ground@) =~= filled(ground_mirrors(start), cap as nat, unknown_ground()));
    }

    /// Makes room for so many objects.
    pub fn ensure_objects(&mut self, n: usize)
        ensures
            final(self)@ == (WireV {
                objects: filled(old(self)@.objects, n as nat, Seq::empty()),
                ..old(self)@
            }),
    {
        let ghost start = self.objects@;
        while self.objects.len() < n
            invariant
                self.objects@.len() >= start.len(),
                self.objects@.len() <= n || self.objects@.len() == start.len(),
                start == old(self).objects@,
                *self == (ClientWireState { objects: self.objects, ..*old(self) }),
                forall|k: int| 0 <= k < start.len() ==> #[trigger] self.objects@[k] == start[k],
                forall|k: int|
                    start.len() <= k < self.objects@.len() ==> (#[trigger] self.objects@[k]).json@
                        == Seq::<char>::empty(),
            decreases n - self.objects.len(),
        {
            self.objects.push(ObjWireMirror::default());
        }
        assert(object_mirrors(self.objects@) =~= filled(object_mirrors(start), n as nat, Seq::empty()));
    }

    fn make_room(&mut self, sim: &Sim)
        ensures
            final(self)@ == old(self)@.with_room(sim@),
            final(self).players@.len() >= sim@.players.slots.len(),
            final(self).mobs@.len() >= sim@.mobs.slots.len(),
            final(self).ground@.len() >= sim@.ground.slots.len(),
            final(self).objects@.len() >= sim@.objects.len(),
    {
        self.ensure_player_cap(sim.players.capacity());
        self.ensure_mob_cap(sim.mobs.capacity());
        self.ensure_ground_cap(sim.ground.capacity());
        self.ensure_objects(sim.objects.len());
        assert(self@.players.len() == self.players@.len());
        assert(self@.mobs.len() == self.mobs@.len());
        assert(self@.ground.len() == self.ground@.len());
        assert(self@.objects.len() == self.objects@.len());
    }
}

/// Bytes can be joined in any grouping.
proof fn lemma_assoc(a: Seq<u8>, b: Seq<u8>, c: Seq<u8>)
    ensures
        a + b + c == a + (b + c),
{
    assert(a + b + c =~= a + (b + c));
}

fn part_i16(w: &mut BufWriter, mask: u16, bit: u16, v: i16, slot: &mut i16)
    ensures
        final(w)@ == old(w)@ + part(mask, bit, le16(v as u16)),
        *final(slot) == if mask & bit != 0 {
            v
        } else {
            *old(slot)
        },
{
    if mask & bit != 0 {
        w.i16(v);
        *slot = v;
    }
    assert(w@ =~= old(w)@ + part(mask, bit, le16(v as u16)));
}

fn part_i32(w: &mut BufWriter, mask: u16, bit: u16, v: i32, slot: &mut i32)
    ensures
        final(w)@ == old(w)@ + part(mask, bit, le32(v as u32)),
        *final(slot) == if mask & bit != 0 {
            v
        } else {
            *old(slot)
        },
{
    if mask & bit != 0 {
        w.i32(v);
        *slot = v;
    }
    assert(w@ =~= old(w)@ + part(mask, bit, le32(v as u32)));
}

fn part_u8(w: &mut BufWriter, mask: u16, bit: u16, v: u8, slot: &mut u8)
    ensures
        final(w)@ == old(w)@ + part(mask, bit, seq![v]),
        *final(slot) == if mask & bit != 0 {
            v
        } else {
            *old(slot)
        },
{
    if mask & bit != 0 {
        w.u8(v);
        *slot = v;
    }
    assert(w@ =~= old(w)@ + part(mask, bit, seq![v]));
}

fn part_text(w: &mut BufWriter, mask: u16, bit: u16, v: String, slot: &mut String)
    ensures
        final(w)@ == old(w)@ + part(mask, bit, long_text(v@)),
        final(slot)@ == if mask & bit != 0 {
            v@
        } else {
            old(slot)@
        },
{
    if mask & bit != 0 {
        w.str_u16(v.as_str());
        *slot = v;
    }
    assert(w@ =~= old(w)@ + part(mask, bit, long_text(v@)));
}

/// What there is to know of a player.
pub open spec fn player_known(p: PlayerV) -> PlayerMirrorV {
    PlayerMirrorV {
        seen: true,
        x: p.x,
        y: p.y,
        hp_cur: p.hp_cur,
        hp_max: p.hp_max,
        name: p.name,
        skills_json: skills_json(p.skills),
        inv_json: inv_json(p.inv),
        equipment_json: equipment_json(p.equipment),
        intent_json: intent_json(p.intent),
        target_json: target_json(p.target),
        ui_json: ui_json(p.ui),
    }
}

/// The components of a player that a client does not know as they are.
pub open spec fn player_diff(p: PlayerV, m: PlayerMirrorV) -> u16 {
    let k = player_known(p);
    let m0 = or_if(0, k.x != m.x, PC_X);
    let m1 = or_if(m0, k.y != m.y, PC_Y);
    let m2 = or_if(m1, k.hp_cur != m.hp_cur, PC_HP_CUR);
    let m3 = or_if(m2, k.hp_max != m.hp_max, PC_HP_MAX);
    let m4 = or_if(m3, k.name != m.name, PC_NAME);
    let m5 = or_if(m4, k.skills_json != m.skills_json, PC_SKILLS);
    let m6 = or_if(m5, k.inv_json != m.inv_json, PC_INV);
    let m7 = or_if(m6, k.equipment_json != m.equipment_json, PC_EQUIP);
    let m8 = or_if(m7, k.intent_json != m.intent_json, PC_INTENT);
    let m9 = or_if(m8, k.target_json != m.target_json, PC_TARGET);
    let m10 = or_if(m9, k.ui_json != m.ui_json, PC_UI);
    m10
}

/// The place, hit points and name of a player in a record.
pub open spec fn player_plain_parts(p: PlayerV, mask: u16) -> Seq<u8> {
    part(mask, PC_X, le16(p.x as u16))
        + part(mask, PC_Y, le16(p.y as u16))
        + part(mask, PC_HP_CUR, le16(p.hp_cur as u16))
        + part(mask, PC_HP_MAX, le16(p.hp_max as u16))
        + part(mask, PC_NAME, long_text(p.name))
}

/// The components in JSON of a player in a record.
pub open spec fn player_json_parts(p: PlayerV, mask: u16) -> Seq<u8> {
    part(mask, PC_SKILLS, long_text(skills_json(p.skills)))
        + part(mask, PC_INV, long_text(inv_json(p.inv)))
        + part(mask, PC_EQUIP, long_text(equipment_json(p.equipment)))
        + part(mask, PC_INTENT, long_text(intent_json(p.intent)))
        + part(mask, PC_TARGET, long_text(target_json(p.target)))
        + part(mask, PC_UI, long_text(ui_json(p.ui)))
}

/// The components of a player in a record.
#[verifier::opaque]
pub open spec fn player_parts(p: PlayerV, mask: u16) -> Seq<u8> {
    player_plain_parts(p, mask) + player_json_parts(p, mask)
}

/// The record of a player.
#[verifier::opaque]
pub open spec fn player_record(p: PlayerV, idx: u16, op: u8, mask: u16) -> Seq<u8> {
    seq![record_head(POOL_PLAYER, op)] + le16(idx) + le16(mask) + player_parts(p, mask)
}

/// What a client knows of a player once it read the place, hit points and name of a record.
pub open spec fn player_told_plain(p: PlayerV, m: PlayerMirrorV, mask: u16) -> PlayerMirrorV {
    let k = player_known(p);
    PlayerMirrorV {
        x: if mask & PC_X != 0 {
            k.x
        } else {
            m.x
        },
        y: if mask & PC_Y != 0 {
            k.y
        } else {
            m.y
        },
        hp_cur: if mask & PC_HP_CUR != 0 {
            k.hp_cur
        } else {
            m.hp_cur
        },
        hp_max: if mask & PC_HP_MAX != 0 {
            k.hp_max
        } else {
            m.hp_max
        },
        name: if mask & PC_NAME != 0 {
            k.name
        } else {
            m.name
        },
        ..m
    }
}

/// What a client knows of a player once it read the components in JSON of a record.
pub open spec fn player_told_json(p: PlayerV, m: PlayerMirrorV, mask: u16) -> PlayerMirrorV {
    let k = player_known(p);
    PlayerMirrorV {
        skills_json: if mask & PC_SKILLS != 0 {
            k.skills_json
        } else {
            m.skills_json
        },
        inv_json: if mask & PC_INV != 0 {
            k.inv_json
        } else {
            m.inv_json
        },
        equipment_json: if mask & PC_EQUIP != 0 {
            k.equipment_json
        } else {
            m.equipment_json
        },
        intent_json: if mask & PC_INTENT != 0 {
            k.intent_json
        } else {
            m.intent_json
        },
        target_json: if mask & PC_TARGET != 0 {
            k.target_json
        } else {
            m.target_json
        },
        ui_json: if mask & PC_UI != 0 {
            k.ui_json
        } else {
            m.ui_json
        },
        ..m
    }
}

/// What a client knows of a player once it read the components of a record.
pub open spec fn player_told(p: PlayerV, m: PlayerMirrorV, mask: u16) -> PlayerMirrorV {
    player_told_json(p, player_told_plain(p, m, mask), mask)
}

/// The records of the first `n` entities for a client that knows nothing, and what it
/// knows after them.
pub open spec fn player_base(slots: Seq<PlayerV>, ms: Seq<PlayerMirrorV>, n: int) -> (Seq<u8>, Seq<PlayerMirrorV>)
    decreases n,
{
    if n <= 0 {
        (Seq::empty(), ms)
    } else {
        let (b, m) = player_base(slots, ms, n - 1);
        let h = (n - 1) as u16;
        let p = slots[h as int];
        if slots[n - 1].alive {
            (
                b + player_record(p, h, OP_SPAWN, PC_ALL),
                m.update(h as int, player_known(p)),
            )
        } else {
            (b, m)
        }
    }
}

/// The record of an entity for what a client knows, and what it knows after it: one that is
/// new to it, one that is gone, or the components that have changed; none where nothing has.
#[verifier::opaque]
pub open spec fn player_news(slots: Seq<PlayerV>, m: Seq<PlayerMirrorV>, i: int) -> (
    Seq<u8>,
    Seq<PlayerMirrorV>,
) {
    let h = i as u16;
    let p = slots[h as int];
    let live = slots[i].alive;
    let seen = m[i].seen;
    let mask = player_diff(slots[i], m[i]);
    if live && !seen {
        (player_record(p, h, OP_SPAWN, PC_ALL), m.update(h as int, player_known(p)))
    } else if !live && seen {
        (gone(POOL_PLAYER, h), m.update(i, PlayerMirrorV { seen: false, ..m[i] }))
    } else if live && mask != 0 {
        (
            player_record(p, h, OP_UPDATE, mask),
            m.update(h as int, player_told(p, m[h as int], mask)),
        )
    } else {
        (Seq::empty(), m)
    }
}

/// The records of the first `n` entities for what a client knows, and what it knows
/// after them.
pub open spec fn player_delta(slots: Seq<PlayerV>, ms: Seq<PlayerMirrorV>, n: int) -> (
    Seq<u8>,
    Seq<PlayerMirrorV>,
)
    decreases n,
{
    if n <= 0 {
        (Seq::empty(), ms)
    } else {
        let (b, m) = player_delta(slots, ms, n - 1);
        let (record, next) = player_news(slots, m, n - 1);
        (b + record, next)
    }
}

fn player_diff_mask(sim: &Sim, m: &PlayerWireMirror, i: usize) -> (r: u16)
    requires
        sim.players.wf(),
        i < sim@.players.slots.len(),
    ensures
        r == player_diff(sim@.players.slots[i as int], m@),
{
    let m0: u16 = with_bit(0, sim.players.xs[i] != m.x, PC_X);
    let m1: u16 = with_bit(m0, sim.players.ys[i] != m.y, PC_Y);
    let m2: u16 = with_bit(m1, sim.players.hp_cur[i] != m.hp_cur, PC_HP_CUR);
    let m3: u16 = with_bit(m2, sim.players.hp_max[i] != m.hp_max, PC_HP_MAX);
    let m4: u16 = with_bit(m3, !same_text(sim.players.name[i].as_str(), m.name.as_str()), PC_NAME);
    let m5: u16 = with_bit(m4, !same_text(skills_text(&sim.players.skills[i]).as_str(), m.skills_json.as_str()), PC_SKILLS);
    let m6: u16 = with_bit(m5, !same_text(inv_text(sim.players.inv[i].as_slice()).as_str(), m.inv_json.as_str()), PC_INV);
    let m7: u16 = with_bit(m6, !same_text(equipment_text(&sim.players.equipment[i]).as_str(), m.equipment_json.as_str()), PC_EQUIP);
    let m8: u16 = with_bit(m7, !same_text(intent_text(sim.players.intent[i]).as_str(), m.intent_json.as_str()), PC_INTENT);
    let m9: u16 = with_bit(m8, !same_text(target_text(sim.players.target[i]).as_str(), m.target_json.as_str()), PC_TARGET);
    let m10: u16 = with_bit(m9, !same_text(ui_text(sim.players.ui[i]).as_str(), m.ui_json.as_str()), PC_UI);
    m10
}

fn write_player_plain_parts(w: &mut BufWriter, sim: &Sim, m: &mut PlayerWireMirror, i: usize, mask: u16)
    requires
        sim.players.wf(),
        i < sim@.players.slots.len(),
    ensures
        final(w)@ == old(w)@ + player_plain_parts(sim@.players.slots[i as int], mask),
        final(m)@ == player_told_plain(sim@.players.slots[i as int], old(m)@, mask),
{
    let ghost p = sim@.players.slots[i as int];
    let ghost top = w@;
    part_i16(w, mask, PC_X, sim.players.xs[i], &mut m.x);
    let ghost g0 = part(mask, PC_X, le16(p.x as u16));
    part_i16(w, mask, PC_Y, sim.players.ys[i], &mut m.y);
    let ghost g1 = g0 + part(mask, PC_Y, le16(p.y as u16));
    proof {
        lemma_assoc(top, g0, part(mask, PC_Y, le16(p.y as u16)));
    }
    part_i16(w, mask, PC_HP_CUR, sim.players.hp_cur[i], &mut m.hp_cur);
    let ghost g2 = g1 + part(mask, PC_HP_CUR, le16(p.hp_cur as u16));
    proof {
        lemma_assoc(top, g1, part(mask, PC_HP_CUR, le16(p.hp_cur as u16)));
    }
    part_i16(w, mask, PC_HP_MAX, sim.players.hp_max[i], &mut m.hp_max);
    let ghost g3 = g2 + part(mask, PC_HP_MAX, le16(p.hp_max as u16));
    proof {
        lemma_assoc(top, g2, part(mask, PC_HP_MAX, le16(p.hp_max as u16)));
    }
    let text: String = if mask & PC_NAME != 0 {
        sim.players.name[i].clone()
    } else {
        String::new()
    };
    part_text(w, mask, PC_NAME, text, &mut m.name);
    assert(part(mask, PC_NAME, long_text(text@)) == part(mask, PC_NAME, long_text(p.name)));
    let ghost g4 = g3 + part(mask, PC_NAME, long_text(p.name));
    proof {
        lemma_assoc(top, g3, part(mask, PC_NAME, long_text(p.name)));
    }
}

fn write_player_json_parts(w: &mut BufWriter, sim: &Sim, m: &mut PlayerWireMirror, i: usize, mask: u16)
    requires
        sim.players.wf(),
        i < sim@.players.slots.len(),
    ensures
        final(w)@ == old(w)@ + player_json_parts(sim@.players.slots[i as int], mask),
        final(m)@ == player_told_json(sim@.players.slots[i as int], old(m)@, mask),
{
    let ghost p = sim@.players.slots[i as int];
    let ghost top = w@;
    let text: String = if mask & PC_SKILLS != 0 {
        skills_text(&sim.players.skills[i])
    } else {
        String::new()
    };
    part_text(w, mask, PC_SKILLS, text, &mut m.skills_json);
    assert(part(mask, PC_SKILLS, long_text(text@)) == part(mask, PC_SKILLS, long_text(skills_json(p.skills))));
    let ghost g0 = part(mask, PC_SKILLS, long_text(skills_json(p.skills)));
    let text: String = if mask & PC_INV != 0 {
        inv_text(sim.players.inv[i].as_slice())
    } else {
        String::new()
    };
    part_text(w, mask, PC_INV, text, &mut m.inv_json);
    assert(part(mask, PC_INV, long_text(text@)) == part(mask, PC_INV, long_text(inv_json(p.inv))));
    let ghost g1 = g0 + part(mask, PC_INV, long_text(inv_json(p.inv)));
    proof {
        lemma_assoc(top, g0, part(mask, PC_INV, long_text(inv_json(p.inv))));
    }
    let text: String = if mask & PC_EQUIP != 0 {
        equipment_text(&sim.players.equipment[i])
    } else {
        String::new()
    };
    part_text(w, mask, PC_EQUIP, text, &mut m.equipment_json);
    assert(part(mask, PC_EQUIP, long_text(text@)) == part(mask, PC_EQUIP, long_text(equipment_json(p.equipment))));
    let ghost g2 = g1 + part(mask, PC_EQUIP, long_text(equipment_json(p.equipment)));
    proof {
        lemma_assoc(top, g1, part(mask, PC_EQUIP, long_text(equipment_json(p.equipment))));
    }
    let text: String = if mask & PC_INTENT != 0 {
        intent_text(sim.players.intent[i])
    } else {
        String::new()
    };
    part_text(w, mask, PC_INTENT, text, &mut m.intent_json);
    assert(part(mask, PC_INTENT, long_text(text@)) == part(mask, PC_INTENT, long_text(intent_json(p.intent))));
    let ghost g3 = g2 + part(mask, PC_INTENT, long_text(intent_json(p.intent)));
    proof {
        lemma_assoc(top, g2, part(mask, PC_INTENT, long_text(intent_json(p.intent))));
    }
    let text: String = if mask & PC_TARGET != 0 {
        target_text(sim.players.target[i])
    } else {
        String::new()
    };
    part_text(w, mask, PC_TARGET, text, &mut m.target_json);
    assert(part(mask, PC_TARGET, long_text(text@)) == part(mask, PC_TARGET, long_text(target_json(p.target))));
    let ghost g4 = g3 + part(mask, PC_TARGET, long_text(target_json(p.target)));
    proof {
        lemma_assoc(top, g3, part(mask, PC_TARGET, long_text(target_json(p.target))));
    }
    let text: String = if mask & PC_UI != 0 {
        ui_text(sim.players.ui[i])
    } else {
        String::new()
    };
    part_text(w, mask, PC_UI, text, &mut m.ui_json);
    assert(part(mask, PC_UI, long_text(text@)) == part(mask, PC_UI, long_text(ui_json(p.ui))));
    let ghost g5 = g4 + part(mask, PC_UI, long_text(ui_json(p.ui)));
    proof {
        lemma_assoc(top, g4, part(mask, PC_UI, long_text(ui_json(p.ui))));
    }
}

fn write_player_parts(w: &mut BufWriter, sim: &Sim, m: &mut PlayerWireMirror, i: usize, mask: u16)
    requires
        sim.players.wf(),
        i < sim@.players.slots.len(),
    ensures
        final(w)@ == old(w)@ + player_parts(sim@.players.slots[i as int], mask),
        final(m)@ == player_told(sim@.players.slots[i as int], old(m)@, mask),
{
    reveal(player_parts);
    write_player_plain_parts(w, sim, m, i, mask);
    write_player_json_parts(w, sim, m, i, mask);
    assert(w@ =~= old(w)@ + player_parts(sim@.players.slots[i as int], mask));
}

fn write_player_record(w: &mut BufWriter, sim: &Sim, m: &mut PlayerWireMirror, idx: u16, op: u8, mask: u16)
    requires
        sim.players.wf(),
        idx < sim@.players.slots.len(),
    ensures
        final(w)@ == old(w)@ + player_record(sim@.players.slots[idx as int], idx, op, mask),
        final(m)@ == player_told(sim@.players.slots[idx as int], old(m)@, mask),
{
    reveal(player_record);
    w.u8(head(POOL_PLAYER, op));
    w.u16(idx);
    w.u16(mask);
    let ghost top = w@;
    write_player_parts(w, sim, m, idx as usize, mask);
    assert(w@ =~= old(w)@ + player_record(sim@.players.slots[idx as int], idx, op, mask));
}

/// Told of every component, a client knows all of a player.
proof fn lemma_player_told_all(p: PlayerV, m: PlayerMirrorV)
    ensures
        player_told(p, m, PC_ALL) == (PlayerMirrorV { seen: m.seen, ..player_known(p) }),
{
    assert(PC_ALL & PC_X != 0 && PC_ALL & PC_Y != 0 && PC_ALL & PC_HP_CUR != 0 && PC_ALL & PC_HP_MAX != 0 && PC_ALL & PC_NAME != 0 && PC_ALL & PC_SKILLS != 0 && PC_ALL & PC_INV != 0 && PC_ALL & PC_EQUIP != 0 && PC_ALL & PC_INTENT != 0 && PC_ALL & PC_TARGET != 0 && PC_ALL & PC_UI != 0) by (bit_vector);
}

fn spawn_player(w: &mut BufWriter, sim: &Sim, ms: &mut Vec<PlayerWireMirror>, idx: u16)
    requires
        sim.players.wf(),
        idx < sim@.players.slots.len(),
        idx < old(ms)@.len(),
    ensures
        final(w)@ == old(w)@ + player_record(sim@.players.slots[idx as int], idx, OP_SPAWN, PC_ALL),
        player_mirrors(final(ms)@) == player_mirrors(old(ms)@).update(
            idx as int,
            player_known(sim@.players.slots[idx as int]),
        ),
{
    let i: usize = idx as usize;
    let mut m: PlayerWireMirror = ms[i].clone();
    write_player_record(w, sim, &mut m, idx, OP_SPAWN, PC_ALL);
    proof {
        lemma_player_told_all(sim@.players.slots[idx as int], old(ms)@[i as int]@);
    }
    m.seen = true;
    ms[i] = m;
    assert(player_mirrors(ms@) =~= player_mirrors(old(ms)@).update(
        idx as int,
        player_known(sim@.players.slots[idx as int]),
    ));
}

fn update_player(w: &mut BufWriter, sim: &Sim, ms: &mut Vec<PlayerWireMirror>, idx: u16, mask: u16)
    requires
        sim.players.wf(),
        idx < sim@.players.slots.len(),
        idx < old(ms)@.len(),
    ensures
        final(w)@ == old(w)@ + player_record(sim@.players.slots[idx as int], idx, OP_UPDATE, mask),
        player_mirrors(final(ms)@) == player_mirrors(old(ms)@).update(
            idx as int,
            player_told(sim@.players.slots[idx as int], player_mirrors(old(ms)@)[idx as int], mask),
        ),
{
    let i: usize = idx as usize;
    let mut m: PlayerWireMirror = ms[i].clone();
    write_player_record(w, sim, &mut m, idx, OP_UPDATE, mask);
    ms[i] = m;
    assert(player_mirrors(ms@) =~= player_mirrors(old(ms)@).update(
        idx as int,
        player_told(sim@.players.slots[idx as int], player_mirrors(old(ms)@)[idx as int], mask),
    ));
}

fn forget_player(w: &mut BufWriter, ms: &mut Vec<PlayerWireMirror>, i: usize)
    requires
        i < old(ms)@.len(),
    ensures
        final(w)@ == old(w)@ + gone(POOL_PLAYER, i as u16),
        player_mirrors(final(ms)@) == player_mirrors(old(ms)@).update(
            i as int,
            (PlayerMirrorV { seen: false, ..player_mirrors(old(ms)@)[i as int] }),
        ),
{
    w.u8(head(POOL_PLAYER, OP_DESPAWN));
    w.u16(i as u16);
    ms[i].seen = false;
    assert(w@ =~= old(w)@ + gone(POOL_PLAYER, i as u16));
    assert(player_mirrors(ms@) =~= player_mirrors(old(ms)@).update(
        i as int,
        PlayerMirrorV { seen: false, ..player_mirrors(old(ms)@)[i as int] },
    ));
}

fn is_there(sim: &Sim, i: usize) -> (r: bool)
    requires
        sim.players.wf(),
        i < sim@.players.slots.len(),
    ensures
        r == sim@.players.slots[i as int].alive,
{
    sim.players.alive[i]
}

fn player_baseline(w: &mut BufWriter, sim: &Sim, ms: &mut Vec<PlayerWireMirror>)
    requires
        sim.players.wf(),
        old(ms)@.len() >= sim@.players.slots.len(),
    ensures
        final(w)@ == old(w)@ + player_base(
            sim@.players.slots,
            player_mirrors(old(ms)@),
            sim@.players.slots.len() as int,
        ).0,
        player_mirrors(final(ms)@) == player_base(
            sim@.players.slots,
            player_mirrors(old(ms)@),
            sim@.players.slots.len() as int,
        ).1,
{
    let ghost slots = sim@.players.slots;
    let ghost start = player_mirrors(ms@);
    let ghost top = w@;
    let n: usize = sim.players.capacity();
    let mut i: usize = 0;
    assert(top + Seq::<u8>::empty() =~= top);
    while i < n
        invariant
            i <= n,
            n == slots.len(),
            sim.players.wf(),
            slots == sim@.players.slots,
            ms@.len() >= slots.len(),
            w@ == top + player_base(slots, start, i as int).0,
            player_mirrors(ms@) == player_base(slots, start, i as int).1,
        decreases n - i,
    {
        let ghost b = player_base(slots, start, i as int).0;
        if is_there(sim, i) {
            let h: u16 = i as u16;
            spawn_player(w, sim, ms, h);
            assert(player_mirrors(ms@).len() == ms@.len());
            assert(w@ =~= top + (b + player_record(slots[h as int], h, OP_SPAWN, PC_ALL)));
        }
        i = i + 1;
    }
}

/// Writes what a client has to hear of one entity.
fn tell_player(w: &mut BufWriter, sim: &Sim, ms: &mut Vec<PlayerWireMirror>, i: usize)
    requires
        sim.players.wf(),
        i < sim@.players.slots.len(),
        old(ms)@.len() >= sim@.players.slots.len(),
    ensures
        final(w)@ == old(w)@ + player_news(
            sim@.players.slots,
            player_mirrors(old(ms)@),
            i as int,
        ).0,
        player_mirrors(final(ms)@) == player_news(
            sim@.players.slots,
            player_mirrors(old(ms)@),
            i as int,
        ).1,
        final(ms)@.len() == old(ms)@.len(),
{
    reveal(player_news);
    let ghost m = player_mirrors(ms@);
    let h: u16 = i as u16;
    let live: bool = is_there(sim, i);
    let seen: bool = ms[i].seen;
    assert(m[i as int] == ms@[i as int]@);
    if live && !seen {
        spawn_player(w, sim, ms, h);
    } else if !live && seen {
        forget_player(w, ms, i);
    } else if live {
        let mask: u16 = player_diff_mask(sim, &ms[i], i);
        if mask != 0 {
            update_player(w, sim, ms, h, mask);
        } else {
            assert(w@ + Seq::<u8>::empty() =~= w@);
        }
    } else {
        assert(w@ + Seq::<u8>::empty() =~= w@);
    }
    assert(player_mirrors(ms@).len() == ms@.len());
    assert(m.len() == old(ms)@.len());
}

fn player_changes(w: &mut BufWriter, sim: &Sim, ms: &mut Vec<PlayerWireMirror>)
    requires
        sim.players.wf(),
        old(ms)@.len() >= sim@.players.slots.len(),
    ensures
        final(w)@ == old(w)@ + player_delta(
            sim@.players.slots,
            player_mirrors(old(ms)@),
            sim@.players.slots.len() as int,
        ).0,
        player_mirrors(final(ms)@) == player_delta(
            sim@.players.slots,
            player_mirrors(old(ms)@),
            sim@.players.slots.len() as int,
        ).1,
{
    let ghost slots = sim@.players.slots;
    let ghost start = player_mirrors(ms@);
    let ghost top = w@;
    let n: usize = sim.players.capacity();
    let mut i: usize = 0;
    assert(top + Seq::<u8>::empty() =~= top);
    while i < n
        invariant
            i <= n,
            n == slots.len(),
            sim.players.wf(),
            slots == sim@.players.slots,
            ms@.len() >= slots.len(),
            w@ == top + player_delta(slots, start, i as int).0,
            player_mirrors(ms@) == player_delta(slots, start, i as int).1,
        decreases n - i,
    {
        let ghost b = player_delta(slots, start, i as int).0;
        let ghost m = player_mirrors(ms@);
        tell_player(w, sim, ms, i);
        proof {
            lemma_assoc(top, b, player_news(slots, m, i as int).0);
        }
        i = i + 1;
    }
}

/// What there is to know of a creature.
pub open spec fn mob_known(p: MobV) -> MobMirrorV {
    MobMirrorV {
        seen: true,
        x: p.x,
        y: p.y,
        hp_cur: p.hp_cur,
        hp_max: p.hp_max,
        kind_id: p.kind_id,
    }
}

/// The components of a creature that a client does not know as they are.
pub open spec fn mob_diff(p: MobV, m: MobMirrorV) -> u16 {
    let k = mob_known(p);
    let m0 = or_if(0, k.x != m.x, MC_X);
    let m1 = or_if(m0, k.y != m.y, MC_Y);
    let m2 = or_if(m1, k.hp_cur != m.hp_cur, MC_HP_CUR);
    let m3 = or_if(m2, k.hp_max != m.hp_max, MC_HP_MAX);
    let m4 = or_if(m3, k.kind_id != m.kind_id, MC_KIND);
    m4
}

/// The components of a creature in a record.
pub open spec fn mob_parts(p: MobV, mask: u16) -> Seq<u8> {
    part(mask, MC_X, le16(p.x as u16))
        + part(mask, MC_Y, le16(p.y as u16))
        + part(mask, MC_HP_CUR, le16(p.hp_cur as u16))
        + part(mask, MC_HP_MAX, le16(p.hp_max as u16))
        + part(mask, MC_KIND, seq![p.kind_id])
}

/// The record of a creature.
pub open spec fn mob_record(p: MobV, idx: u16, op: u8, mask: u16) -> Seq<u8> {
    seq![record_head(POOL_MOB, op)] + le16(idx) + le16(mask) + mob_parts(p, mask)
}

/// What a client knows of a creature once it read the components of a record.
pub open spec fn mob_told(p: MobV, m: MobMirrorV, mask: u16) -> MobMirrorV {
    let k = mob_known(p);
    MobMirrorV {
        x: if mask & MC_X != 0 {
            k.x
        } else {
            m.x
        },
        y: if mask & MC_Y != 0 {
            k.y
        } else {
            m.y
        },
        hp_cur: if mask & MC_HP_CUR != 0 {
            k.hp_cur
        } else {
            m.hp_cur
        },
        hp_max: if mask & MC_HP_MAX != 0 {
            k.hp_max
        } else {
            m.hp_max
        },
        kind_id: if mask & MC_KIND != 0 {
            k.kind_id
        } else {
            m.kind_id
        },
        ..m
    }
}

/// The records of the first `n` entities for a client that knows nothing, and what it
/// knows after them.
pub open spec fn mob_base(slots: Seq<MobV>, ms: Seq<MobMirrorV>, n: int) -> (Seq<u8>, Seq<MobMirrorV>)
    decreases n,
{
    if n <= 0 {
        (Seq::empty(), ms)
    } else {
        let (b, m) = mob_base(slots, ms, n - 1);
        let h = (n - 1) as u16;
        let p = slots[h as int];
        if (slots[n - 1].alive && slots[n - 1].respawn_at == 0) {
            (
                b + mob_record(p, h, OP_SPAWN, MC_ALL),
                m.update(h as int, mob_known(p)),
            )
        } else {
            (b, m)
        }
    }
}

/// The records of the first `n` entities for what a client knows, and what it knows
/// after them: an entity that is new to it, one that is gone, and the components
/// of the others that have changed.
pub open spec fn mob_delta(slots: Seq<MobV>, ms: Seq<MobMirrorV>, n: int) -> (Seq<u8>, Seq<MobMirrorV>)
    decreases n,
{
    if n <= 0 {
        (Seq::empty(), ms)
    } else {
        let (b, m) = mob_delta(slots, ms, n - 1);
        let h = (n - 1) as u16;
        let p = slots[h as int];
        let live = (slots[n - 1].alive && slots[n - 1].respawn_at == 0);
        let seen = m[n - 1].seen;
        let mask = mob_diff(slots[n - 1], m[n - 1]);
        if live && !seen {
            (
                b + mob_record(p, h, OP_SPAWN, MC_ALL),
                m.update(h as int, mob_known(p)),
            )
        } else if !live && seen {
            (b + gone(POOL_MOB, h), m.update(n - 1, MobMirrorV { seen: false, ..m[n - 1] }))
        } else if live && mask != 0 {
            (
                b + mob_record(p, h, OP_UPDATE, mask),
                m.update(h as int, mob_told(p, m[h as int], mask)),
            )
        } else {
            (b, m)
        }
    }
}

fn mob_diff_mask(sim: &Sim, m: &MobWireMirror, i: usize) -> (r: u16)
    requires
        sim.mobs.wf(),
        i < sim@.mobs.slots.len(),
    ensures
        r == mob_diff(sim@.mobs.slots[i as int], m@),
{
    let m0: u16 = with_bit(0, sim.mobs.xs[i] != m.x, MC_X);
    let m1: u16 = with_bit(m0, sim.mobs.ys[i] != m.y, MC_Y);
    let m2: u16 = with_bit(m1, sim.mobs.hp_cur[i] != m.hp_cur, MC_HP_CUR);
    let m3: u16 = with_bit(m2, sim.mobs.hp_max[i] != m.hp_max, MC_HP_MAX);
    let m4: u16 = with_bit(m3, sim.mobs.kind_id[i] != m.kind_id, MC_KIND);
    m4
}

fn write_mob_parts(w: &mut BufWriter, sim: &Sim, m: &mut MobWireMirror, i: usize, mask: u16)
    requires
        sim.mobs.wf(),
        i < sim@.mobs.slots.len(),
    ensures
        final(w)@ == old(w)@ + mob_parts(sim@.mobs.slots[i as int], mask),
        final(m)@ == mob_told(sim@.mobs.slots[i as int], old(m)@, mask),
{
    let ghost p = sim@.mobs.slots[i as int];
    let ghost top = w@;
    part_i16(w, mask, MC_X, sim.mobs.xs[i], &mut m.x);
    let ghost g0 = part(mask, MC_X, le16(p.x as u16));
    part_i16(w, mask, MC_Y, sim.mobs.ys[i], &mut m.y);
    let ghost g1 = g0 + part(mask, MC_Y, le16(p.y as u16));
    proof {
        lemma_assoc(top, g0, part(mask, MC_Y, le16(p.y as u16)));
    }
    part_i16(w, mask, MC_HP_CUR, sim.mobs.hp_cur[i], &mut m.hp_cur);
    let ghost g2 = g1 + part(mask, MC_HP_CUR, le16(p.hp_cur as u16));
    proof {
        lemma_assoc(top, g1, part(mask, MC_HP_CUR, le16(p.hp_cur as u16)));
    }
    part_i16(w, mask, MC_HP_MAX, sim.mobs.hp_max[i], &mut m.hp_max);
    let ghost g3 = g2 + part(mask, MC_HP_MAX, le16(p.hp_max as u16));
    proof {
        lemma_assoc(top, g2, part(mask, MC_HP_MAX, le16(p.hp_max as u16)));
    }
    part_u8(w, mask, MC_KIND, sim.mobs.kind_id[i], &mut m.kind_id);
    let ghost g4 = g3 + part(mask, MC_KIND, seq![p.kind_id]);
    proof {
        lemma_assoc(top, g3, part(mask, MC_KIND, seq![p.kind_id]));
    }
}

fn write_mob_record(w: &mut BufWriter, sim: &Sim, m: &mut MobWireMirror, idx: u16, op: u8, mask: u16)
    requires
        sim.mobs.wf(),
        idx < sim@.mobs.slots.len(),
    ensures
        final(w)@ == old(w)@ + mob_record(sim@.mobs.slots[idx as int], idx, op, mask),
        final(m)@ == mob_told(sim@.mobs.slots[idx as int], old(m)@, mask),
{
    w.u8(head(POOL_MOB, op));
    w.u16(idx);
    w.u16(mask);
    let ghost top = w@;
    write_mob_parts(w, sim, m, idx as usize, mask);
    assert(w@ =~= old(w)@ + mob_record(sim@.mobs.slots[idx as int], idx, op, mask));
}

/// Told of every component, a client knows all of a creature.
proof fn lemma_mob_told_all(p: MobV, m: MobMirrorV)
    ensures
        mob_told(p, m, MC_ALL) == (MobMirrorV { seen: m.seen, ..mob_known(p) }),
{
    assert(MC_ALL & MC_X != 0 && MC_ALL & MC_Y != 0 && MC_ALL & MC_HP_CUR != 0 && MC_ALL & MC_HP_MAX != 0 && MC_ALL & MC_KIND != 0) by (bit_vector);
}

fn spawn_mob(w: &mut BufWriter, sim: &Sim, ms: &mut Vec<MobWireMirror>, idx: u16)
    requires
        sim.mobs.wf(),
        idx < sim@.mobs.slots.len(),
        idx < old(ms)@.len(),
    ensures
        final(w)@ == old(w)@ + mob_record(sim@.mobs.slots[idx as int], idx, OP_SPAWN, MC_ALL),
        mob_mirrors(final(ms)@) == mob_mirrors(old(ms)@).update(
            idx as int,
            mob_known(sim@.mobs.slots[idx as int]),
        ),
{
    let i: usize = idx as usize;
    let mut m: MobWireMirror = ms[i].clone();
    write_mob_record(w, sim, &mut m, idx, OP_SPAWN, MC_ALL);
    proof {
        lemma_mob_told_all(sim@.mobs.slots[idx as int], old(ms)@[i as int]@);
    }
    m.seen = true;
    ms[i] = m;
    assert(mob_mirrors(ms@) =~= mob_mirrors(old(ms)@).update(
        idx as int,
        mob_known(sim@.mobs.slots[idx as int]),
    ));
}

fn update_mob(w: &mut BufWriter, sim: &Sim, ms: &mut Vec<MobWireMirror>, idx: u16, mask: u16)
    requires
        sim.mobs.wf(),
        idx < sim@.mobs.slots.len(),
        idx < old(ms)@.len(),
    ensures
        final(w)@ == old(w)@ + mob_record(sim@.mobs.slots[idx as int], idx, OP_UPDATE, mask),
        mob_mirrors(final(ms)@) == mob_mirrors(old(ms)@).update(
            idx as int,
            mob_told(sim@.mobs.slots[idx as int], mob_mirrors(old(ms)@)[idx as int], mask),
        ),
{
    let i: usize = idx as usize;
    let mut m: MobWireMirror = ms[i].clone();
    write_mob_record(w, sim, &mut m, idx, OP_UPDATE, mask);
    ms[i] = m;
    assert(mob_mirrors(ms@) =~= mob_mirrors(old(ms)@).update(
        idx as int,
        mob_told(sim@.mobs.slots[idx as int], mob_mirrors(old(ms)@)[idx as int], mask),
    ));
}

fn forget_mob(w: &mut BufWriter, ms: &mut Vec<MobWireMirror>, i: usize)
    requires
        i < old(ms)@.len(),
    ensures
        final(w)@ == old(w)@ + gone(POOL_MOB, i as u16),
        mob_mirrors(final(ms)@) == mob_mirrors(old(ms)@).update(
            i as int,
            (MobMirrorV { seen: false, ..mob_mirrors(old(ms)@)[i as int] }),
        ),
{
    w.u8(head(POOL_MOB, OP_DESPAWN));
    w.u16(i as u16);
    ms[i].seen = false;
    assert(w@ =~= old(w)@ + gone(POOL_MOB, i as u16));
    assert(mob_mirrors(ms@) =~= mob_mirrors(old(ms)@).update(
        i as int,
        MobMirrorV { seen: false, ..mob_mirrors(old(ms)@)[i as int] },
    ));
}

fn mob_baseline(w: &mut BufWriter, sim: &Sim, ms: &mut Vec<MobWireMirror>)
    requires
        sim.mobs.wf(),
        old(ms)@.len() >= sim@.mobs.slots.len(),
    ensures
        final(w)@ == old(w)@ + mob_base(
            sim@.mobs.slots,
            mob_mirrors(old(ms)@),
            sim@.mobs.slots.len() as int,
        ).0,
        mob_mirrors(final(ms)@) == mob_base(
            sim@.mobs.slots,
            mob_mirrors(old(ms)@),
            sim@.mobs.slots.len() as int,
        ).1,
{
    let ghost slots = sim@.mobs.slots;
    let ghost start = mob_mirrors(ms@);
    let ghost top = w@;
    let mut i: usize = 0;
    assert(top + Seq::<u8>::empty() =~= top);
    while i < sim.mobs.alive.len()
        invariant
            i <= sim.mobs.alive.len(),
            sim.mobs.wf(),
            slots == sim@.mobs.slots,
            ms@.len() >= slots.len(),
            w@ == top + mob_base(slots, start, i as int).0,
            mob_mirrors(ms@) == mob_base(slots, start, i as int).1,
        decreases sim.mobs.alive.len() - i,
    {
        let ghost b = mob_base(slots, start, i as int).0;
        if sim.mobs.alive[i] && sim.mobs.respawn_at[i] == 0 {
            let h: u16 = i as u16;
            spawn_mob(w, sim, ms, h);
            assert(mob_mirrors(ms@).len() == ms@.len());
            assert(w@ =~= top + (b + mob_record(slots[h as int], h, OP_SPAWN, MC_ALL)));
        }
        i = i + 1;
    }
}

fn mob_changes(w: &mut BufWriter, sim: &Sim, ms: &mut Vec<MobWireMirror>)
    requires
        sim.mobs.wf(),
        old(ms)@.len() >= sim@.mobs.slots.len(),
    ensures
        final(w)@ == old(w)@ + mob_delta(
            sim@.mobs.slots,
            mob_mirrors(old(ms)@),
            sim@.mobs.slots.len() as int,
        ).0,
        mob_mirrors(final(ms)@) == mob_delta(
            sim@.mobs.slots,
            mob_mirrors(old(ms)@),
            sim@.mobs.slots.len() as int,
        ).1,
{
    let ghost slots = sim@.mobs.slots;
    let ghost start = mob_mirrors(ms@);
    let ghost top = w@;
    let mut i: usize = 0;
    assert(top + Seq::<u8>::empty() =~= top);
    while i < sim.mobs.alive.len()
        invariant
            i <= sim.mobs.alive.len(),
            sim.mobs.wf(),
            slots == sim@.mobs.slots,
            ms@.len() >= slots.len(),
            w@ == top + mob_delta(slots, start, i as int).0,
            mob_mirrors(ms@) == mob_delta(slots, start, i as int).1,
        decreases sim.mobs.alive.len() - i,
    {
        let ghost b = mob_delta(slots, start, i as int).0;
        let ghost m = mob_mirrors(ms@);
        let h: u16 = i as u16;
        let live: bool = sim.mobs.alive[i] && sim.mobs.respawn_at[i] == 0;
        let seen: bool = ms[i].seen;
        assert(m[i as int] == ms@[i as int]@);
        if live && !seen {
            spawn_mob(w, sim, ms, h);
            assert(mob_mirrors(ms@).len() == ms@.len());
            assert(w@ =~= top + (b + mob_record(slots[h as int], h, OP_SPAWN, MC_ALL)));
        } else if !live && seen {
            forget_mob(w, ms, i);
            assert(mob_mirrors(ms@).len() == ms@.len());
            assert(w@ =~= top + (b + gone(POOL_MOB, h)));
        } else if live {
            let mask: u16 = mob_diff_mask(sim, &ms[i], i);
            if mask != 0 {
                update_mob(w, sim, ms, h, mask);
                assert(mob_mirrors(ms@).len() == ms@.len());
                assert(w@ =~= top + (b + mob_record(slots[h as int], h, OP_UPDATE, mask)));
            }
        }
        i = i + 1;
    }
}

/// What there is to know of a stack on the ground.
pub open spec fn ground_known(p: GroundV) -> GroundMirrorV {
    GroundMirrorV {
        seen: true,
        x: p.x,
        y: p.y,
        item: p.item,
        qty: p.qty,
    }
}

/// The components of a stack on the ground that a client does not know as they are.
pub open spec fn ground_diff(p: GroundV, m: GroundMirrorV) -> u16 {
    let k = ground_known(p);
    let m0 = or_if(0, k.x != m.x, GC_X);
    let m1 = or_if(m0, k.y != m.y, GC_Y);
    let m2 = or_if(m1, k.item != m.item, GC_ITEM);
    let m3 = or_if(m2, k.qty != m.qty, GC_QTY);
    m3
}

/// The components of a stack on the ground in a record.
pub open spec fn ground_parts(p: GroundV, mask: u16) -> Seq<u8> {
    part(mask, GC_X, le16(p.x as u16))
        + part(mask, GC_Y, le16(p.y as u16))
        + part(mask, GC_ITEM, long_text(p.item))
        + part(mask, GC_QTY, le32(p.qty as u32))
}

/// The record of a stack on the ground.
pub open spec fn ground_record(p: GroundV, idx: u16, op: u8, mask: u16) -> Seq<u8> {
    seq![record_head(POOL_GROUND, op)] + le16(idx) + le16(mask) + ground_parts(p, mask)
}

/// What a client knows of a stack on the ground once it read the components of a record.
pub open spec fn ground_told(p: GroundV, m: GroundMirrorV, mask: u16) -> GroundMirrorV {
    let k = ground_known(p);
    GroundMirrorV {
        x: if mask & GC_X != 0 {
            k.x
        } else {
            m.x
        },
        y: if mask & GC_Y != 0 {
            k.y
        } else {
            m.y
        },
        item: if mask & GC_ITEM != 0 {
            k.item
        } else {
            m.item
        },
        qty: if mask & GC_QTY != 0 {
            k.qty
        } else {
            m.qty
        },
        ..m
    }
}

/// The records of the first `n` entities for a client that knows nothing, and what it
/// knows after them.
pub open spec fn ground_base(slots: Seq<GroundV>, ms: Seq<GroundMirrorV>, n: int) -> (Seq<u8>, Seq<GroundMirrorV>)
    decreases n,
{
    if n <= 0 {
        (Seq::empty(), ms)
    } else {
        let (b, m) = ground_base(slots, ms, n - 1);
        let h = (n - 1) as u16;
        let p = slots[h as int];
        if slots[n - 1].alive {
            (
                b + ground_record(p, h, OP_SPAWN, GC_ALL),
                m.update(h as int, ground_known(p)),
            )
        } else {
            (b, m)
        }
    }
}

/// The records of the first `n` entities for what a client knows, and what it knows
/// after them: an entity that is new to it, one that is gone, and the components
/// of the others that have changed.
pub open spec fn ground_delta(slots: Seq<GroundV>, ms: Seq<GroundMirrorV>, n: int) -> (Seq<u8>, Seq<GroundMirrorV>)
    decreases n,
{
    if n <= 0 {
        (Seq::empty(), ms)
    } else {
        let (b, m) = ground_delta(slots, ms, n - 1);
        let h = (n - 1) as u16;
        let p = slots[h as int];
        let live = slots[n - 1].alive;
        let seen = m[n - 1].seen;
        let mask = ground_diff(slots[n - 1], m[n - 1]);
        if live && !seen {
            (
                b + ground_record(p, h, OP_SPAWN, GC_ALL),
                m.update(h as int, ground_known(p)),
            )
        } else if !live && seen {
            (b + gone(POOL_GROUND, h), m.update(n - 1, GroundMirrorV { seen: false, ..m[n - 1] }))
        } else if live && mask != 0 {
            (
                b + ground_record(p, h, OP_UPDATE, mask),
                m.update(h as int, ground_told(p, m[h as int], mask)),
            )
        } else {
            (b, m)
        }
    }
}

fn ground_diff_mask(sim: &Sim, m: &GroundWireMirror, i: usize) -> (r: u16)
    requires
        sim.ground.wf(),
        i < sim@.ground.slots.len(),
    ensures
        r == ground_diff(sim@.ground.slots[i as int], m@),
{
    let m0: u16 = with_bit(0, sim.ground.xs[i] != m.x, GC_X);
    let m1: u16 = with_bit(m0, sim.ground.ys[i] != m.y, GC_Y);
    let m2: u16 = with_bit(m1, !same_text(sim.ground.item[i].as_str(), m.item.as_str()), GC_ITEM);
    let m3: u16 = with_bit(m2, sim.ground.qty[i] != m.qty, GC_QTY);
    m3
}

fn write_ground_parts(w: &mut BufWriter, sim: &Sim, m: &mut GroundWireMirror, i: usize, mask: u16)
    requires
        sim.ground.wf(),
        i < sim@.ground.slots.len(),
    ensures
        final(w)@ == old(w)@ + ground_parts(sim@.ground.slots[i as int], mask),
        final(m)@ == ground_told(sim@.ground.slots[i as int], old(m)@, mask),
{
    let ghost p = sim@.ground.slots[i as int];
    let ghost top = w@;
    part_i16(w, mask, GC_X, sim.ground.xs[i], &mut m.x);
    let ghost g0 = part(mask, GC_X, le16(p.x as u16));
    part_i16(w, mask, GC_Y, sim.ground.ys[i], &mut m.y);
    let ghost g1 = g0 + part(mask, GC_Y, le16(p.y as u16));
    proof {
        lemma_assoc(top, g0, part(mask, GC_Y, le16(p.y as u16)));
    }
    let text: String = if mask & GC_ITEM != 0 {
        sim.ground.item[i].clone()
    } else {
        String::new()
    };
    part_text(w, mask, GC_ITEM, text, &mut m.item);
    assert(part(mask, GC_ITEM, long_text(text@)) == part(mask, GC_ITEM, long_text(p.item)));
    let ghost g2 = g1 + part(mask, GC_ITEM, long_text(p.item));
    proof {
        lemma_assoc(top, g1, part(mask, GC_ITEM, long_text(p.item)));
    }
    part_i32(w, mask, GC_QTY, sim.ground.qty[i], &mut m.qty);
    let ghost g3 = g2 + part(mask, GC_QTY, le32(p.qty as u32));
    proof {
        lemma_assoc(top, g2, part(mask, GC_QTY, le32(p.qty as u32)));
    }
}

fn write_ground_record(w: &mut BufWriter, sim: &Sim, m: &mut GroundWireMirror, idx: u16, op: u8, mask: u16)
    requires
        sim.ground.wf(),
        idx < sim@.ground.slots.len(),
    ensures
        final(w)@ == old(w)@ + ground_record(sim@.ground.slots[idx as int], idx, op, mask),
        final(m)@ == ground_told(sim@.ground.slots[idx as int], old(m)@, mask),
{
    w.u8(head(POOL_GROUND, op));
    w.u16(idx);
    w.u16(mask);
    let ghost top = w@;
    write_ground_parts(w, sim, m, idx as usize, mask);
    assert(w@ =~= old(w)@ + ground_record(sim@.ground.slots[idx as int], idx, op, mask));
}

/// Told of every component, a client knows all of a stack on the ground.
proof fn lemma_ground_told_all(p: GroundV, m: GroundMirrorV)
    ensures
        ground_told(p, m, GC_ALL) == (GroundMirrorV { seen: m.seen, ..ground_known(p) }),
{
    assert(GC_ALL & GC_X != 0 && GC_ALL & GC_Y != 0 && GC_ALL & GC_ITEM != 0 && GC_ALL & GC_QTY != 0) by (bit_vector);
}

fn spawn_ground(w: &mut BufWriter, sim: &Sim, ms: &mut Vec<GroundWireMirror>, idx: u16)
    requires
        sim.ground.wf(),
        idx < sim@.ground.slots.len(),
        idx < old(ms)@.len(),
    ensures
        final(w)@ == old(w)@ + ground_record(sim@.ground.slots[idx as int], idx, OP_SPAWN, GC_ALL),
        ground_mirrors(final(ms)@) == ground_mirrors(old(ms)@).update(
            idx as int,
            ground_known(sim@.ground.slots[idx as int]),
        ),
{
    let i: usize = idx as usize;
    let mut m: GroundWireMirror = ms[i].clone();
    write_ground_record(w, sim, &mut m, idx, OP_SPAWN, GC_ALL);
    proof {
        lemma_ground_told_all(sim@.ground.slots[idx as int], old(ms)@[i as int]@);
    }
    m.seen = true;
    ms[i] = m;
    assert(ground_mirrors(ms@) =~= ground_mirrors(old(ms)@).update(
        idx as int,
        ground_known(sim@.ground.slots[idx as int]),
    ));
}

fn update_ground(w: &mut BufWriter, sim: &Sim, ms: &mut Vec<GroundWireMirror>, idx: u16, mask: u16)
    requires
        sim.ground.wf(),
        idx < sim@.ground.slots.len(),
        idx < old(ms)@.len(),
    ensures
        final(w)@ == old(w)@ + ground_record(sim@.ground.slots[idx as int], idx, OP_UPDATE, mask),
        ground_mirrors(final(ms)@) == ground_mirrors(old(ms)@).update(
            idx as int,
            ground_told(sim@.ground.slots[idx as int], ground_mirrors(old(ms)@)[idx as int], mask),
        ),
{
    let i: usize = idx as usize;
    let mut m: GroundWireMirror = ms[i].clone();
    write_ground_record(w, sim, &mut m, idx, OP_UPDATE, mask);
    ms[i] = m;
    assert(ground_mirrors(ms@) =~= ground_mirrors(old(ms)@).update(
        idx as int,
        ground_told(sim@.ground.slots[idx as int], ground_mirrors(old(ms)@)[idx as int], mask),
    ));
}

fn forget_ground(w: &mut BufWriter, ms: &mut Vec<GroundWireMirror>, i: usize)
    requires
        i < old(ms)@.len(),
    ensures
        final(w)@ == old(w)@ + gone(POOL_GROUND, i as u16),
        ground_mirrors(final(ms)@) == ground_mirrors(old(ms)@).update(
            i as int,
            (GroundMirrorV { seen: false, ..ground_mirrors(old(ms)@)[i as int] }),
        ),
{
    w.u8(head(POOL_GROUND, OP_DESPAWN));
    w.u16(i as u16);
    ms[i].seen = false;
    assert(w@ =~= old(w)@ + gone(POOL_GROUND, i as u16));
    assert(ground_mirrors(ms@) =~= ground_mirrors(old(ms)@).update(
        i as int,
        GroundMirrorV { seen: false, ..ground_mirrors(old(ms)@)[i as int] },
    ));
}

fn ground_baseline(w: &mut BufWriter, sim: &Sim, ms: &mut Vec<GroundWireMirror>)
    requires
        sim.ground.wf(),
        old(ms)@.len() >= sim@.ground.slots.len(),
    ensures
        final(w)@ == old(w)@ + ground_base(
            sim@.ground.slots,
            ground_mirrors(old(ms)@),
            sim@.ground.slots.len() as int,
        ).0,
        ground_mirrors(final(ms)@) == ground_base(
            sim@.ground.slots,
            ground_mirrors(old(ms)@),
            sim@.ground.slots.len() as int,
        ).1,
{
    let ghost slots = sim@.ground.slots;
    let ghost start = ground_mirrors(ms@);
    let ghost top = w@;
    let mut i: usize = 0;
    assert(top + Seq::<u8>::empty() =~= top);
    while i < sim.ground.alive.len()
        invariant
            i <= sim.ground.alive.len(),
            sim.ground.wf(),
            slots == sim@.ground.slots,
            ms@.len() >= slots.len(),
            w@ == top + ground_base(slots, start, i as int).0,
            ground_mirrors(ms@) == ground_base(slots, start, i as int).1,
        decreases sim.ground.alive.len() - i,
    {
        let ghost b = ground_base(slots, start, i as int).0;
        if sim.ground.alive[i] {
            let h: u16 = i as u16;
            spawn_ground(w, sim, ms, h);
            assert(ground_mirrors(ms@).len() == ms@.len());
            assert(w@ =~= top + (b + ground_record(slots[h as int], h, OP_SPAWN, GC_ALL)));
        }
        i = i + 1;
    }
}

fn ground_changes(w: &mut BufWriter, sim: &Sim, ms: &mut Vec<GroundWireMirror>)
    requires
        sim.ground.wf(),
        old(ms)@.len() >= sim@.ground.slots.len(),
    ensures
        final(w)@ == old(w)@ + ground_delta(
            sim@.ground.slots,
            ground_mirrors(old(ms)@),
            sim@.ground.slots.len() as int,
        ).0,
        ground_mirrors(final(ms)@) == ground_delta(
            sim@.ground.slots,
            ground_mirrors(old(ms)@),
            sim@.ground.slots.len() as int,
        ).1,
{
    let ghost slots = sim@.ground.slots;
    let ghost start = ground_mirrors(ms@);
    let ghost top = w@;
    let mut i: usize = 0;
    assert(top + Seq::<u8>::empty() =~= top);
    while i < sim.ground.alive.len()
        invariant
            i <= sim.ground.alive.len(),
            sim.ground.wf(),
            slots == sim@.ground.slots,
            ms@.len() >= slots.len(),
            w@ == top + ground_delta(slots, start, i as int).0,
            ground_mirrors(ms@) == ground_delta(slots, start, i as int).1,
        decreases sim.ground.alive.len() - i,
    {
        let ghost b = ground_delta(slots, start, i as int).0;
        let ghost m = ground_mirrors(ms@);
        let h: u16 = i as u16;
        let live: bool = sim.ground.alive[i];
        let seen: bool = ms[i].seen;
        assert(m[i as int] == ms@[i as int]@);
        if live && !seen {
            spawn_ground(w, sim, ms, h);
            assert(ground_mirrors(ms@).len() == ms@.len());
            assert(w@ =~= top + (b + ground_record(slots[h as int], h, OP_SPAWN, GC_ALL)));
        } else if !live && seen {
            forget_ground(w, ms, i);
            assert(ground_mirrors(ms@).len() == ms@.len());
            assert(w@ =~= top + (b + gone(POOL_GROUND, h)));
        } else if live {
            let mask: u16 = ground_diff_mask(sim, &ms[i], i);
            if mask != 0 {
                update_ground(w, sim, ms, h, mask);
                assert(ground_mirrors(ms@).len() == ms@.len());
                assert(w@ =~= top + (b + ground_record(slots[h as int], h, OP_UPDATE, mask)));
            }
        }
        i = i + 1;
    }
}

/// The record of an object; its number always has four bytes.
pub open spec fn obj_record(idx: u32, json: Seq<char>) -> Seq<u8> {
    seq![record_head(POOL_OBJECT, OP_UPDATE) | 1u8] + le32(idx) + le16(OC_OBJ) + long_text(json)
}

fn write_obj_record(w: &mut BufWriter, idx: u32, json: &str)
    ensures
        final(w)@ == old(w)@ + obj_record(idx, json@),
{
    w.u8(head(POOL_OBJECT, OP_UPDATE) | 1u8);
    w.u32(idx);
    w.u16(OC_OBJ);
    w.str_u16(json);
    assert(w@ =~= old(w)@ + obj_record(idx, json@));
}

/// The records of the first `n` objects for a client that knows none, and what it knows
/// after them. Cells without an object have no record.
pub open spec fn object_base(objects: Seq<Obj>, ms: Seq<Seq<char>>, n: int) -> (
    Seq<u8>,
    Seq<Seq<char>>,
)
    decreases n,
{
    if n <= 0 {
        (Seq::empty(), ms)
    } else {
        let (b, m) = object_base(objects, ms, n - 1);
        let o = objects[n - 1];
        (
            if o is Empty {
                b
            } else {
                b + obj_record((n - 1) as u32, obj_json(o))
            },
            m.update(n - 1, obj_json(o)),
        )
    }
}

/// The records of the first `n` listed objects that a client knows otherwise, and what
/// it knows after them.
pub open spec fn object_delta(objects: Seq<Obj>, dirty: Seq<u32>, ms: Seq<Seq<char>>, n: int) -> (
    Seq<u8>,
    Seq<Seq<char>>,
)
    decreases n,
{
    if n <= 0 {
        (Seq::empty(), ms)
    } else {
        let (b, m) = object_delta(objects, dirty, ms, n - 1);
        let i = dirty[n - 1];
        let json = obj_json(objects[i as int]);
        if m[i as int] == json {
            (b, m)
        } else {
            (b + obj_record(i, json), m.update(i as int, json))
        }
    }
}

fn object_baseline(w: &mut BufWriter, sim: &Sim, ms: &mut Vec<ObjWireMirror>)
    requires
        old(ms)@.len() >= sim@.objects.len(),
    ensures
        final(w)@ == old(w)@ + object_base(
            sim@.objects,
            object_mirrors(old(ms)@),
            sim@.objects.len() as int,
        ).0,
        object_mirrors(final(ms)@) == object_base(
            sim@.objects,
            object_mirrors(old(ms)@),
            sim@.objects.len() as int,
        ).1,
{
    let ghost objects = sim@.objects;
    let ghost start = object_mirrors(ms@);
    let ghost top = w@;
    let mut i: usize = 0;
    assert(top + Seq::<u8>::empty() =~= top);
    while i < sim.objects.len()
        invariant
            i <= sim.objects.len(),
            objects == sim@.objects,
            ms@.len() >= objects.len(),
            w@ == top + object_base(objects, start, i as int).0,
            object_mirrors(ms@) == object_base(objects, start, i as int).1,
        decreases sim.objects.len() - i,
    {
        let ghost b = object_base(objects, start, i as int).0;
        let ghost m = object_mirrors(ms@);
        let o: Obj = sim.objects[i];
        let json: String = obj_text(o);
        if !matches!(o, Obj::Empty) {
            write_obj_record(w, i as u32, json.as_str());
            assert(w@ =~= top + (b + obj_record(i as u32, json@)));
        }
        ms[i] = ObjWireMirror { json };
        assert(object_mirrors(ms@) =~= m.update(i as int, obj_json(o)));
        i = i + 1;
    }
}

fn object_changes(w: &mut BufWriter, sim: &Sim, ms: &mut Vec<ObjWireMirror>)
    requires
        sim.wf(),
        old(ms)@.len() >= sim@.objects.len(),
    ensures
        final(w)@ == old(w)@ + object_delta(
            sim@.objects,
            sim@.objects_dirty,
            object_mirrors(old(ms)@),
            sim@.objects_dirty.len() as int,
        ).0,
        object_mirrors(final(ms)@) == object_delta(
            sim@.objects,
            sim@.objects_dirty,
            object_mirrors(old(ms)@),
            sim@.objects_dirty.len() as int,
        ).1,
{
    let ghost objects = sim@.objects;
    let ghost dirty = sim@.objects_dirty;
    let ghost start = object_mirrors(ms@);
    let ghost top = w@;
    let mut k: usize = 0;
    assert(top + Seq::<u8>::empty() =~= top);
    while k < sim.objects_dirty.len()
        invariant
            k <= sim.objects_dirty.len(),
            sim.wf(),
            objects == sim@.objects,
            dirty == sim@.objects_dirty,
            ms@.len() >= objects.len(),
            w@ == top + object_delta(objects, dirty, start, k as int).0,
            object_mirrors(ms@) == object_delta(objects, dirty, start, k as int).1,
        decreases sim.objects_dirty.len() - k,
    {
        let ghost b = object_delta(objects, dirty, start, k as int).0;
        let ghost m = object_mirrors(ms@);
        let i: u32 = sim.objects_dirty[k];
        assert(dirty[k as int] < objects.len());
        let u: usize = i as usize;
        let json: String = obj_text(sim.objects[u]);
        assert(m[i as int] == ms@[u as int].json@);
        if !same_text(ms[u].json.as_str(), json.as_str()) {
            write_obj_record(w, i, json.as_str());
            assert(w@ =~= top + (b + obj_record(i, json@)));
            ms[u] = ObjWireMirror { json };
            assert(object_mirrors(ms@) =~= m.update(i as int, obj_json(objects[i as int])));
        }
        k = k + 1;
    }
}

/// The full picture of a world for a client, and what it knows then.
#[verifier::opaque]
pub open spec fn baseline(s: SimV, c: WireV) -> (Seq<u8>, WireV) {
    let r = c.with_room(s);
    let (pb, pm) = player_base(s.players.slots, r.players, s.players.slots.len() as int);
    let (mb, mm) = mob_base(s.mobs.slots, r.mobs, s.mobs.slots.len() as int);
    let (gb, gm) = ground_base(s.ground.slots, r.ground, s.ground.slots.len() as int);
    let (ob, om) = object_base(s.objects, r.objects, s.objects.len() as int);
    (
        seq![MSG_SERVER_BASELINE] + le32(s.tick as u32) + pb + mb + gb + ob
            + seq![POOL_TERMINATOR],
        WireV { players: pm, mobs: mm, ground: gm, objects: om, last_sent_tick: s.tick as u32 },
    )
}

/// What has changed in a world since a client was told of it, and what it knows then.
#[verifier::opaque]
pub open spec fn delta(s: SimV, c: WireV, acked: u32) -> (Seq<u8>, WireV) {
    let r = c.with_room(s);
    let (pb, pm) = player_delta(s.players.slots, r.players, s.players.slots.len() as int);
    let (mb, mm) = mob_delta(s.mobs.slots, r.mobs, s.mobs.slots.len() as int);
    let (gb, gm) = ground_delta(s.ground.slots, r.ground, s.ground.slots.len() as int);
    let (ob, om) = object_delta(
        s.objects,
        s.objects_dirty,
        r.objects,
        s.objects_dirty.len() as int,
    );
    (
        seq![MSG_SERVER_DELTA] + le32(s.tick as u32) + le32(acked) + pb + mb + gb + ob
            + seq![POOL_TERMINATOR],
        WireV { players: pm, mobs: mm, ground: gm, objects: om, last_sent_tick: s.tick as u32 },
    )
}

/// Writes the full picture of a world for a client that has just joined.
pub fn encode_baseline(sim: &Sim, cli: &mut ClientWireState) -> (r: Vec<u8>)
    requires
        sim.wf(),
    ensures
        (r@, final(cli)@) == baseline(sim@, old(cli)@),
{
    reveal(baseline);
    cli.make_room(sim);
    let mut w = BufWriter::new();
    w.u8(MSG_SERVER_BASELINE);
    assert(w@ =~= seq![MSG_SERVER_BASELINE]);
    w.u32(sim.tick as u32);
    player_baseline(&mut w, sim, &mut cli.players);
    mob_baseline(&mut w, sim, &mut cli.mobs);
    ground_baseline(&mut w, sim, &mut cli.ground);
    object_baseline(&mut w, sim, &mut cli.objects);
    w.u8(POOL_TERMINATOR);
    cli.last_sent_tick = sim.tick as u32;
    w.into_vec()
}

/// Writes what has changed since the client was told last.
pub fn encode_delta(sim: &Sim, cli: &mut ClientWireState, last_acked_tick: u32) -> (r: Vec<u8>)
    requires
        sim.wf(),
    ensures
        (r@, final(cli)@) == delta(sim@, old(cli)@, last_acked_tick),
{
    reveal(delta);
    cli.make_room(sim);
    let mut w = BufWriter::new();
    w.u8(MSG_SERVER_DELTA);
    assert(w@ =~= seq![MSG_SERVER_DELTA]);
    w.u32(sim.tick as u32);
    w.u32(last_acked_tick);
    player_changes(&mut w, sim, &mut cli.players);
    mob_changes(&mut w, sim, &mut cli.mobs);
    ground_changes(&mut w, sim, &mut cli.ground);
    object_changes(&mut w, sim, &mut cli.objects);
    w.u8(POOL_TERMINATOR);
    cli.last_sent_tick = sim.tick as u32;
    w.into_vec()
}

/// A count in two bytes, at most 65535.
pub open spec fn count16(n: nat) -> Seq<u8> {
    le16(crate::codec::shorter(n, 0xffff) as u16)
}

fn capped(n: usize) -> (r: u16)
    ensures
        le16(r) == count16(n as nat),
{
    if n <= 0xffff {
        n as u16
    } else {
        0xffff
    }
}

/// Texts one after the other, each behind its length.
pub open spec fn texts_bytes(v: Seq<Seq<char>>) -> Seq<u8>
    decreases v.len(),
{
    if v.len() == 0 {
        Seq::empty()
    } else {
        texts_bytes(v.drop_last()) + long_text(v.last())
    }
}

/// The frame with the lines of a player's log; nothing where there are none.
pub open spec fn log_frame(lines: Seq<Seq<char>>) -> Option<Seq<u8>> {
    if lines.len() == 0 {
        None
    } else {
        Some(seq![MSG_SERVER_LOG] + count16(lines.len()) + texts_bytes(lines))
    }
}

/// The frame with the lines of a player's log.
pub fn encode_log_lines(lines: &[String]) -> (r: Option<Vec<u8>>)
    ensures
        r is Some == log_frame(texts_of(lines@)) is Some,
        r matches Some(f) ==> log_frame(texts_of(lines@)) == Some(f@),
{
    if lines.len() == 0 {
        return None;
    }
    let ghost t = texts_of(lines@);
    let mut w = BufWriter::new();
    w.u8(MSG_SERVER_LOG);
    assert(w@ =~= seq![MSG_SERVER_LOG]);
    w.u16(capped(lines.len()));
    let ghost top = w@;
    let mut k: usize = 0;
    assert(t.take(0) =~= Seq::<Seq<char>>::empty());
    assert(top + Seq::<u8>::empty() =~= top);
    while k < lines.len()
        invariant
            k <= lines.len(),
            t == texts_of(lines@),
            w@ == top + texts_bytes(t.take(k as int)),
        decreases lines.len() - k,
    {
        let ghost b = texts_bytes(t.take(k as int));
        assert(t.take(k + 1).drop_last() =~= t.take(k as int));
        w.str_u16(lines[k].as_str());
        assert(w@ =~= top + (b + long_text(t[k as int])));
        k = k + 1;
    }
    assert(t.take(k as int) =~= t);
    Some(w.into_vec())
}

/// A chat line in bytes.
pub open spec fn chat_bytes(m: ChatV) -> Seq<u8> {
    le32(m.id as u32) + le32(m.tick as u32) + le32(m.pid) + long_text(m.name) + long_text(m.text)
}

/// Chat lines one after the other.
pub open spec fn chats_bytes(v: Seq<ChatV>) -> Seq<u8>
    decreases v.len(),
{
    if v.len() == 0 {
        Seq::empty()
    } else {
        chats_bytes(v.drop_last()) + chat_bytes(v.last())
    }
}

/// The frame with chat lines of a tick; nothing where there are none.
pub open spec fn chat_frame(tick: u64, lines: Seq<ChatV>) -> Option<Seq<u8>> {
    if lines.len() == 0 {
        None
    } else {
        Some(
            seq![MSG_SERVER_CHAT] + le32(tick as u32) + count16(lines.len()) + chats_bytes(lines),
        )
    }
}

fn write_chat(w: &mut BufWriter, m: &ChatMsg)
    ensures
        final(w)@ == old(w)@ + chat_bytes(m@),
{
    w.u32(m.id as u32);
    w.u32(m.tick as u32);
    w.u32(m.pid);
    w.str_u16(m.name.as_str());
    w.str_u16(m.text.as_str());
    assert(w@ =~= old(w)@ + chat_bytes(m@));
}

fn write_chats(w: &mut BufWriter, lines: &[ChatMsg], Ghost(done): Ghost<Seq<ChatV>>, Ghost(top): Ghost<Seq<u8>>)
    requires
        old(w)@ == top + chats_bytes(done),
    ensures
        final(w)@ == top + chats_bytes(done + chat_of(lines@)),
{
    let ghost t = chat_of(lines@);
    let mut k: usize = 0;
    assert(done + t.take(0) =~= done);
    while k < lines.len()
        invariant
            k <= lines.len(),
            t == chat_of(lines@),
            w@ == top + chats_bytes(done + t.take(k as int)),
        decreases lines.len() - k,
    {
        let ghost b = chats_bytes(done + t.take(k as int));
        assert((done + t.take(k + 1)).drop_last() =~= done + t.take(k as int));
        assert((done + t.take(k + 1)).last() == t[k as int]);
        write_chat(w, &lines[k]);
        assert(w@ =~= top + (b + chat_bytes(t[k as int])));
        k = k + 1;
    }
    assert(t.take(k as int) =~= t);
}

fn capped_sum(a: usize, b: usize) -> (r: u16)
    ensures
        le16(r) == count16((a + b) as nat),
{
    if a > 0xffff || b > 0xffff {
        0xffff
    } else {
        capped(a + b)
    }
}

/// The frame with chat lines of a tick: those that everybody sees, then those for one
/// player.
pub fn encode_chat(tick: u64, chat: &[ChatMsg], private: &[ChatMsg]) -> (r: Option<Vec<u8>>)
    ensures
        r is Some == chat_frame(tick, chat_of(chat@) + chat_of(private@)) is Some,
        r matches Some(f) ==> chat_frame(tick, chat_of(chat@) + chat_of(private@)) == Some(f@),
{
    if chat.len() == 0 && private.len() == 0 {
        return None;
    }
    let mut w = BufWriter::new();
    w.u8(MSG_SERVER_CHAT);
    assert(w@ =~= seq![MSG_SERVER_CHAT]);
    w.u32(tick as u32);
    w.u16(capped_sum(chat.len(), private.len()));
    let ghost top = w@;
    let ghost none = Seq::<ChatV>::empty();
    assert(top + Seq::<u8>::empty() =~= top);
    write_chats(&mut w, chat, Ghost(none), Ghost(top));
    assert(none + chat_of(chat@) =~= chat_of(chat@));
    write_chats(&mut w, private, Ghost(chat_of(chat@)), Ghost(top));
    Some(w.into_vec())
}

/// An event in bytes: a byte for its kind, the cell, and the damage of a hit.
pub open spec fn event_bytes(e: EventRec) -> Seq<u8> {
    match e {
        EventRec::Chop { x, y } => seq![0u8] + le16(x as u16) + le16(y as u16),
        EventRec::Mine { x, y } => seq![1u8] + le16(x as u16) + le16(y as u16),
        EventRec::Pick { x, y } => seq![2u8] + le16(x as u16) + le16(y as u16),
        EventRec::Fish { x, y } => seq![3u8] + le16(x as u16) + le16(y as u16),
        EventRec::HitMob { x, y, dmg } => seq![4u8] + le16(x as u16) + le16(y as u16) + le16(
            dmg as u16,
        ),
        EventRec::MissMob { x, y } => seq![5u8] + le16(x as u16) + le16(y as u16),
        EventRec::HitPlayer { x, y, dmg } => seq![6u8] + le16(x as u16) + le16(y as u16) + le16(
            dmg as u16,
        ),
        EventRec::MissPlayer { x, y } => seq![7u8] + le16(x as u16) + le16(y as u16),
    }
}

/// Events one after the other.
pub open spec fn events_bytes(v: Seq<EventRec>) -> Seq<u8>
    decreases v.len(),
{
    if v.len() == 0 {
        Seq::empty()
    } else {
        events_bytes(v.drop_last()) + event_bytes(v.last())
    }
}

/// The frame with the events of a tick; nothing where there are none.
pub open spec fn events_frame(tick: u64, events: Seq<EventRec>) -> Option<Seq<u8>> {
    if events.len() == 0 {
        None
    } else {
        Some(
            seq![MSG_SERVER_EVENTS] + le32(tick as u32) + count16(events.len()) + events_bytes(
                events,
            ),
        )
    }
}

fn write_event(w: &mut BufWriter, e: EventRec)
    ensures
        final(w)@ == old(w)@ + event_bytes(e),
{
    let (kind, x, y, dmg): (u8, i16, i16, Option<i16>) = match e {
        EventRec::Chop { x, y } => (0, x, y, None),
        EventRec::Mine { x, y } => (1, x, y, None),
        EventRec::Pick { x, y } => (2, x, y, None),
        EventRec::Fish { x, y } => (3, x, y, None),
        EventRec::HitMob { x, y, dmg } => (4, x, y, Some(dmg)),
        EventRec::MissMob { x, y } => (5, x, y, None),
        EventRec::HitPlayer { x, y, dmg } => (6, x, y, Some(dmg)),
        EventRec::MissPlayer { x, y } => (7, x, y, None),
    };
    w.u8(kind);
    w.i16(x);
    w.i16(y);
    if let Some(d) = dmg {
        w.i16(d);
    }
    assert(w@ =~= old(w)@ + event_bytes(e));
}

/// The frame with the events of a tick.
pub fn encode_events(tick: u64, events: &[EventRec]) -> (r: Option<Vec<u8>>)
    ensures
        r is Some == events_frame(tick, events@) is Some,
        r matches Some(f) ==> events_frame(tick, events@) == Some(f@),
{
    if events.len() == 0 {
        return None;
    }
    let mut w = BufWriter::new();
    w.u8(MSG_SERVER_EVENTS);
    assert(w@ =~= seq![MSG_SERVER_EVENTS]);
    w.u32(tick as u32);
    w.u16(capped(events.len()));
    let ghost top = w@;
    let mut k: usize = 0;
    assert(events@.take(0) =~= Seq::<EventRec>::empty());
    assert(top + Seq::<u8>::empty() =~= top);
    while k < events.len()
        invariant
            k <= events.len(),
            w@ == top + events_bytes(events@.take(k as int)),
        decreases events.len() - k,
    {
        let ghost b = events_bytes(events@.take(k as int));
        assert(events@.take(k + 1).drop_last() =~= events@.take(k as int));
        write_event(&mut w, events[k]);
        assert(w@ =~= top + (b + event_bytes(events@[k as int])));
        k = k + 1;
    }
    assert(events@.take(k as int) =~= events@);
    Some(w.into_vec())
}

} // verus!
