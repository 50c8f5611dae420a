//! Sessions: the first message of a client, the messages after it, who is connected,
//! and what each client is sent.

use std::collections::VecDeque;
use vstd::prelude::*;
use crate::cells::law_commands_leave_the_map;
use crate::chat::{clean_name, name_for};
use crate::codec::{from_le32, law_u32_round_trip, le32, short_text_at, BufReader};
use crate::command::{command_of, decode_command, ClientCmd, CmdV};
use crate::json::hex_char;
use crate::pools::PlayerV;
use crate::save::{
    lemma_joined_keeps, random_form, saves_of, uuid_text, valid_uuid_or_new, view_of, PlayerSave, SaveV,
};
use crate::sim::{cells_ok, Sim, SimV};
use crate::sync::{
    knows_objects, knows_the_rest, knows_world, law_baseline_tells_objects, law_delta_informs,
    law_delta_tells_objects, law_looks_suffice, law_unlisted_stay_known, looks_like, numbered,
};
use crate::text::{decimal, join2, nat_text};
use crate::types::{chat_of, ChatV};
use crate::types::{ChatMsg, TPS};
use crate::views::{catalogs_json, encode_catalogs, encode_youview};
use crate::wire::{
    baseline, chat_frame, delta, encode_baseline, encode_chat, encode_delta, encode_events,
    encode_init, encode_log_lines, events_frame, init_frame, knows_nothing, log_frame, WireV,
};
use crate::wire::{
    ClientWireState, MSG_CLIENT_ACK, MSG_CLIENT_CMD, MSG_CLIENT_JOIN, MSG_SERVER_CATALOGS,
    MSG_SERVER_DELTA, MSG_SERVER_EVENTS,
};

verus! {

/// The longest frame that is read.
pub const MAX_FRAME: u32 = 4 * 1024 * 1024;

/// What a session can fail with.
#[derive(Clone, Copy, PartialEq, Eq, Structural, Debug)]
pub enum SessionError {
    /// The first message was not the one by which a client joins.
    NotAJoin,
    /// A frame was announced as longer than the longest that is read.
    FrameTooLarge { len: u32 },
}

impl SessionError {
    /// What the error is called.
    pub open spec fn text(self) -> Seq<char> {
        match self {
            SessionError::NotAJoin => "first message must be ClientJoin"@,
            SessionError::FrameTooLarge { len } => "frame too large: "@ + decimal(len as int),
        }
    }

    /// What the error is called.
    pub fn message(&self) -> (r: String)
        ensures
            r@ == self.text(),
    {
        match *self {
            SessionError::NotAJoin => "first message must be ClientJoin".to_owned(),
            SessionError::FrameTooLarge { len } => join2(
                "frame too large: ",
                nat_text(len as u64).as_str(),
            ),
        }
    }
}

/// The four bytes before a frame: its length, cut to 32 bits.
pub fn frame_header(payload_len: usize) -> (r: [u8; 4])
    ensures
        r@ == le32(payload_len as u32),
{
    let n: u32 = payload_len as u32;
    [(n % 256) as u8, (n / 256 % 256) as u8, (n / 65536 % 256) as u8, (n / 16777216) as u8]
}

/// The length that the four bytes before a frame announce; an error where it is
/// longer than the longest frame that is read.
pub fn frame_length(header: &[u8; 4]) -> (r: Result<usize, SessionError>)
    ensures
        match r {
            Ok(n) => n == from_le32(header@, 0) && n <= MAX_FRAME,
            Err(e) => from_le32(header@, 0) > MAX_FRAME && e == (SessionError::FrameTooLarge {
                len: from_le32(header@, 0),
            }),
        },
{
    let n: u32 = header[0] as u32 + 256 * (header[1] as u32) + 65536 * (header[2] as u32)
        + 16777216 * (header[3] as u32);
    if n > MAX_FRAME {
        Err(SessionError::FrameTooLarge { len: n })
    } else {
        Ok(n as usize)
    }
}

/// A frame's length is read back from the bytes before it.
pub proof fn law_frame_header_round_trip(n: u32)
    ensures
        from_le32(le32(n), 0) == n,
{
    let none = Seq::<u8>::empty();
    law_u32_round_trip(none, n, none);
    assert(none + le32(n) + none =~= le32(n));
}

/// Where the name stands in a message by which a client joins: behind the identity.
pub open spec fn name_place(b: Seq<u8>) -> int {
    if b.len() < 2 {
        1
    } else if short_text_at(b, 1) is None {
        2
    } else {
        2 + b[1]
    }
}

/// The identity and the name in a message by which a client joins. What is cut off
/// counts as no identity and as `Adventurer`.
pub open spec fn join_parts(b: Seq<u8>) -> Option<(Seq<char>, Seq<char>)> {
    if b.len() == 0 || b[0] != MSG_CLIENT_JOIN {
        None
    } else {
        Some(
            (
                match short_text_at(b, 1) {
                    Some(t) => t,
                    None => Seq::empty(),
                },
                match short_text_at(b, name_place(b)) {
                    Some(t) => t,
                    None => "Adventurer"@,
                },
            ),
        )
    }
}

/// Reads the identity and the name from a client's first message.
pub fn decode_join(frame: &[u8]) -> (r: Option<(String, String)>)
    ensures
        r is Some == join_parts(frame@) is Some,
        r matches Some(p) ==> join_parts(frame@) == Some((p.0@, p.1@)),
{
    if frame.len() == 0 || frame[0] != MSG_CLIENT_JOIN {
        return None;
    }
    let mut r = BufReader::new(frame);
    r.pos = 1;
    let uuid: String = match r.str_u8() {
        Some(s) => s,
        None => {
            let s: String = String::new();
            assert(s@ =~= Seq::<char>::empty());
            s
        },
    };
    assert(r.pos == name_place(frame@));
    let name: String = match r.str_u8() {
        Some(s) => s,
        None => "Adventurer".to_owned(),
    };
    Some((uuid, name))
}

/// A client that wants to join: who it is, and the name it asks for.
#[derive(Debug)]
pub struct JoinRequest {
    pub uuid: String,
    pub name: String,
}

/// Reads a client's first message. Without an identity of its own the client gets a
/// new one.
pub fn read_join(frame: &[u8]) -> (r: Result<JoinRequest, SessionError>)
    ensures
        r is Ok == join_parts(frame@) is Some,
        match r {
            Ok(j) => {
                let raw = join_parts(frame@).unwrap().0;
                &&& j.name@ == join_parts(frame@).unwrap().1
                &&& if uuid_text(raw) is Some {
                    uuid_text(raw) == Some(j.uuid@)
                } else {
                    random_form(j.uuid@)
                }
            },
            Err(e) => e == SessionError::NotAJoin,
        },
{
    match decode_join(frame) {
        Some((raw, name)) => {
            let uuid: String = if raw.as_str().is_empty() {
                valid_uuid_or_new(None)
            } else {
                valid_uuid_or_new(Some(raw.as_str()))
            };
            Ok(JoinRequest { uuid, name })
        },
        None => Err(SessionError::NotAJoin),
    }
}

/// A message of a client that has joined.
#[derive(Debug)]
pub enum Inbound {
    Cmd { cmd: ClientCmd },
    Ack { tick: u32 },
}

/// The tick that a message acknowledges.
pub open spec fn ack_of(b: Seq<u8>) -> Option<u32> {
    if b.len() >= 5 && b[0] == MSG_CLIENT_ACK {
        Some(from_le32(b, 1))
    } else {
        None
    }
}

/// Reads an acknowledgement; nothing where the message is another.
pub fn decode_ack(bytes: &[u8]) -> (r: Option<u32>)
    ensures
        r == ack_of(bytes@),
{
    if bytes.len() >= 5 && bytes[0] == MSG_CLIENT_ACK {
        Some(
            bytes[1] as u32 + 256 * (bytes[2] as u32) + 65536 * (bytes[3] as u32) + 16777216 * (
            bytes[4] as u32),
        )
    } else {
        None
    }
}

/// The command in a message.
pub open spec fn cmd_of(b: Seq<u8>) -> Option<CmdV> {
    if b.len() > 0 && b[0] == MSG_CLIENT_CMD {
        command_of(b.skip(1))
    } else {
        None
    }
}

/// Reads a message of a client that has joined; nothing where it is neither a command
/// nor an acknowledgement.
pub fn decode_inbound(frame: &[u8]) -> (r: Option<Inbound>)
    ensures
        match r {
            Some(Inbound::Cmd { cmd }) => cmd_of(frame@) == Some(cmd@),
            Some(Inbound::Ack { tick }) => ack_of(frame@) == Some(tick),
            None => cmd_of(frame@) is None && ack_of(frame@) is None,
        },
{
    if frame.len() == 0 {
        return None;
    }
    if frame[0] == MSG_CLIENT_CMD {
        assert(frame@.subrange(1, frame@.len() as int) =~= frame@.skip(1));
        match decode_command(&frame[1..frame.len()]) {
            Some(cmd) => Some(Inbound::Cmd { cmd }),
            None => None,
        }
    } else {
        match decode_ack(frame) {
            Some(tick) => Some(Inbound::Ack { tick }),
            None => None,
        }
    }
}

/// Whether a frame is also sent as a datagram: changes and events are.
pub fn wants_datagram(frame: &[u8]) -> (r: bool)
    ensures
        r == (frame@.len() > 0 && (frame@[0] == MSG_SERVER_DELTA || frame@[0]
            == MSG_SERVER_EVENTS)),
{
    frame.len() > 0 && (frame[0] == MSG_SERVER_DELTA || frame[0] == MSG_SERVER_EVENTS)
}

/// The hash of the server's certificate, for clients to compare.
#[derive(Debug)]
pub struct CertSummary {
    pub hash_hex: String,
}

/// Bytes in hexadecimal, two digits each.
pub open spec fn hex_text(b: Seq<u8>) -> Seq<char>
    decreases b.len(),
{
    if b.len() == 0 {
        Seq::empty()
    } else {
        hex_text(b.drop_last()).push(hex_char(b.last() as int / 16)).push(
            hex_char(b.last() as int % 16),
        )
    }
}

fn hex_digit_char(d: u8) -> (r: char)
    requires
        d < 16,
    ensures
        r == hex_char(d as int),
{
    if d < 10 {
        (48 + d) as char
    } else {
        (87 + d) as char
    }
}

impl CertSummary {
    /// The summary of a certificate with the given hash.
    pub fn of_hash(hash: &[u8]) -> (r: Self)
        ensures
            r.hash_hex@ == hex_text(hash@),
    {
        let mut out: String = String::new();
        let mut k: usize = 0;
        assert(hash@.take(0) =~= Seq::<u8>::empty());
        assert(out@ =~= Seq::<char>::empty());
        while k < hash.len()
            invariant
                k <= hash.len(),
                out@ == hex_text(hash@.take(k as int)),
            decreases hash.len() - k,
        {
            assert(hash@.take(k + 1).drop_last() =~= hash@.take(k as int));
            out.push(hex_digit_char(hash[k] / 16));
            out.push(hex_digit_char(hash[k] % 16));
            k = k + 1;
        }
        assert(hash@.take(k as int) =~= hash@);
        CertSummary { hash_hex: out }
    }
}

/// A connected client.
#[derive(Debug)]
pub struct ClientState {
    pub pid: u16,
    pub uuid: String,
    pub wire_state: ClientWireState,
    pub last_ack: u32,
}

/// A connected client.
#[verifier::ext_equal]
pub struct ClientV {
    pub pid: u16,
    pub uuid: Seq<char>,
    pub wire: WireV,
    pub last_ack: u32,
}

impl View for ClientState {
    type V = ClientV;

    open spec fn view(&self) -> ClientV {
        ClientV {
            pid: self.pid,
            uuid: self.uuid@,
            wire: self.wire_state@,
            last_ack: self.last_ack,
        }
    }
}

/// What the clients of a list are.
pub open spec fn clients_of(v: Seq<ClientState>) -> Seq<ClientV> {
    Seq::new(v.len(), |k: int| v[k]@)
}

/// What the frames of a list hold.
pub open spec fn frames_of(v: Seq<Vec<u8>>) -> Seq<Seq<u8>> {
    Seq::new(v.len(), |k: int| v[k]@)
}

/// Something that happened to a session.
#[derive(Debug)]
pub enum SessionEvent {
    /// A client joined; `saved` is what the store holds of the player.
    Join { uuid: String, name: String, saved: Option<PlayerSave> },
    Cmd { pid: u16, cmd: ClientCmd },
    Ack { pid: u16, tick: u32 },
    Disconnect { pid: u16 },
}

/// What is to be done after an event.
#[derive(Debug)]
pub enum Reply {
    /// Nothing.
    Nothing,
    /// The client is the given player and is sent the frames.
    Joined { pid: u16, frames: Vec<Vec<u8>> },
    /// The player has left and is to be stored as the record says.
    Left { pid: u16, save: Option<PlayerSave> },
}

/// The world and the clients connected to it.
pub struct Server {
    pub sim: Sim,
    pub clients: Vec<ClientState>,
}

/// The world and the clients connected to it.
#[verifier::ext_equal]
pub struct ServerV {
    pub sim: SimV,
    pub clients: Seq<ClientV>,
}

impl View for Server {
    type V = ServerV;

    open spec fn view(&self) -> ServerV {
        ServerV { sim: self.sim@, clients: clients_of(self.clients@) }
    }
}

/// Picks the client of a player.
pub open spec fn client_is(pid: u16) -> spec_fn(ClientV) -> bool {
    |c: ClientV| c.pid == pid
}

/// Every client is a player of the world.
pub open spec fn clients_ok(clients: Seq<ClientV>, s: SimV) -> bool {
    forall|k: int| 0 <= k < clients.len() ==> s.has((#[trigger] clients[k]).pid)
}

/// A client knows the objects on the map.
pub open spec fn knows_cells(s: SimV, c: ClientV) -> bool {
    &&& s.objects.len() <= c.wire.objects.len()
    &&& knows_objects(s.objects, c.wire.objects, s.objects.len() as int)
}

/// The last five lines of the chat.
pub open spec fn recent_chat(chat: Seq<ChatV>) -> Seq<ChatV> {
    if chat.len() <= 5 {
        chat
    } else {
        chat.skip(chat.len() - 5)
    }
}

/// A list with one more frame, if there is one.
pub open spec fn with_frame(frames: Seq<Seq<u8>>, f: Option<Seq<u8>>) -> Seq<Seq<u8>> {
    match f {
        Some(b) => frames.push(b),
        None => frames,
    }
}

impl SimV {
    /// The frames that a player is sent of its own lines after a tick: its log, and
    /// the last lines of the chat with those for it alone.
    pub open spec fn own_frames(self, pid: u16, frames: Seq<Seq<u8>>) -> Seq<Seq<u8>> {
        with_frame(
            with_frame(frames, log_frame(self.p(pid).log)),
            chat_frame(self.tick, recent_chat(self.chat) + self.p(pid).private_chat),
        )
    }

    /// The world after a player was sent its own lines.
    pub open spec fn lines_sent(self, pid: u16) -> SimV {
        self.put(
            pid,
            PlayerV { log: Seq::empty(), private_chat: Seq::empty(), ..self.p(pid) },
        )
    }
}

impl ServerV {
    /// Where the client of a player stands in the list.
    pub open spec fn place_of(self, pid: u16) -> int {
        crate::search::first_at(self.clients, client_is(pid), 0)
    }

    /// The client of a player that joins, as it is at first.
    pub open spec fn new_client(s: SimV, pid: u16, uuid: Seq<char>) -> ClientV {
        ClientV { pid, uuid, wire: baseline(s, knows_nothing()).1, last_ack: s.tick as u32 }
    }

    /// The frames that a client is sent when it joins.
    pub open spec fn welcome(s: SimV, pid: u16, uuid: Seq<char>) -> Seq<Seq<u8>> {
        seq![
            init_frame(s, pid, uuid),
            seq![MSG_SERVER_CATALOGS] + crate::codec::long_text(catalogs_json()),
            baseline(s, knows_nothing()).0,
            s.you_frame(pid),
        ]
    }

    /// The state after a client joined.
    pub open spec fn after_join(
        self,
        uuid: Seq<char>,
        name: Seq<char>,
        saved: Option<SaveV>,
        today: i32,
    ) -> ServerV {
        let s = self.sim.joined(uuid, name_for(name), saved, today);
        let pid = self.sim.players.next_slot();
        ServerV { sim: s, clients: self.clients.push(ServerV::new_client(s, pid, uuid)) }
    }

    /// The state after an acknowledgement.
    pub open spec fn after_ack(self, pid: u16, tick: u32) -> ServerV {
        let k = self.place_of(pid);
        if k < self.clients.len() {
            ServerV {
                clients: self.clients.update(k, ClientV { last_ack: tick, ..self.clients[k] }),
                ..self
            }
        } else {
            self
        }
    }

    /// The state after a client left. The last client takes its place in the list.
    pub open spec fn after_leave(self, pid: u16) -> ServerV {
        let k = self.place_of(pid);
        if k < self.clients.len() {
            let s = self.sim.cancel_trade(pid, "Other player disconnected."@);
            ServerV {
                sim: SimV { players: s.players.remove_entity(pid), ..s },
                clients: self.clients.update(k, self.clients.last()).drop_last(),
            }
        } else {
            self
        }
    }

    /// The state after the first `n` clients were sent what a tick brought, and the
    /// frames for each of them.
    pub open spec fn served(self, n: int) -> (ServerV, Seq<Seq<Seq<u8>>>)
        decreases n,
    {
        if n <= 0 {
            (self, Seq::empty())
        } else {
            let (v, out) = self.served(n - 1);
            let c = v.clients[n - 1];
            let (bytes, wire) = delta(v.sim, c.wire, c.last_ack);
            let first = with_frame(
                seq![bytes, v.sim.you_frame(c.pid)],
                events_frame(v.sim.tick, v.sim.events),
            );
            let clients = v.clients.update(n - 1, ClientV { wire, ..c });
            if v.sim.players.is_live(c.pid as int) {
                (
                    ServerV { sim: v.sim.lines_sent(c.pid), clients },
                    out.push(v.sim.own_frames(c.pid, first)),
                )
            } else {
                (ServerV { sim: v.sim, clients }, out.push(first))
            }
        }
    }

    /// Every client knows the objects on the map.
    pub open spec fn objects_known(self) -> bool {
        forall|k: int| 0 <= k < self.clients.len() ==> knows_cells(self.sim, #[trigger] self.clients[k])
    }

    /// Every client knows the world as it is.
    pub open spec fn up_to_date(self) -> bool {
        forall|k: int|
            0 <= k < self.clients.len() ==> knows_world(self.sim, (#[trigger] self.clients[k]).wire)
    }

    /// The state after a tick, and the frames for each client.
    pub open spec fn after_tick(self) -> (ServerV, Seq<Seq<Seq<u8>>>) {
        ServerV { sim: self.sim.ticked(), ..self }.served(self.clients.len() as int)
    }
}

proof fn lemma_served(v: ServerV, n: int)
    requires
        0 <= n <= v.clients.len(),
        clients_ok(v.clients, v.sim),
        cells_ok(v.sim.objects_dirty, v.sim.objects.len()),
        forall|k: int|
            0 <= k < v.clients.len() ==> v.sim.objects.len() <= (
            #[trigger] v.clients[k]).wire.objects.len() && knows_the_rest(v.sim, v.clients[k].wire),
    ensures
        v.served(n).0.clients.len() == v.clients.len(),
        looks_like(v.sim, v.served(n).0.sim),
        forall|k: int|
            0 <= k < n ==> knows_cells(v.sim, #[trigger] v.served(n).0.clients[k]),
        numbered(v.sim) ==> forall|k: int|
            0 <= k < n ==> knows_world(v.sim, (#[trigger] v.served(n).0.clients[k]).wire),
        forall|k: int|
            n <= k < v.clients.len() ==> #[trigger] v.served(n).0.clients[k] == v.clients[k],
    decreases n,
{
    if n > 0 {
        lemma_served(v, n - 1);
        let (u, _) = v.served(n - 1);
        let c = v.clients[n - 1];
        assert(u.clients[n - 1] == c);
        let wire = delta(u.sim, c.wire, c.last_ack).1;
        law_delta_tells_objects(u.sim, c.wire, c.last_ack);
        if numbered(v.sim) {
            law_delta_informs(u.sim, c.wire, c.last_ack);
            law_looks_suffice(u.sim, v.sim, wire);
        }
        assert(v.sim.has(c.pid));
        assert(looks_like(v.sim, v.served(n).0.sim));
        assert forall|k: int| 0 <= k < n implies v.served(n).0.clients[k] == (if k < n - 1 {
            u.clients[k]
        } else {
            ClientV { wire, ..c }
        }) by {}
    }
}

proof fn lemma_join(v: ServerV, uuid: Seq<char>, name: Seq<char>, saved: Option<SaveV>, today: i32)
    requires
        v.objects_known(),
    ensures
        v.after_join(uuid, name, saved, today).objects_known(),
{
    let u = v.after_join(uuid, name, saved, today);
    lemma_joined_keeps(v.sim, uuid, name_for(name), saved, today);
    law_baseline_tells_objects(u.sim);
    assert forall|k: int| 0 <= k < u.clients.len() implies knows_cells(
        u.sim,
        #[trigger] u.clients[k],
    ) by {
        if k < v.clients.len() {
            assert(knows_cells(v.sim, v.clients[k]));
        }
    }
}

/// What is to be done after a tick: the frames for each client, in their order, and
/// the records to store, every tenth second.
#[derive(Debug)]
pub struct TickOutput {
    pub frames: Vec<Vec<Vec<u8>>>,
    pub saves: Option<Vec<PlayerSave>>,
}

/// What the frames of lists hold.
pub open spec fn frame_lists(v: Seq<Vec<Vec<u8>>>) -> Seq<Seq<Seq<u8>>> {
    Seq::new(v.len(), |k: int| frames_of(v[k]@))
}

fn push_frame(frames: &mut Vec<Vec<u8>>, f: Vec<u8>)
    ensures
        frames_of(final(frames)@) == frames_of(old(frames)@).push(f@),
{
    frames.push(f);
    assert(frames_of(frames@) =~= frames_of(old(frames)@).push(f@));
}

fn last_lines(chat: &VecDeque<ChatMsg>) -> (r: Vec<ChatMsg>)
    ensures
        chat_of(r@) == recent_chat(chat_of(chat@)),
{
    let n: usize = chat.len();
    let from: usize = if n <= 5 {
        0
    } else {
        n - 5
    };
    let mut out: Vec<ChatMsg> = Vec::new();
    let mut k: usize = from;
    while k < n
        invariant
            from <= k <= n,
            n == chat@.len(),
            out@.len() == k - from,
            forall|j: int| 0 <= j < k - from ==> (#[trigger] out@[j])@ == chat@[from + j]@,
        decreases n - k,
    {
        out.push(chat[k].clone());
        k = k + 1;
    }
    assert(chat_of(out@) =~= recent_chat(chat_of(chat@)));
    out
}

impl Server {
    /// The world is in order and every client is one of its players.
    pub open spec fn wf(&self) -> bool {
        self.sim.wf() && clients_ok(self@.clients, self.sim@)
    }

    /// A server without clients.
    pub fn new(sim: Sim) -> (r: Self)
        requires
            sim.wf(),
        ensures
            r.wf(),
            r@ == (ServerV { sim: sim@, clients: Seq::empty() }),
    {
        let r = Server { sim, clients: Vec::new() };
        assert(r@.clients =~= Seq::<ClientV>::empty());
        r
    }

    fn greet(&self, pid: u16, uuid: &str) -> (r: (Vec<Vec<u8>>, ClientWireState))
        requires
            self.sim.wf(),
            self.sim@.has(pid),
        ensures
            frames_of(r.0@) == ServerV::welcome(self.sim@, pid, uuid@),
            r.1@ == baseline(self.sim@, knows_nothing()).1,
    {
        let mut frames: Vec<Vec<u8>> = Vec::new();
        assert(frames_of(frames@) =~= Seq::<Seq<u8>>::empty());
        push_frame(&mut frames, encode_init(&self.sim, pid, uuid));
        push_frame(&mut frames, encode_catalogs());
        let mut wire_state: ClientWireState = ClientWireState::default();
        let base: Vec<u8> = encode_baseline(&self.sim, &mut wire_state);
        push_frame(&mut frames, base);
        push_frame(&mut frames, encode_youview(&self.sim, pid));
        assert(frames_of(frames@) =~= ServerV::welcome(self.sim@, pid, uuid@));
        (frames, wire_state)
    }

    /// Lets a client join. Returns its player's number and the frames it is sent.
    pub fn join(
        &mut self,
        uuid: String,
        name: &str,
        saved: Option<PlayerSave>,
        today: i32,
    ) -> (r: (u16, Vec<Vec<u8>>))
        requires
            old(self).wf(),
            saved matches Some(s) ==> s@.wf(),
        ensures
            final(self).wf(),
            final(self)@ == old(self)@.after_join(uuid@, name@, view_of(saved), today),
            r.0 == old(self)@.sim.players.next_slot(),
            final(self)@.sim.has(r.0),
            frames_of(r.1@) == ServerV::welcome(final(self)@.sim, r.0, uuid@),
            old(self)@.objects_known() ==> final(self)@.objects_known(),
    {
        let ghost before = self@;
        let ghost uuid_now = uuid@;
        let ghost was_saved = view_of(saved);
        let cleaned: String = clean_name(name);
        proof {
            lemma_joined_keeps(self.sim@, uuid@, name_for(name@), was_saved, today);
        }
        let pid: u16 = self.sim.join_player(uuid.as_str(), cleaned.as_str(), saved, today);
        let (frames, wire_state): (Vec<Vec<u8>>, ClientWireState) = self.greet(pid, uuid.as_str());
        let last_ack: u32 = self.sim.tick as u32;
        let client = ClientState { pid, uuid, wire_state, last_ack };
        self.clients.push(client);
        assert(self@.clients =~= before.clients.push(client@));
        assert(before.sim.players.slots.len() <= self.sim@.players.slots.len());
        proof {
            if before.objects_known() {
                lemma_join(before, uuid_now, name@, was_saved, today);
            }
        }
        (pid, frames)
    }

    fn find_client(&self, pid: u16) -> (r: Option<usize>)
        ensures
            (r is Some) == (self@.place_of(pid) < self@.clients.len()),
            r matches Some(k) ==> k == self@.place_of(pid) && k < self.clients@.len()
                && self@.clients[k as int].pid == pid,
    {
        let ghost v = self@.clients;
        let mut k: usize = 0;
        while k < self.clients.len()
            invariant
                k <= self.clients.len(),
                v == self@.clients,
                forall|j: int| 0 <= j < k ==> !client_is(pid)(#[trigger] v[j]),
            decreases self.clients.len() - k,
        {
            if self.clients[k].pid == pid {
                assert(client_is(pid)(v[k as int]));
                proof {
                    crate::search::lemma_first_is(v, client_is(pid), 0, k as int);
                }
                return Some(k);
            }
            assert(!client_is(pid)(v[k as int]));
            k = k + 1;
        }
        proof {
            crate::search::lemma_first_is(v, client_is(pid), 0, v.len() as int);
        }
        None
    }

    /// Carries a player's command out.
    pub fn command(&mut self, pid: u16, cmd: ClientCmd, today: i32)
        requires
            old(self).wf(),
            old(self)@.sim.has(pid),
        ensures
            final(self).wf(),
            final(self)@ == (ServerV { sim: old(self)@.sim.obeyed(pid, cmd@, today), ..old(self)@ }),
            old(self)@.objects_known() ==> final(self)@.objects_known(),
    {
        proof {
            law_commands_leave_the_map(self@.sim, pid, cmd@, today);
        }
        let ghost before = self@;
        self.sim.handle_cmd(pid, cmd, today);
        assert(self@.clients == before.clients);
    }

    /// Notes which tick a client has seen.
    pub fn ack(&mut self, pid: u16, tick: u32)
        requires
            old(self).wf(),
        ensures
            final(self).wf(),
            final(self)@ == old(self)@.after_ack(pid, tick),
            old(self)@.objects_known() ==> final(self)@.objects_known(),
            old(self)@.up_to_date() ==> final(self)@.up_to_date(),
    {
        let ghost before = self@;
        if let Some(k) = self.find_client(pid) {
            self.clients[k].last_ack = tick;
            assert(self@.clients =~= before.clients.update(
                k as int,
                ClientV { last_ack: tick, ..before.clients[k as int] },
            ));
        }
    }

    /// Lets a client leave. Where it was there, the result is what is to be stored of
    /// its player.
    pub fn disconnect(&mut self, pid: u16) -> (r: Option<Option<PlayerSave>>)
        requires
            old(self).wf(),
        ensures
            final(self).wf(),
            final(self)@ == old(self)@.after_leave(pid),
            (r is Some) == (old(self)@.place_of(pid) < old(self)@.clients.len()),
            r matches Some(save) ==> {
                &&& save is Some == old(self)@.sim.p(pid).alive
                &&& save matches Some(s) ==> s@ == old(self)@.sim.save_of(pid)
            },
            old(self)@.objects_known() ==> final(self)@.objects_known(),
    {
        let ghost before = self@;
        let k: usize = match self.find_client(pid) {
            Some(k) => k,
            None => {
                return None;
            },
        };
        assert(before.clients[k as int].pid == pid);
        let save: Option<PlayerSave> = self.sim.snapshot_player_save(pid);
        self.sim.cancel_player_trade(pid, "Other player disconnected.");
        let ghost s = self.sim@;
        self.sim.players.despawn(pid);
        assert(self.sim@.players == s.players.remove_entity(pid));
        assert(self.sim@.wf()) by {
            assert forall|i: int| 0 <= i < self.sim@.players.slots.len() implies (
            #[trigger] self.sim@.players.slots[i]).ok(
                self.sim@.w,
                self.sim@.h,
                self.sim@.players.slots.len(),
            ) by {
                assert(s.players.slots[i].ok(s.w, s.h, s.players.slots.len()));
            }
        }
        let _ = self.clients.swap_remove(k);
        assert(self@.clients =~= before.clients.update(k as int, before.clients.last()).drop_last());
        Some(save)
    }

    fn serve_own_lines(&mut self, pid: u16, frames: &mut Vec<Vec<u8>>)
        requires
            old(self).wf(),
            old(self)@.sim.has(pid),
        ensures
            final(self).wf(),
            final(self)@ == (ServerV { sim: old(self)@.sim.lines_sent(pid), ..old(self)@ }),
            frames_of(final(frames)@) == old(self)@.sim.own_frames(pid, frames_of(old(frames)@)),
    {
        broadcast use crate::sim::lemma_update_twice;

        let i: usize = pid as usize;
        let recent: Vec<ChatMsg> = last_lines(&self.sim.chat);
        let log: Vec<String> = self.sim.players.take_log(i);
        let private: Vec<ChatMsg> = self.sim.players.take_private(i);
        if let Some(f) = encode_log_lines(log.as_slice()) {
            push_frame(frames, f);
        }
        if let Some(f) = encode_chat(self.sim.tick, recent.as_slice(), private.as_slice()) {
            push_frame(frames, f);
        }
    }

    fn serve(&mut self, k: usize) -> (r: Vec<Vec<u8>>)
        requires
            old(self).wf(),
            k < old(self)@.clients.len(),
        ensures
            final(self).wf(),
            final(self)@.clients.len() == old(self)@.clients.len(),
            ({
                let v = old(self)@;
                let c = v.clients[k as int];
                let (bytes, wire) = delta(v.sim, c.wire, c.last_ack);
                let first = with_frame(
                    seq![bytes, v.sim.you_frame(c.pid)],
                    events_frame(v.sim.tick, v.sim.events),
                );
                let clients = v.clients.update(k as int, ClientV { wire, ..c });
                if v.sim.players.is_live(c.pid as int) {
                    &&& final(self)@ == (ServerV { sim: v.sim.lines_sent(c.pid), clients })
                    &&& frames_of(r@) == v.sim.own_frames(c.pid, first)
                } else {
                    &&& final(self)@ == (ServerV { sim: v.sim, clients })
                    &&& frames_of(r@) == first
                }
            }),
    {
        let ghost v = self@;
        let ghost c = v.clients[k as int];
        let pid: u16 = self.clients[k].pid;
        let acked: u32 = self.clients[k].last_ack;
        let mut frames: Vec<Vec<u8>> = Vec::new();
        assert(frames_of(frames@) =~= Seq::<Seq<u8>>::empty());
        let bytes: Vec<u8> = encode_delta(&self.sim, &mut self.clients[k].wire_state, acked);
        assert(self@.clients =~= v.clients.update(
            k as int,
            ClientV { wire: delta(v.sim, c.wire, c.last_ack).1, ..c },
        ));
        push_frame(&mut frames, bytes);
        push_frame(&mut frames, encode_youview(&self.sim, pid));
        assert(frames_of(frames@) =~= seq![bytes@, v.sim.you_frame(c.pid)]);
        if let Some(f) = encode_events(self.sim.tick, self.sim.events.as_slice()) {
            push_frame(&mut frames, f);
        }
        if self.sim.players.is_alive(pid) {
            self.serve_own_lines(pid, &mut frames);
        }
        frames
    }

    /// Lets a tick pass and gathers what each client is sent.
    pub fn tick(&mut self) -> (r: TickOutput)
        requires
            old(self).wf(),
        ensures
            final(self).wf(),
            final(self)@ == old(self)@.after_tick().0,
            frame_lists(r.frames@) == old(self)@.after_tick().1,
            r.saves is Some == (final(self)@.sim.tick % (10 * TPS) as u64 == 0),
            r.saves matches Some(v) ==> saves_of(v@) == final(self)@.sim.saves(
                final(self)@.sim.players.live(),
            ),
            old(self)@.objects_known() ==> final(self)@.objects_known(),
            old(self)@.objects_known() && numbered(final(self)@.sim) ==> final(self)@.up_to_date(),
    {
        let ghost before = self@;
        self.sim.tick_world();
        let ghost start = self@;
        let mut out: Vec<Vec<Vec<u8>>> = Vec::new();
        let mut k: usize = 0;
        assert(frame_lists(out@) =~= Seq::<Seq<Seq<u8>>>::empty());
        while k < self.clients.len()
            invariant
                k <= self.clients.len(),
                self.wf(),
                self.clients@.len() == start.clients.len(),
                (self@, frame_lists(out@)) == start.served(k as int),
            decreases self.clients.len() - k,
        {
            let ghost had = frame_lists(out@);
            assert(self@.clients.len() == self.clients@.len());
            let frames: Vec<Vec<u8>> = self.serve(k);
            assert(self@.clients.len() == self.clients@.len());
            out.push(frames);
            assert(frame_lists(out@) =~= had.push(frames_of(frames@)));
            k = k + 1;
        }
        proof {
            if before.objects_known() {
                assert(start.clients == before.clients);
                assert forall|j: int| 0 <= j < start.clients.len() implies start.sim.objects.len()
                    <= (#[trigger] start.clients[j]).wire.objects.len() && knows_the_rest(
                    start.sim,
                    start.clients[j].wire,
                ) by {
                    assert(knows_cells(before.sim, before.clients[j]));
                    law_unlisted_stay_known(
                        before.sim.next_tick(),
                        start.sim,
                        start.clients[j].wire,
                    );
                }
                lemma_served(start, start.clients.len() as int);
                if numbered(self@.sim) {
                    assert forall|j: int| 0 <= j < self@.clients.len() implies knows_world(
                        self@.sim,
                        (#[trigger] self@.clients[j]).wire,
                    ) by {
                        law_looks_suffice(start.sim, self@.sim, self@.clients[j].wire);
                    }
                }
            }
        }
        let saves: Option<Vec<PlayerSave>> = if self.sim.tick % (10 * TPS) == 0 {
            Some(self.sim.save_all())
        } else {
            None
        };
        TickOutput { frames: out, saves }
    }

    /// Carries out what an event asks for and tells what is to be done after it.
    pub fn handle(&mut self, event: SessionEvent, today: i32) -> (r: Reply)
        requires
            old(self).wf(),
            match event {
                SessionEvent::Join { uuid, name, saved } => saved matches Some(s) ==> s@.wf(),
                SessionEvent::Cmd { pid, cmd } => old(self)@.sim.has(pid),
                _ => true,
            },
        ensures
            final(self).wf(),
            old(self)@.objects_known() ==> final(self)@.objects_known(),
            match event {
                SessionEvent::Join { uuid, name, saved } => {
                    &&& final(self)@ == old(self)@.after_join(uuid@, name@, view_of(saved), today)
                    &&& r matches Reply::Joined { pid, frames }
                    &&& pid == old(self)@.sim.players.next_slot()
                    &&& frames_of(frames@) == ServerV::welcome(final(self)@.sim, pid, uuid@)
                },
                SessionEvent::Cmd { pid, cmd } => {
                    &&& final(self)@ == (ServerV {
                        sim: old(self)@.sim.obeyed(pid, cmd@, today),
                        ..old(self)@
                    })
                    &&& r is Nothing
                },
                SessionEvent::Ack { pid, tick } => {
                    &&& final(self)@ == old(self)@.after_ack(pid, tick)
                    &&& r is Nothing
                },
                SessionEvent::Disconnect { pid } => {
                    &&& final(self)@ == old(self)@.after_leave(pid)
                    &&& if old(self)@.place_of(pid) < old(self)@.clients.len() {
                        r matches Reply::Left { pid: who, save } && who == pid && save is Some
                            == old(self)@.sim.p(pid).alive && (save matches Some(s) ==> s@
                            == old(self)@.sim.save_of(pid))
                    } else {
                        r is Nothing
                    }
                },
            },
    {
        match event {
            SessionEvent::Join { uuid, name, saved } => {
                let (pid, frames): (u16, Vec<Vec<u8>>) = self.join(
                    uuid,
                    name.as_str(),
                    saved,
                    today,
                );
                Reply::Joined { pid, frames }
            },
            SessionEvent::Cmd { pid, cmd } => {
                self.command(pid, cmd, today);
                Reply::Nothing
            },
            SessionEvent::Ack { pid, tick } => {
                self.ack(pid, tick);
                Reply::Nothing
            },
            SessionEvent::Disconnect { pid } => {
                match self.disconnect(pid) {
                    Some(save) => Reply::Left { pid, save },
                    None => Reply::Nothing,
                }
            },
        }
    }
}

} // verus!
