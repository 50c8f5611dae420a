//! Sessions: who joins, what is sent, and what is stored.

use tradscape::codec::BufWriter;
use tradscape::command::ClientCmd;
use tradscape::map::MapDef;
use tradscape::session::{
    decode_ack, decode_inbound, decode_join, frame_header, frame_length, read_join, wants_datagram,
    CertSummary, Inbound, Reply, Server, SessionError, SessionEvent,
};
use tradscape::sim::Sim;
use tradscape::types::{Obj, Tile, TPS};

fn glade() -> Server {
    let map = MapDef {
        w: 6,
        h: 6,
        tiles: vec![Tile::Grass; 36],
        objects: vec![Obj::Bush { berries: 2, regrow: 0 }; 36],
        mobs: Vec::new(),
        player_spawn: (1, 1),
    };
    Server::new(Sim::new(map, 1))
}

fn join_frame(uuid: &str, name: &str) -> Vec<u8> {
    let mut w = BufWriter::new();
    w.u8(1);
    w.str_u8(uuid);
    w.str_u8(name);
    w.into_vec()
}

fn come(server: &mut Server, uuid: &str, name: &str) -> (u16, Vec<Vec<u8>>) {
    let event = SessionEvent::Join { uuid: uuid.to_string(), name: name.to_string(), saved: None };
    match server.handle(event, 1) {
        Reply::Joined { pid, frames } => (pid, frames),
        _ => panic!("not joined"),
    }
}

#[test]
fn frame_lengths_are_read_back() {
    for n in [0usize, 1, 255, 256, 70_000, 4 * 1024 * 1024] {
        let h = frame_header(n);
        assert_eq!(h, (n as u32).to_le_bytes());
        assert_eq!(frame_length(&h), Ok(n));
    }
}

#[test]
fn frames_may_not_be_too_long() {
    let e = frame_length(&frame_header(4 * 1024 * 1024 + 1)).unwrap_err();
    assert_eq!(e, SessionError::FrameTooLarge { len: 4194305 });
    assert_eq!(e.message(), "frame too large: 4194305");
}

#[test]
fn the_first_message_must_be_a_join() {
    for b in [&[][..], &[2], &[6, 4]] {
        assert!(decode_join(b).is_none());
        let e = read_join(b).err().unwrap();
        assert_eq!(e, SessionError::NotAJoin);
        assert_eq!(e.message(), "first message must be ClientJoin");
    }
}

#[test]
fn joins_name_who_comes() {
    let id = "550e8400-e29b-41d4-a716-446655440000";
    let j = read_join(&join_frame("550E8400-E29B-41D4-A716-446655440000", "Ann")).unwrap();
    assert_eq!((j.uuid.as_str(), j.name.as_str()), (id, "Ann"));
    let j = read_join(&join_frame("", "")).unwrap();
    assert_eq!((j.uuid.len(), j.name.as_str()), (36, ""));
    let j = read_join(&[1]).unwrap();
    assert_eq!((j.uuid.len(), j.name.as_str()), (36, "Adventurer"));
    // A length without its text is skipped, and the name is read behind it.
    assert_eq!(decode_join(&[1, 9, 1, b'x']), Some((String::new(), "x".to_string())));
    assert_eq!(decode_join(&[1, 1, b'u', 7, b'x']), Some(("u".to_string(), "Adventurer".to_string())));
}

#[test]
fn messages_of_a_session_are_decoded() {
    assert!(matches!(decode_inbound(&[6, 4]), Some(Inbound::Cmd { cmd: ClientCmd::Stop })));
    assert!(matches!(decode_inbound(&[5, 1, 2, 0, 0, 99]), Some(Inbound::Ack { tick: 513 })));
    assert!(decode_inbound(&[6]).is_none());
    assert!(decode_inbound(&[5, 1, 2, 0]).is_none());
    assert!(decode_inbound(&[7, 1, 2, 0, 0]).is_none());
    assert!(decode_inbound(&[]).is_none());
    assert_eq!(decode_ack(&[5, 0, 0, 0, 1]), Some(0x0100_0000));
    assert_eq!(decode_ack(&[6, 0, 0, 0, 1]), None);
}

#[test]
fn changes_and_events_go_as_datagrams_too() {
    for k in 0..=12u8 {
        assert_eq!(wants_datagram(&[k, 0]), k == 4 || k == 8);
    }
    assert!(!wants_datagram(&[]));
}

#[test]
fn certificates_are_summarised_in_hexadecimal() {
    assert_eq!(CertSummary::of_hash(&[0, 10, 255, 0x5c]).hash_hex, "000aff5c");
    assert_eq!(CertSummary::of_hash(&[]).hash_hex, "");
}

#[test]
fn those_who_join_are_welcomed() {
    let mut server = glade();
    let (pid, frames) = come(&mut server, "u", "  Ann ");
    assert_eq!(pid, 0);
    let kinds: Vec<u8> = frames.iter().map(|f| f[0]).collect();
    assert_eq!(kinds, vec![2, 10, 3, 11]);
    assert_eq!(server.sim.players.name[0], "Ann");
    assert_eq!(server.clients.len(), 1);
    assert_eq!(server.clients[0].last_ack, 0);
}

#[test]
fn ticks_bring_changes_to_everyone() {
    let mut server = glade();
    let (a, _) = come(&mut server, "u", "Ann");
    let (b, _) = come(&mut server, "v", "Bob");
    server.handle(SessionEvent::Cmd { pid: a, cmd: ClientCmd::Chat { text: "hello".to_string() } }, 1);
    let out = server.tick();
    assert_eq!(out.frames.len(), 2);
    for frames in &out.frames {
        let kinds: Vec<u8> = frames.iter().map(|f| f[0]).collect();
        assert_eq!(kinds, vec![4, 11, 9, 7]);
    }
    assert!(server.sim.players.log[a as usize].is_empty());
    let out = server.tick();
    let kinds: Vec<u8> = out.frames[b as usize].iter().map(|f| f[0]).collect();
    assert_eq!(kinds, vec![4, 11, 7]);
}

#[test]
fn chat_frames_carry_the_tick() {
    let mut server = glade();
    let (a, _) = come(&mut server, "u", "Ann");
    server.handle(SessionEvent::Cmd { pid: a, cmd: ClientCmd::Chat { text: "hello".to_string() } }, 1);
    for _ in 0..300 {
        let out = server.tick();
        let now = (server.sim.tick as u32).to_le_bytes();
        let chats: Vec<&Vec<u8>> = out.frames[0].iter().filter(|f| f[0] == 7).collect();
        assert_eq!(chats.len(), 1);
        assert_eq!(chats[0][1..5], now);
        let changes: Vec<&Vec<u8>> = out.frames[0].iter().filter(|f| f[0] == 4).collect();
        assert_eq!(changes[0][1..5], now);
    }
}

#[test]
fn clients_know_the_world_after_a_tick() {
    let mut server = glade();
    come(&mut server, "u", "Ann");
    come(&mut server, "v", "Bob");
    for _ in 0..5 {
        server.tick();
        for c in &server.clients {
            for (k, m) in c.wire_state.objects.iter().enumerate() {
                assert_eq!(m.json, tradscape::json::obj_text(server.sim.objects[k]));
            }
            for pid in server.sim.players.iter_live() {
                let m = &c.wire_state.players[pid as usize];
                assert!(m.seen);
                assert_eq!((m.x, m.y), (server.sim.players.xs[pid as usize], server.sim.players.ys[pid as usize]));
            }
        }
    }
}

#[test]
fn acknowledgements_are_noted() {
    let mut server = glade();
    let (pid, _) = come(&mut server, "u", "Ann");
    assert!(matches!(server.handle(SessionEvent::Ack { pid, tick: 77 }, 1), Reply::Nothing));
    assert_eq!(server.clients[0].last_ack, 77);
    server.handle(SessionEvent::Ack { pid: 500, tick: 1 }, 1);
    let out = server.tick();
    assert_eq!(&out.frames[0][0][5..9], &[77, 0, 0, 0]);
}

#[test]
fn those_who_leave_are_stored() {
    let mut server = glade();
    let (a, _) = come(&mut server, "u", "Ann");
    let (b, _) = come(&mut server, "v", "Bob");
    let (c, _) = come(&mut server, "w", "Cid");
    server.sim.begin_player_trade(a, b);
    match server.handle(SessionEvent::Disconnect { pid: a }, 1) {
        Reply::Left { pid, save } => {
            assert_eq!(pid, a);
            assert_eq!(save.unwrap().uuid, "u");
        }
        _ => panic!("not left"),
    }
    assert_eq!(server.sim.players.log[b as usize].last().unwrap(), "Other player disconnected.");
    let left: Vec<u16> = server.clients.iter().map(|k| k.pid).collect();
    assert_eq!(left, vec![c, b]);
    assert!(!server.sim.players.is_alive(a));
    assert!(matches!(server.handle(SessionEvent::Disconnect { pid: a }, 1), Reply::Nothing));
}

#[test]
fn everyone_is_stored_every_tenth_second() {
    let mut server = glade();
    come(&mut server, "u", "Ann");
    come(&mut server, "v", "Bob");
    for _ in 0..3 {
        for _ in 0..10 * TPS - 1 {
            assert!(server.tick().saves.is_none());
        }
        let saves = server.tick().saves.unwrap();
        let ids: Vec<String> = saves.iter().map(|s| s.uuid.clone()).collect();
        assert_eq!(ids, vec!["u".to_string(), "v".to_string()]);
    }
}
