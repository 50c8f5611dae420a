//! How a client reads the other frames: where it is, what it is, what happened, and what it is
//! told.

use vstd::prelude::*;
use vstd::utf8::encode_utf8;
use crate::codec::{
    from_le16, from_le32, law_long_text_round_trip, law_short_text_round_trip, law_u16_round_trip,
    law_u32_round_trip, le16, le32, long_text, long_text_at, short_text, short_text_at,
};
use crate::sim::{EventRec, SimV};
use crate::talk::{lemma_long_text_length, sendable};
use crate::wire::{
    event_bytes, events_bytes, events_frame, init_frame, log_frame, schema_number, texts_bytes,
    tile_byte,
};

verus! {

/// Whether bytes hold an event at a place: a byte for what happened, the column and the row, and
/// for a hit how much it was.
pub open spec fn holds_event(b: Seq<u8>, at: int, e: EventRec) -> bool {
    let what = b[at];
    let (x, y) = (from_le16(b, at + 1), from_le16(b, at + 3));
    match e {
        EventRec::Chop { x: c, y: r } => what == 0 && x == c as u16 && y == r as u16,
        EventRec::Mine { x: c, y: r } => what == 1 && x == c as u16 && y == r as u16,
        EventRec::Pick { x: c, y: r } => what == 2 && x == c as u16 && y == r as u16,
        EventRec::Fish { x: c, y: r } => what == 3 && x == c as u16 && y == r as u16,
        EventRec::HitMob { x: c, y: r, dmg } => what == 4 && x == c as u16 && y == r as u16
            && from_le16(b, at + 5) == dmg as u16,
        EventRec::MissMob { x: c, y: r } => what == 5 && x == c as u16 && y == r as u16,
        EventRec::HitPlayer { x: c, y: r, dmg } => what == 6 && x == c as u16 && y == r as u16
            && from_le16(b, at + 5) == dmg as u16,
        EventRec::MissPlayer { x: c, y: r } => what == 7 && x == c as u16 && y == r as u16,
    }
}

/// Whether bytes hold, from a place to their end, the given events.
pub open spec fn holds_events(b: Seq<u8>, at: int, v: Seq<EventRec>) -> bool
    decreases v.len(),
{
    if v.len() == 0 {
        at == b.len()
    } else {
        &&& 0 <= at < b.len()
        &&& holds_event(b, at, v[0])
        &&& holds_events(
            b,
            at + if b[at] == 4 || b[at] == 6 {
                7
            } else {
                5int
            },
            v.skip(1),
        )
    }
}

proof fn lemma_events_front(v: Seq<EventRec>)
    requires
        v.len() > 0,
    ensures
        events_bytes(v) == event_bytes(v[0]) + events_bytes(v.skip(1)),
    decreases v.len(),
{
    if v.len() == 1 {
        assert(v.drop_last() =~= Seq::<EventRec>::empty());
        assert(v.skip(1) =~= Seq::<EventRec>::empty());
        assert(events_bytes(v) =~= event_bytes(v[0]) + events_bytes(v.skip(1)));
    } else {
        lemma_events_front(v.drop_last());
        assert(v.drop_last().skip(1) =~= v.skip(1).drop_last());
        assert(v.skip(1).last() == v.last());
        assert(events_bytes(v) =~= event_bytes(v[0]) + events_bytes(v.skip(1)));
    }
}

proof fn lemma_place(b: Seq<u8>, x: Seq<u8>, what: u8, c: u16, r: u16, rest: Seq<u8>)
    requires
        b == x + (seq![what] + le16(c) + le16(r)) + rest,
    ensures
        x.len() < b.len(),
        b[x.len() as int] == what,
        from_le16(b, x.len() as int + 1) == c,
        from_le16(b, x.len() as int + 3) == r,
{
    let k = seq![what];
    assert(b =~= (x + k) + le16(c) + (le16(r) + rest));
    law_u16_round_trip(x + k, c, le16(r) + rest);
    assert(b =~= (x + k + le16(c)) + le16(r) + rest);
    law_u16_round_trip(x + k + le16(c), r, rest);
    assert(b[x.len() as int] == k[0]);
}

proof fn lemma_hit(b: Seq<u8>, x: Seq<u8>, what: u8, c: u16, r: u16, d: u16, rest: Seq<u8>)
    requires
        b == x + (seq![what] + le16(c) + le16(r) + le16(d)) + rest,
    ensures
        x.len() < b.len(),
        b[x.len() as int] == what,
        from_le16(b, x.len() as int + 1) == c,
        from_le16(b, x.len() as int + 3) == r,
        from_le16(b, x.len() as int + 5) == d,
{
    let top = seq![what] + le16(c) + le16(r);
    assert(b =~= x + top + (le16(d) + rest));
    lemma_place(b, x, what, c, r, le16(d) + rest);
    assert(b =~= (x + top) + le16(d) + rest);
    law_u16_round_trip(x + top, d, rest);
}

proof fn lemma_event(b: Seq<u8>, x: Seq<u8>, e: EventRec, rest: Seq<u8>)
    requires
        b == x + event_bytes(e) + rest,
    ensures
        x.len() < b.len(),
        holds_event(b, x.len() as int, e),
        event_bytes(e).len() == if b[x.len() as int] == 4 || b[x.len() as int] == 6 {
            7
        } else {
            5int
        },
{
    match e {
        EventRec::Chop { x: c, y: r } => lemma_place(b, x, 0, c as u16, r as u16, rest),
        EventRec::Mine { x: c, y: r } => lemma_place(b, x, 1, c as u16, r as u16, rest),
        EventRec::Pick { x: c, y: r } => lemma_place(b, x, 2, c as u16, r as u16, rest),
        EventRec::Fish { x: c, y: r } => lemma_place(b, x, 3, c as u16, r as u16, rest),
        EventRec::HitMob { x: c, y: r, dmg } => lemma_hit(
            b,
            x,
            4,
            c as u16,
            r as u16,
            dmg as u16,
            rest,
        ),
        EventRec::MissMob { x: c, y: r } => lemma_place(b, x, 5, c as u16, r as u16, rest),
        EventRec::HitPlayer { x: c, y: r, dmg } => lemma_hit(
            b,
            x,
            6,
            c as u16,
            r as u16,
            dmg as u16,
            rest,
        ),
        EventRec::MissPlayer { x: c, y: r } => lemma_place(b, x, 7, c as u16, r as u16, rest),
    }
}

proof fn lemma_holds_events(x: Seq<u8>, v: Seq<EventRec>)
    ensures
        holds_events(x + events_bytes(v), x.len() as int, v),
    decreases v.len(),
{
    if v.len() == 0 {
        assert(x + events_bytes(v) =~= x);
    } else {
        let rest = events_bytes(v.skip(1));
        lemma_events_front(v);
        let b = x + events_bytes(v);
        assert(b =~= x + event_bytes(v[0]) + rest);
        lemma_event(b, x, v[0], rest);
        lemma_holds_events(x + event_bytes(v[0]), v.skip(1));
    }
}

/// A frame of events tells the tick, how many events it holds, and each of them.
pub proof fn law_events_read_back(tick: u64, v: Seq<EventRec>)
    requires
        v.len() <= 0xffff,
    ensures
        v.len() == 0 ==> events_frame(tick, v) is None,
        v.len() > 0 ==> (events_frame(tick, v) matches Some(f) && f[0] == 8 && from_le32(f, 1)
            == tick as u32 && from_le16(f, 5) == v.len() && holds_events(f, 7, v)),
{
    if v.len() > 0 {
        let kind = seq![crate::wire::MSG_SERVER_EVENTS];
        let (t, n) = (le32(tick as u32), le16(v.len() as u16));
        let f = events_frame(tick, v).unwrap();
        let rest = events_bytes(v);
        assert(f =~= kind + t + (n + rest));
        law_u32_round_trip(kind, tick as u32, n + rest);
        assert(f =~= (kind + t) + n + rest);
        law_u16_round_trip(kind + t, v.len() as u16, rest);
        lemma_holds_events(kind + t + n, v);
    }
}

/// Whether bytes hold, from a place to their end, the given texts.
pub open spec fn holds_texts(b: Seq<u8>, at: int, v: Seq<Seq<char>>) -> bool
    decreases v.len(),
{
    if v.len() == 0 {
        at == b.len()
    } else {
        long_text_at(b, at) == Some(v[0]) && holds_texts(b, at + 2 + from_le16(b, at), v.skip(1))
    }
}

proof fn lemma_texts_front(v: Seq<Seq<char>>)
    requires
        v.len() > 0,
    ensures
        texts_bytes(v) == long_text(v[0]) + texts_bytes(v.skip(1)),
    decreases v.len(),
{
    if v.len() == 1 {
        assert(v.drop_last() =~= Seq::<Seq<char>>::empty());
        assert(v.skip(1) =~= Seq::<Seq<char>>::empty());
        assert(texts_bytes(v) =~= long_text(v[0]) + texts_bytes(v.skip(1)));
    } else {
        lemma_texts_front(v.drop_last());
        assert(v.drop_last().skip(1) =~= v.skip(1).drop_last());
        assert(v.skip(1).last() == v.last());
        assert(texts_bytes(v) =~= long_text(v[0]) + texts_bytes(v.skip(1)));
    }
}

proof fn lemma_holds_texts(x: Seq<u8>, v: Seq<Seq<char>>)
    requires
        forall|k: int| 0 <= k < v.len() ==> sendable(#[trigger] v[k]),
    ensures
        holds_texts(x + texts_bytes(v), x.len() as int, v),
    decreases v.len(),
{
    if v.len() == 0 {
        assert(x + texts_bytes(v) =~= x);
    } else {
        let rest = texts_bytes(v.skip(1));
        lemma_texts_front(v);
        let b = x + texts_bytes(v);
        assert(sendable(v[0]));
        assert(b =~= x + long_text(v[0]) + rest);
        law_long_text_round_trip(x, v[0], rest);
        lemma_long_text_length(v[0], x, rest);
        assert forall|k: int| 0 <= k < v.skip(1).len() implies sendable(#[trigger] v.skip(1)[k]) by {
            assert(v.skip(1)[k] == v[k + 1]);
        }
        lemma_holds_texts(x + long_text(v[0]), v.skip(1));
    }
}

/// A frame of a player's log tells how many lines it holds, and each of them.
pub proof fn law_logs_read_back(lines: Seq<Seq<char>>)
    requires
        lines.len() <= 0xffff,
        forall|k: int| 0 <= k < lines.len() ==> sendable(#[trigger] lines[k]),
    ensures
        lines.len() == 0 ==> log_frame(lines) is None,
        lines.len() > 0 ==> (log_frame(lines) matches Some(f) && f[0] == 9 && from_le16(f, 1)
            == lines.len() && holds_texts(f, 3, lines)),
{
    if lines.len() > 0 {
        let kind = seq![crate::wire::MSG_SERVER_LOG];
        let n = le16(lines.len() as u16);
        let rest = texts_bytes(lines);
        law_u16_round_trip(kind, lines.len() as u16, rest);
        lemma_holds_texts(kind + n, lines);
    }
}

/// The first frame tells a client the number of the layout, the size of the map, its own number
/// and identity, and every tile.
pub proof fn law_welcomes_read_back(s: SimV, pid: u16, uuid: Seq<char>, k: int)
    requires
        encode_utf8(uuid).len() <= 0xff,
        s.tiles.len() <= i32::MAX,
        0 <= k < s.tiles.len(),
    ensures
        ({
            let f = init_frame(s, pid, uuid);
            let n = encode_utf8(uuid).len();
            &&& f[0] == 2
            &&& from_le32(f, 1) == schema_number()
            &&& from_le16(f, 5) == s.w as u16
            &&& from_le16(f, 7) == s.h as u16
            &&& from_le16(f, 9) == pid
            &&& short_text_at(f, 11) == Some(uuid)
            &&& from_le32(f, 12 + n as int) == s.tiles.len()
            &&& f[16 + n + k] == tile_byte(s.tiles[k])
            &&& f.len() == 16 + n + s.tiles.len()
        }),
{
    reveal(init_frame);
    let f = init_frame(s, pid, uuid);
    let e = encode_utf8(uuid);
    let kind = seq![crate::wire::MSG_SERVER_INIT];
    let a = le32(schema_number());
    let (w, h, p) = (le16(s.w as u16), le16(s.h as u16), le16(pid));
    let id = short_text(uuid);
    let n = le32(s.tiles.len() as u32);
    let tiles = Seq::new(s.tiles.len(), |j: int| tile_byte(s.tiles[j]));
    assert(e.take(e.len() as int) =~= e);
    assert(id.len() == 1 + e.len());
    let rest = id + n + tiles;
    lemma_sizes(f, kind + a, s.w as u16, s.h as u16, pid, rest);
    assert(f =~= kind + a + (w + h + p + rest));
    law_u32_round_trip(kind, schema_number(), w + h + p + rest);
    let x = kind + a + w + h + p;
    assert(f =~= x + id + (n + tiles));
    law_short_text_round_trip(x, uuid, n + tiles);
    assert(f =~= (x + id) + n + tiles);
    law_u32_round_trip(x + id, s.tiles.len() as u32, tiles);
    assert((x + id + n).len() == 16 + e.len());
    assert(f[(x + id + n).len() + k] == tiles[k]);
}

proof fn lemma_sizes(f: Seq<u8>, x: Seq<u8>, w: u16, h: u16, p: u16, rest: Seq<u8>)
    requires
        x.len() == 5,
        f =~= x + le16(w) + le16(h) + le16(p) + rest,
    ensures
        from_le16(f, 5) == w,
        from_le16(f, 7) == h,
        from_le16(f, 9) == p,
{
    assert(f =~= x + le16(w) + (le16(h) + le16(p) + rest));
    law_u16_round_trip(x, w, le16(h) + le16(p) + rest);
    assert(f =~= (x + le16(w)) + le16(h) + (le16(p) + rest));
    law_u16_round_trip(x + le16(w), h, le16(p) + rest);
    law_u16_round_trip(x + le16(w) + le16(h), p, rest);
}

/// What a player is told of itself is the text that says it.
pub proof fn law_own_frames_read_back(s: SimV, pid: u16)
    requires
        sendable(s.you_json(pid)),
    ensures
        s.you_frame(pid)[0] == 11,
        s.players.is_live(pid as int) ==> long_text_at(s.you_frame(pid), 1) == Some(
            s.you_json(pid),
        ),
        !s.players.is_live(pid as int) ==> s.you_frame(pid).len() == 1,
{
    reveal(SimV::you_frame);
    let kind = seq![crate::wire::MSG_SERVER_YOUVIEW];
    let none = Seq::<u8>::empty();
    law_long_text_round_trip(kind, s.you_json(pid), none);
    assert(kind + long_text(s.you_json(pid)) + none =~= kind + long_text(s.you_json(pid)));
}

} // verus!
