//! What is said and who hears it: the newest lines reach everybody who is connected, and a
//! slash command is heard by nobody else.

use vstd::prelude::*;
use vstd::utf8::encode_utf8;
use crate::chat::{chat_line, last_lines, name_for};
use crate::codec::{
    from_le16, from_le32, law_long_text_round_trip, law_u16_round_trip, law_u32_round_trip, le16,
    le32, long_text, long_text_at,
};
use crate::footing::law_acting_moves_nobody;
use crate::pools::{lemma_live_below, PlayerV};
use crate::session::{recent_chat, ServerV};
use crate::sim::SimV;
use crate::text::{control, has_prefix, lemma_printable_already, white};
use crate::types::{closed_ui, ChatV, Intent};
use crate::wire::{chat_bytes, chat_frame, chats_bytes};

verus! {

/// The last lines of a list, at most so many.
pub open spec fn newest(chat: Seq<ChatV>, most: int) -> Seq<ChatV> {
    let n = if chat.len() < most {
        chat.len() as int
    } else {
        most
    };
    Seq::new(n as nat, |k: int| chat[chat.len() - n + k])
}

/// The lines that are sent after a tick are the five newest ones, or all where there are less,
/// in the order in which they were said.
pub proof fn law_the_newest_lines_are_sent(chat: Seq<ChatV>)
    ensures
        recent_chat(chat) == newest(chat, 5),
        chat.len() > 0 ==> recent_chat(chat).len() > 0 && recent_chat(chat).last() == chat.last(),
{
    assert(recent_chat(chat) =~= newest(chat, 5));
}

/// A line that is said is the newest one, the ones before it stay in their order, and of more
/// than fifty the oldest goes.
pub proof fn law_lines_are_kept(s: SimV, pid: u32, name: Seq<char>, text: Seq<char>)
    requires
        s.chat.len() <= 50,
    ensures
        ({
            let line = ChatV { id: s.chat_seq.wrapping_add(1), tick: s.tick, pid, name, text };
            &&& s.say(pid, name, text).chat == newest(s.chat.push(line), 50)
            &&& s.say(pid, name, text).players == s.players
        }),
{
    let line = ChatV { id: s.chat_seq.wrapping_add(1), tick: s.tick, pid, name, text };
    assert(last_lines(s.chat.push(line)) =~= newest(s.chat.push(line), 50));
}

/// Whether a text is short enough to be sent whole.
pub open spec fn sendable(t: Seq<char>) -> bool {
    encode_utf8(t).len() <= 0xffff
}

/// Whether bytes hold a line at a place: its number, its tick, its player, the name and the
/// text.
pub open spec fn holds_line(b: Seq<u8>, at: int, m: ChatV) -> bool {
    &&& at + 12 <= b.len()
    &&& from_le32(b, at) == m.id as u32
    &&& from_le32(b, at + 4) == m.tick as u32
    &&& from_le32(b, at + 8) == m.pid
    &&& long_text_at(b, at + 12) == Some(m.name)
    &&& long_text_at(b, at + 14 + from_le16(b, at + 12)) == Some(m.text)
}

/// Where a line ends that begins at a place.
pub open spec fn line_end(b: Seq<u8>, at: int) -> int {
    let name_end = at + 14 + from_le16(b, at + 12);
    name_end + 2 + from_le16(b, name_end)
}

/// Whether bytes hold, from a place to their end, the given lines.
pub open spec fn holds_lines(b: Seq<u8>, at: int, lines: Seq<ChatV>) -> bool
    decreases lines.len(),
{
    if lines.len() == 0 {
        at == b.len()
    } else {
        holds_line(b, at, lines[0]) && holds_lines(b, line_end(b, at), lines.skip(1))
    }
}

proof fn lemma_chats_front(v: Seq<ChatV>)
    requires
        v.len() > 0,
    ensures
        chats_bytes(v) == chat_bytes(v[0]) + chats_bytes(v.skip(1)),
    decreases v.len(),
{
    if v.len() == 1 {
        assert(v.drop_last() =~= Seq::<ChatV>::empty());
        assert(v.skip(1) =~= Seq::<ChatV>::empty());
        assert(chats_bytes(v) =~= chat_bytes(v[0]) + chats_bytes(v.skip(1)));
    } else {
        lemma_chats_front(v.drop_last());
        assert(v.drop_last().skip(1) =~= v.skip(1).drop_last());
        assert(v.skip(1).last() == v.last());
        assert(chats_bytes(v) =~= chat_bytes(v[0]) + chats_bytes(v.skip(1)));
    }
}

pub proof fn lemma_long_text_length(s: Seq<char>, before: Seq<u8>, after: Seq<u8>)
    requires
        sendable(s),
    ensures
        long_text(s).len() == 2 + encode_utf8(s).len(),
        from_le16(before + long_text(s) + after, before.len() as int) == encode_utf8(s).len(),
{
    let e = encode_utf8(s);
    assert(e.take(e.len() as int) =~= e);
    assert(before + long_text(s) + after =~= before + le16(e.len() as u16) + (e + after));
    law_u16_round_trip(before, e.len() as u16, e + after);
}

proof fn lemma_line_numbers(before: Seq<u8>, m: ChatV, rest: Seq<u8>)
    ensures
        ({
            let b = before + (le32(m.id as u32) + le32(m.tick as u32) + le32(m.pid)) + rest;
            let at = before.len() as int;
            &&& at + 12 <= b.len()
            &&& from_le32(b, at) == m.id as u32
            &&& from_le32(b, at + 4) == m.tick as u32
            &&& from_le32(b, at + 8) == m.pid
        }),
{
    let (i, t, p) = (le32(m.id as u32), le32(m.tick as u32), le32(m.pid));
    let b = before + (i + t + p) + rest;
    assert(b =~= before + i + (t + p + rest));
    law_u32_round_trip(before, m.id as u32, t + p + rest);
    assert(b =~= (before + i) + t + (p + rest));
    law_u32_round_trip(before + i, m.tick as u32, p + rest);
    assert(b =~= (before + i + t) + p + rest);
    law_u32_round_trip(before + i + t, m.pid, rest);
}

proof fn lemma_line_texts(before: Seq<u8>, m: ChatV, rest: Seq<u8>)
    requires
        sendable(m.name),
        sendable(m.text),
    ensures
        ({
            let b = before + long_text(m.name) + long_text(m.text) + rest;
            let at = before.len() as int;
            let next = at + 2 + from_le16(b, at);
            &&& long_text_at(b, at) == Some(m.name)
            &&& long_text_at(b, next) == Some(m.text)
            &&& next + 2 + from_le16(b, next) == b.len() - rest.len()
        }),
{
    let (name, text) = (long_text(m.name), long_text(m.text));
    let b = before + name + text + rest;
    assert(b =~= before + name + (text + rest));
    law_long_text_round_trip(before, m.name, text + rest);
    lemma_long_text_length(m.name, before, text + rest);
    law_long_text_round_trip(before + name, m.text, rest);
    lemma_long_text_length(m.text, before + name, rest);
}

proof fn lemma_line(before: Seq<u8>, m: ChatV, rest: Seq<u8>)
    requires
        sendable(m.name),
        sendable(m.text),
    ensures
        ({
            let b = before + chat_bytes(m) + rest;
            &&& holds_line(b, before.len() as int, m)
            &&& line_end(b, before.len() as int) == b.len() - rest.len()
        }),
{
    let head = le32(m.id as u32) + le32(m.tick as u32) + le32(m.pid);
    let (name, text) = (long_text(m.name), long_text(m.text));
    let b = before + chat_bytes(m) + rest;
    assert(b =~= before + head + (name + text + rest));
    lemma_line_numbers(before, m, name + text + rest);
    assert(b =~= (before + head) + name + text + rest);
    lemma_line_texts(before + head, m, rest);
    assert(head.len() == 12);
}

proof fn lemma_holds_lines(before: Seq<u8>, lines: Seq<ChatV>)
    requires
        forall|k: int|
            0 <= k < lines.len() ==> sendable((#[trigger] lines[k]).name) && sendable(
                lines[k].text,
            ),
    ensures
        holds_lines(before + chats_bytes(lines), before.len() as int, lines),
    decreases lines.len(),
{
    if lines.len() == 0 {
        assert(before + chats_bytes(lines) =~= before);
    } else {
        let m = lines[0];
        let rest = chats_bytes(lines.skip(1));
        lemma_chats_front(lines);
        let b = before + chats_bytes(lines);
        assert(b =~= before + chat_bytes(m) + rest);
        lemma_line(before, m, rest);
        assert forall|k: int| 0 <= k < lines.skip(1).len() implies sendable(
            (#[trigger] lines.skip(1)[k]).name,
        ) && sendable(lines.skip(1)[k].text) by {
            assert(lines.skip(1)[k] == lines[k + 1]);
        }
        lemma_holds_lines(before + chat_bytes(m), lines.skip(1));
    }
}

proof fn lemma_chat_opening(tick: u32, n: u16, rest: Seq<u8>)
    ensures
        ({
            let f = seq![crate::wire::MSG_SERVER_CHAT] + le32(tick) + le16(n) + rest;
            f[0] == 7 && from_le32(f, 1) == tick && from_le16(f, 5) == n
        }),
{
    let kind = seq![crate::wire::MSG_SERVER_CHAT];
    let f = kind + le32(tick) + le16(n) + rest;
    assert(f =~= kind + le32(tick) + (le16(n) + rest));
    law_u32_round_trip(kind, tick, le16(n) + rest);
    law_u16_round_trip(kind + le32(tick), n, rest);
}

/// A frame of chat lines tells the tick, how many lines it holds, and each of them.
pub proof fn law_chat_frames_read_back(tick: u64, lines: Seq<ChatV>)
    requires
        0 < lines.len() <= 0xffff,
        forall|k: int|
            0 <= k < lines.len() ==> sendable((#[trigger] lines[k]).name) && sendable(
                lines[k].text,
            ),
    ensures
        chat_frame(tick, lines) matches Some(f) && f[0] == 7 && from_le32(f, 1) == tick as u32
            && from_le16(f, 5) == lines.len() && holds_lines(f, 7, lines),
{
    let rest = chats_bytes(lines);
    let top = seq![crate::wire::MSG_SERVER_CHAT] + le32(tick as u32) + le16(lines.len() as u16);
    assert(chat_frame(tick, lines) == Some(top + rest));
    lemma_chat_opening(tick as u32, lines.len() as u16, rest);
    lemma_holds_lines(top, lines);
    assert(top.len() == 7);
}

proof fn lemma_turns_keep_chat(s: SimV, ids: Seq<u16>, n: int)
    requires
        0 <= n <= ids.len(),
        s.players.slots.len() <= 0x1_0000,
        forall|k: int| 0 <= k < ids.len() ==> (#[trigger] ids[k]) < s.players.slots.len(),
    ensures
        s.players_turns(ids, n).chat == s.chat,
        s.players_turns(ids, n).tick == s.tick,
        s.players_turns(ids, n).players.slots.len() == s.players.slots.len(),
    decreases n,
{
    if n > 0 {
        lemma_turns_keep_chat(s, ids, n - 1);
        let u = s.players_turns(ids, n - 1);
        let pid = ids[n - 1];
        if let Some(t) = u.bound_for(pid) {
            law_acting_moves_nobody(u, pid, t);
        }
    }
}

proof fn lemma_mobs_keep_chat(s: SimV, ids: Seq<u16>, n: int)
    ensures
        s.mobs_turns(ids, n).chat == s.chat,
        s.mobs_turns(ids, n).tick == s.tick,
    decreases n,
{
    if n > 0 {
        lemma_mobs_keep_chat(s, ids, n - 1);
    }
}

/// A tick changes nothing in the chat that all see, and moves the clock by one.
pub proof fn law_ticks_keep_the_chat(s: SimV)
    requires
        s.players.slots.len() <= 0x1_0000,
    ensures
        s.ticked().chat == s.chat,
        s.ticked().tick == s.tick.wrapping_add(1),
{
    let g = s.next_tick().grown();
    let pids = g.players.live();
    lemma_live_below(g.players.alive(), g.players.slots.len() as int);
    lemma_turns_keep_chat(g, pids, pids.len() as int);
    let u = g.players_turns(pids, pids.len() as int);
    lemma_mobs_keep_chat(u, u.mobs.live(), u.mobs.live().len() as int);
}

/// Whether frames end with one that holds the newest lines of a chat, and maybe lines for one
/// player alone behind them.
pub open spec fn ends_with_chat(frames: Seq<Seq<u8>>, tick: u64, chat: Seq<ChatV>) -> bool {
    exists|private: Seq<ChatV>| #[trigger]
        chat_frame(tick, newest(chat, 5) + private) == Some(frames.last()) && frames.len() > 0
}

proof fn lemma_served_chat(v: ServerV, n: int)
    requires
        0 <= n <= v.clients.len(),
        forall|k: int| 0 <= k < v.clients.len() ==> v.sim.has((#[trigger] v.clients[k]).pid),
    ensures
        v.served(n).0.clients.len() == v.clients.len(),
        v.served(n).1.len() == n,
        v.served(n).0.sim.chat == v.sim.chat,
        v.served(n).0.sim.tick == v.sim.tick,
        v.served(n).0.sim.players.slots.len() == v.sim.players.slots.len(),
        forall|k: int|
            0 <= k < v.sim.players.slots.len() ==> (#[trigger] v.served(
                n,
            ).0.sim.players.slots[k]).alive == v.sim.players.slots[k].alive,
        forall|k: int| 0 <= k < v.clients.len() ==> (#[trigger] v.served(n).0.clients[k]).pid
            == v.clients[k].pid,
        forall|k: int|
            0 <= k < n && v.sim.players.slots[v.clients[k].pid as int].alive && v.sim.chat.len()
                > 0 ==> ends_with_chat(#[trigger] v.served(n).1[k], v.sim.tick, v.sim.chat),
    decreases n,
{
    if n > 0 {
        lemma_served_chat(v, n - 1);
        let (u, out) = v.served(n - 1);
        let c = u.clients[n - 1];
        assert(c.pid == v.clients[n - 1].pid);
        assert(v.sim.has(v.clients[n - 1].pid));
        let now = v.served(n).1;
        law_the_newest_lines_are_sent(u.sim.chat);
        assert forall|k: int|
            0 <= k < n && v.sim.players.slots[v.clients[k].pid as int].alive && v.sim.chat.len()
                > 0 implies ends_with_chat(#[trigger] now[k], v.sim.tick, v.sim.chat) by {
            if k < n - 1 {
                assert(now[k] == out[k]);
            } else {
                let private = u.sim.p(c.pid).private_chat;
                assert(u.sim.players.slots[c.pid as int].alive);
                assert(chat_frame(u.sim.tick, newest(u.sim.chat, 5) + private) == Some(
                    now[k].last(),
                ));
            }
        }
    }
}

/// Everybody who is connected and there is sent the newest lines of the chat with the next
/// tick: whatever was said last is in the frame.
pub proof fn law_everybody_hears_the_newest_lines(v: ServerV, k: int)
    requires
        0 <= k < v.clients.len(),
        v.sim.players.slots.len() <= 0x1_0000,
        forall|j: int| 0 <= j < v.clients.len() ==> v.sim.has((#[trigger] v.clients[j]).pid),
        v.sim.chat.len() > 0,
        v.sim.ticked().players.slots.len() == v.sim.players.slots.len(),
        v.sim.ticked().players.slots[v.clients[k].pid as int].alive,
    ensures
        v.after_tick().1.len() == v.clients.len(),
        ends_with_chat(v.after_tick().1[k], v.sim.tick.wrapping_add(1), v.sim.chat),
{
    law_ticks_keep_the_chat(v.sim);
    let u = ServerV { sim: v.sim.ticked(), ..v };
    lemma_served_chat(u, v.clients.len() as int);
}

/// A text without control characters and without white space at its ends, of at most 160
/// characters, is shown as it was typed.
pub proof fn law_plain_text_is_shown_as_typed(text: Seq<char>)
    requires
        0 < text.len() <= 160,
        forall|k: int| 0 <= k < text.len() ==> !control(#[trigger] text[k]),
        !white(text[0]),
        !white(text.last()),
    ensures
        chat_line(text) == text,
{
    lemma_printable_already(text);
}

/// A line that is no command is said by the player under its name, to everybody and once.
pub proof fn law_lines_are_said(s: SimV, pid: u16, text: Seq<char>, today: i32)
    requires
        s.has(pid),
        s.chat.len() <= 50,
        chat_line(text).len() > 0,
        chat_line(text)[0] != '/',
    ensures
        ({
            let t = s.typed(pid, text, today);
            &&& t.chat == newest(
                s.chat.push(
                    ChatV {
                        id: s.chat_seq.wrapping_add(1),
                        tick: s.tick,
                        pid: pid as u32,
                        name: s.p(pid).name,
                        text: chat_line(text),
                    },
                ),
                50,
            )
            &&& t.players == s.players
        }),
{
    reveal(SimV::typed);
    reveal_strlit("/help");
    reveal_strlit("/online");
    reveal_strlit("/die");
    reveal_strlit("/nick ");
    let line = chat_line(text);
    if has_prefix(line, "/nick "@) {
        assert(line.take(6)[0] == line[0]);
        assert("/nick "@[0] == '/');
    }
    assert("/help"@[0] == '/' && "/online"@[0] == '/' && "/die"@[0] == '/');
    law_lines_are_kept(s, pid as u32, s.p(pid).name, line);
}

/// A command other than that for another name is not said to anybody, and nobody else is told
/// in private.
pub proof fn law_commands_are_not_said(s: SimV, pid: u16, text: Seq<char>, today: i32, other: int)
    requires
        s.has(pid),
        s.players.slots.len() <= 0x1_0000,
        chat_line(text).len() > 0,
        chat_line(text)[0] == '/',
        !(chat_line(text).len() >= 6 && chat_line(text).take(6) == "/nick "@),
        0 <= other < s.players.slots.len(),
        other != pid,
    ensures
        s.typed(pid, text, today).chat == s.chat,
        s.typed(pid, text, today).players.slots[other].private_chat
            == s.players.slots[other].private_chat,
{
    reveal(SimV::typed);
    reveal_strlit("/nick ");
}

/// Who asks for another name gets the name it asked for, cleaned, and everybody is told, by the
/// name that it had.
pub proof fn law_names_change(s: SimV, pid: u16, text: Seq<char>, today: i32)
    requires
        s.has(pid),
        s.chat.len() <= 50,
        chat_line(text).len() >= 6,
        chat_line(text).take(6) == "/nick "@,
    ensures
        ({
            let t = s.typed(pid, text, today);
            let name = name_for(chat_line(text).skip(6));
            &&& t.p(pid) == (PlayerV { name, ..s.p(pid) })
            &&& t.chat.len() > 0
            &&& t.chat.last().name == "System"@
            &&& t.chat.last().text == s.p(pid).name + " is now known as "@ + name + "."@
            &&& forall|k: int|
                0 <= k < s.players.slots.len() && k != pid ==> #[trigger] t.players.slots[k]
                    == s.players.slots[k]
        }),
{
    reveal(SimV::typed);
    reveal_strlit("/help");
    reveal_strlit("/online");
    reveal_strlit("/die");
    reveal_strlit("/nick ");
    let line = chat_line(text);
    assert(line.take(6)[1] == line[1] && "/nick "@[1] == 'n');
    assert("/help"@[1] == 'h' && "/online"@[1] == 'o' && "/die"@[1] == 'd');
}

/// Who gives up wakes at the start with all its hit points, nothing to do and all its things,
/// skills and name.
pub proof fn law_giving_up(s: SimV, pid: u16, text: Seq<char>, today: i32)
    requires
        s.has(pid),
        s.players.slots.len() <= 0x1_0000,
        0 <= s.p(pid).skills.hp <= 108,
        chat_line(text) == "/die"@,
    ensures
        ({
            let (p, q) = (s.p(pid), s.typed(pid, text, today).p(pid));
            &&& (q.x, q.y) == (s.player_spawn.0 as i16, s.player_spawn.1 as i16)
            &&& q.hp_cur == p.skills.hp
            &&& (q.inv, q.equipment) == (p.inv, p.equipment)
            &&& (q.skills, q.name) == (p.skills, p.name)
            &&& q.intent == Intent::Idle
            &&& q.target is None
            &&& q.ui == closed_ui()
            &&& q.trade.partner is None
        }),
{
    reveal(SimV::typed);
    reveal_strlit("/help");
    reveal_strlit("/online");
    reveal_strlit("/die");
    reveal_strlit("/nick ");
    assert("/help"@.len() == 5 && "/online"@.len() == 7 && "/die"@.len() == 4);
}

/// Who asks for help is told how the commands and the controls are, and who asks who is there
/// is told two lines; both in private.
pub proof fn law_answers_are_private(s: SimV, pid: u16, text: Seq<char>, today: i32)
    requires
        s.players.is_live(pid as int),
        chat_line(text) == "/help"@ || chat_line(text) == "/online"@,
    ensures
        ({
            let t = s.typed(pid, text, today);
            let (p, q) = (s.p(pid).private_chat, t.p(pid).private_chat);
            &&& q.len() == p.len() + 2
            &&& q.take(p.len() as int) == p
            &&& q[p.len() as int].name == "System"@ && q[p.len() as int + 1].name == "System"@
            &&& q[p.len() as int].tick == s.tick && q[p.len() as int + 1].tick == s.tick
            &&& t.chat == s.chat
        }),
{
    reveal(SimV::typed);
    reveal_strlit("/help");
    reveal_strlit("/online");
    assert("/help"@.len() == 5 && "/online"@.len() == 7);
    let t = s.typed(pid, text, today);
    let (p, q) = (s.p(pid).private_chat, t.p(pid).private_chat);
    assert(q.take(p.len() as int) =~= p);
}

/// A name of at most 20 characters, without control characters and without white space at its ends,
/// is kept as it is.
pub proof fn law_plain_names_are_kept(name: Seq<char>)
    requires
        0 < name.len() <= 20,
        forall|k: int| 0 <= k < name.len() ==> !control(#[trigger] name[k]),
        !white(name[0]),
        !white(name.last()),
    ensures
        name_for(name) == name,
{
    crate::text::lemma_clean_already(name, 20);
}

/// Of a longer name the first 20 characters are kept, without the white space at their end.
pub proof fn law_long_names_are_cut(name: Seq<char>, n: int)
    requires
        0 < n <= 20 < name.len(),
        forall|k: int| 0 <= k < name.len() ==> !control(#[trigger] name[k]),
        !white(name[0]),
        !white(name[n - 1]),
        forall|k: int| n <= k < 20 ==> white(#[trigger] name[k]),
    ensures
        name_for(name) == name.take(n),
{
    lemma_printable_already(name);
    let t = name.take(20);
    assert(crate::text::at_most(name, 20) =~= t);
    lemma_trimmed_back(t, n);
}

proof fn lemma_trimmed_back(t: Seq<char>, n: int)
    requires
        0 < n <= t.len(),
        !white(t[0]),
        !white(t[n - 1]),
        forall|k: int| n <= k < t.len() ==> white(#[trigger] t[k]),
    ensures
        crate::text::trimmed(t) == t.take(n),
    decreases t.len(),
{
    if n < t.len() {
        lemma_trimmed_back(t.drop_last(), n);
        assert(t.drop_last().take(n) =~= t.take(n));
    } else {
        assert(t.take(n) =~= t);
    }
}

} // verus!
