//! Chat: cleaned lines, the slash commands, and who visited today.

use vstd::prelude::*;
use crate::pools::{lemma_live_below, PlayerV};
use crate::sim::{lemma_update_twice, Sim, SimV, CHAT_KEPT};
use crate::text::{
    at_most, chars_of, clean_chars, control, decimal, has_prefix, in_order, join2, join4, join_texts,
    joined, law_cleaning_settles, law_trimmed, lemma_clean_already, nat_text, printable, same_text,
    sort_texts, starts_with, text_of, trim, trimmed,
};
use crate::types::{chat_of, closed_ui, texts_of, ChatV};
use crate::types::{ChatMsg, Intent, UiState};

verus! {

broadcast use lemma_update_twice;

/// How long a chat line may be.
pub const CHAT_LEN: usize = 160;

/// How long a name may be.
pub const NAME_LEN: usize = 20;

/// The name that a player gets for the one it asked for: its first 20 printable
/// characters without white space around them, `Adventurer` where nothing is left.
pub open spec fn name_for(name: Seq<char>) -> Seq<char> {
    let clean = trimmed(at_most(printable(name), NAME_LEN as nat));
    if clean.len() == 0 {
        "Adventurer"@
    } else {
        clean
    }
}

/// Every name has between 1 and 20 characters.
pub proof fn law_name_length(name: Seq<char>)
    ensures
        1 <= name_for(name).len() <= NAME_LEN,
{
    reveal_strlit("Adventurer");
    law_trimmed(at_most(printable(name), NAME_LEN as nat));
}

/// A name that a player has is one that it gets again.
pub proof fn law_name_settles(name: Seq<char>)
    ensures
        name_for(name_for(name)) == name_for(name),
{
    reveal_strlit("Adventurer");
    law_cleaning_settles(name, NAME_LEN as nat);
    let a = "Adventurer"@;
    assert(a.len() == 10);
    assert forall|k: int| 0 <= k < a.len() implies !control(#[trigger] a[k]) by {
        assert(a[k] as u32 >= 65);
        assert(a[k] as u32 <= 122);
    }
    lemma_clean_already(a, NAME_LEN as nat);
}

fn clean_name_chars(cs: &Vec<char>) -> (r: String)
    ensures
        r@ == name_for(cs@),
{
    let clean: Vec<char> = trim(&clean_chars(cs, NAME_LEN));
    if clean.len() == 0 {
        "Adventurer".to_owned()
    } else {
        text_of(&clean)
    }
}

/// The name that a player gets for the one it asked for.
pub fn clean_name(name: &str) -> (r: String)
    ensures
        r@ == name_for(name@),
{
    clean_name_chars(&chars_of(name))
}

/// The line that is shown for what a player typed.
pub open spec fn chat_line(text: Seq<char>) -> Seq<char> {
    at_most(printable(trimmed(text)), CHAT_LEN as nat)
}

/// The last lines of a chat.
pub open spec fn last_lines(chat: Seq<ChatV>) -> Seq<ChatV> {
    if chat.len() <= CHAT_KEPT {
        chat
    } else {
        chat.skip(chat.len() - CHAT_KEPT)
    }
}

impl SimV {
    /// The world after a line was added to the chat that everybody sees.
    pub open spec fn say(self, pid: u32, name: Seq<char>, text: Seq<char>) -> SimV {
        let seq = self.chat_seq.wrapping_add(1);
        let msg = ChatV { id: seq, tick: self.tick, pid, name, text };
        SimV { chat_seq: seq, chat: last_lines(self.chat.push(msg)), ..self }
    }

    /// The world on a day: the visitors of another day are forgotten.
    pub open spec fn on_day(self, today: i32) -> SimV {
        if self.day != today {
            SimV { day: today, visitors: Seq::empty(), ..self }
        } else {
            self
        }
    }

    /// The world after a player was noted as a visitor of the day.
    pub open spec fn visited(self, uuid: Seq<char>, today: i32) -> SimV {
        let s = self.on_day(today);
        if s.visitors.contains(uuid) {
            s
        } else {
            SimV { visitors: s.visitors.push(uuid), ..s }
        }
    }

    /// The names of the live players.
    pub open spec fn live_names(self) -> Seq<Seq<char>> {
        Seq::new(
            self.players.live().len(),
            |k: int| self.players.slots[self.players.live()[k] as int].name,
        )
    }

    /// The list of the names of the live players, in order.
    pub open spec fn name_list(self) -> Seq<char> {
        if self.live_names().len() == 0 {
            "(none)"@
        } else {
            joined(in_order(self.live_names()), ", "@)
        }
    }

    /// The world after a player died by its own hand: back at the start, unhurt.
    pub open spec fn give_up(self, pid: u16) -> SimV {
        let s = self.cancel_trade(pid, "Trade cancelled."@);
        let p = s.p(pid);
        s.put(
            pid,
            PlayerV {
                hp_cur: p.skills.hp as i16,
                x: self.player_spawn.0 as i16,
                y: self.player_spawn.1 as i16,
                ui: closed_ui(),
                ..p
            }.idle().said("You die! Respawning..."@),
        )
    }

    /// The world after a player typed a line: a slash command is carried out, any
    /// other line is shown to everybody. A line without printable characters is ignored.
    #[verifier::opaque]
    pub open spec fn typed(self, pid: u16, text: Seq<char>, today: i32) -> SimV {
        let line = chat_line(text);
        if line.len() == 0 {
            self
        } else if line == "/help"@ {
            self.private_chat(pid, "Commands: /help, /online, /nick name, /die"@).private_chat(
                pid,
                "Controls: left click to walk, chop, mine, fish (rod + water), attack, trade. Right click to stop."@,
            )
        } else if line == "/online"@ {
            let s = self.on_day(today);
            s.private_chat(
                pid,
                "Online now: "@ + decimal(s.players.live().len() as int)
                    + " | Unique players today: "@ + decimal(s.visitors.len() as int),
            ).private_chat(pid, "Players: "@ + s.name_list())
        } else if line == "/die"@ {
            self.give_up(pid)
        } else if has_prefix(line, "/nick "@) {
            let name = name_for(line.skip(6));
            self.put(pid, PlayerV { name, ..self.p(pid) }).say(
                0,
                "System"@,
                self.p(pid).name + " is now known as "@ + name + "."@,
            )
        } else if line[0] == '/' {
            self.private_chat(pid, "Unknown command. Try /help."@)
        } else {
            self.say(pid as u32, self.p(pid).name, line)
        }
    }
}

/// A shown line has at most 160 characters.
pub proof fn law_chat_line_length(text: Seq<char>)
    ensures
        chat_line(text).len() <= CHAT_LEN,
{
}

/// A line in the chat is the last one, and at most 50 lines are kept.
pub proof fn law_chat_keeps_last(s: SimV, pid: u32, name: Seq<char>, text: Seq<char>)
    ensures
        0 < s.say(pid, name, text).chat.len() <= CHAT_KEPT,
        s.say(pid, name, text).chat.last() == (ChatV {
            id: s.chat_seq.wrapping_add(1),
            tick: s.tick,
            pid,
            name,
            text,
        }),
{
}

/// A player counts once a day, however often it comes.
pub proof fn law_visit_twice(s: SimV, uuid: Seq<char>, today: i32)
    ensures
        s.visited(uuid, today).visited(uuid, today) == s.visited(uuid, today),
{
    let v = s.on_day(today).visitors;
    if !v.contains(uuid) {
        assert(v.push(uuid)[v.len() as int] == uuid);
    }
}

impl Sim {
    fn say(&mut self, pid: u32, name: String, text: String)
        requires
            old(self).wf(),
        ensures
            final(self).wf(),
            final(self)@.as_many_players(old(self)@),
            final(self)@ == old(self)@.say(pid, name@, text@),
    {
        self.chat_seq = self.chat_seq.wrapping_add(1);
        let ghost before = chat_of(self.chat@);
        let msg = ChatMsg { id: self.chat_seq, tick: self.tick, pid, name, text };
        self.chat.push_back(msg);
        assert(chat_of(self.chat@) =~= before.push(msg@));
        let ghost full = chat_of(self.chat@);
        if self.chat.len() > CHAT_KEPT {
            let _ = self.chat.pop_front();
            assert(chat_of(self.chat@) =~= full.skip(1));
        }
        assert(chat_of(self.chat@) =~= last_lines(full));
    }

    /// Starts a new count of visitors where the day has changed.
    pub fn sync_daily_visitors_day(&mut self, today: i32)
        requires
            old(self).wf(),
        ensures
            final(self).wf(),
            final(self)@.as_many_players(old(self)@),
            final(self)@ == old(self)@.on_day(today),
    {
        if self.daily_visitors_day != today {
            self.daily_visitors_day = today;
            self.daily_visitors.clear();
            assert(texts_of(self.daily_visitors@) =~= Seq::<Seq<char>>::empty());
        }
    }

    /// Notes a player as a visitor of the day.
    pub fn note_player_visit_today(&mut self, uuid: &str, today: i32)
        requires
            old(self).wf(),
        ensures
            final(self).wf(),
            final(self)@.as_many_players(old(self)@),
            final(self)@ == old(self)@.visited(uuid@, today),
    {
        self.sync_daily_visitors_day(today);
        let ghost s = self@;
        let ghost v = texts_of(self.daily_visitors@);
        let mut i: usize = 0;
        while i < self.daily_visitors.len()
            invariant
                i <= self.daily_visitors.len(),
                self.wf(),
                self@ == s,
                s == old(self)@.on_day(today),
                v == s.visitors,
                v == texts_of(self.daily_visitors@),
                forall|k: int| 0 <= k < i ==> v[k] != uuid@,
            decreases self.daily_visitors.len() - i,
        {
            if same_text(self.daily_visitors[i].as_str(), uuid) {
                assert(v[i as int] == uuid@);
                return;
            }
            i = i + 1;
        }
        self.daily_visitors.push(uuid.to_owned());
        assert(texts_of(self.daily_visitors@) =~= v.push(uuid@));
        assert(!v.contains(uuid@));
    }

    fn online_names(&self) -> (r: Vec<String>)
        requires
            self.players.wf(),
        ensures
            texts_of(r@) == self@.live_names(),
    {
        let ids: Vec<u16> = self.players.iter_live();
        proof {
            lemma_live_below(self@.players.alive(), self@.players.slots.len() as int);
        }
        let mut names: Vec<String> = Vec::new();
        let mut i: usize = 0;
        while i < ids.len()
            invariant
                i <= ids.len(),
                self.players.wf(),
                ids@ == self@.players.live(),
                forall|k: int| 0 <= k < ids@.len() ==> (#[trigger] ids@[k]) < self@.players.slots.len(),
                names@.len() == i,
                forall|k: int|
                    0 <= k < i ==> (#[trigger] names@[k])@ == self@.players.slots[ids@[k] as int].name,
            decreases ids.len() - i,
        {
            names.push(self.players.name[ids[i] as usize].clone());
            i = i + 1;
        }
        assert(texts_of(names@) =~= self@.live_names());
        names
    }

    fn list_online(&self) -> (r: String)
        requires
            self.players.wf(),
        ensures
            r@ == self@.name_list(),
    {
        let names: Vec<String> = self.online_names();
        assert(texts_of(names@).len() == names@.len());
        if names.len() == 0 {
            "(none)".to_owned()
        } else {
            join_texts(&sort_texts(&names), ", ")
        }
    }

    fn give_up(&mut self, pid: u16)
        requires
            old(self).wf(),
            old(self)@.has(pid),
        ensures
            final(self).wf(),
            final(self)@.as_many_players(old(self)@),
            final(self)@ == old(self)@.give_up(pid),
    {
        self.cancel_player_trade(pid, "Trade cancelled.");
        let i: usize = pid as usize;
        assert(self@.p(pid).ok(self@.w, self@.h, self@.players.slots.len()));
        let hp: i16 = self.players.skills[i].hp as i16;
        self.players.set_hp(i, hp);
        self.players.set_pos(i, self.player_spawn.0 as i16, self.player_spawn.1 as i16);
        self.players.aim(i, Intent::Idle, None);
        self.players.set_ui(i, UiState::default());
        self.players.push_log(i, "You die! Respawning...".to_owned());
    }

    /// Takes a line that a player typed; the result tells whether the player died
    /// by it.
    pub fn add_chat(&mut self, pid: u16, text: &str, today: i32) -> (r: bool)
        requires
            old(self).wf(),
            old(self)@.has(pid),
        ensures
            final(self).wf(),
            final(self)@.as_many_players(old(self)@),
            final(self)@ == old(self)@.typed(pid, text@, today),
            r == (chat_line(text@) == "/die"@),
    {
        reveal(SimV::typed);
        proof {
            reveal_strlit("/help");
            reveal_strlit("/online");
            reveal_strlit("/die");
            reveal_strlit("/nick ");
        }
        let clean: Vec<char> = clean_chars(&trim(&chars_of(text)), CHAT_LEN);
        assert(clean@ == chat_line(text@));
        if clean.len() == 0 {
            return false;
        }
        let line: String = text_of(&clean);
        if same_text(line.as_str(), "/help") {
            assert("/help"@.len() != "/die"@.len());
            self.push_private_chat(
                pid,
                "Commands: /help, /online, /nick name, /die".to_owned(),
            );
            self.push_private_chat(
                pid,
                "Controls: left click to walk, chop, mine, fish (rod + water), attack, trade. Right click to stop.".to_owned(),
            );
            return false;
        }
        if same_text(line.as_str(), "/online") {
            assert("/online"@.len() != "/die"@.len());
            self.sync_daily_visitors_day(today);
            let n_online: usize = self.players.iter_live().len();
            let n_unique: usize = self.daily_visitors.len();
            assert(self@.visitors.len() == n_unique);
            let list: String = self.list_online();
            let counts: String = join4(
                "Online now: ",
                nat_text(n_online as u64).as_str(),
                " | Unique players today: ",
                nat_text(n_unique as u64).as_str(),
            );
            self.push_private_chat(pid, counts);
            self.push_private_chat(pid, join2("Players: ", list.as_str()));
            return false;
        }
        if same_text(line.as_str(), "/die") {
            self.give_up(pid);
            return true;
        }
        if starts_with(&clean, "/nick ") {
            let mut rest: Vec<char> = Vec::new();
            let mut k: usize = 6;
            while k < clean.len()
                invariant
                    6 <= k <= clean.len(),
                    rest@ == clean@.subrange(6, k as int),
                decreases clean.len() - k,
            {
                rest.push(clean[k]);
                k = k + 1;
                assert(clean@.subrange(6, k as int) =~= clean@.subrange(6, k - 1).push(clean@[k - 1]));
            }
            assert(rest@ =~= clean@.skip(6));
            let new_name: String = clean_name_chars(&rest);
            let i: usize = pid as usize;
            let old_name: String = self.players.name[i].clone();
            self.players.set_name(i, new_name.clone());
            self.say(
                0,
                "System".to_owned(),
                join4(old_name.as_str(), " is now known as ", new_name.as_str(), "."),
            );
            return false;
        }
        if clean[0] == '/' {
            self.push_private_chat(pid, "Unknown command. Try /help.".to_owned());
            return false;
        }
        let name: String = self.players.name[pid as usize].clone();
        self.say(pid as u32, name, line);
        false
    }
}

} // verus!
