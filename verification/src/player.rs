//! The players: the state that the server keeps of each connected client,
//! and the roster of all of them, through which every message is routed.

use vstd::prelude::*;
use vstd::string::*;
use crate::messages::{prompt_message, prompt_text, quit_message, quit_text};
use crate::search::{
    first_match, lemma_filter_step, lemma_first_match, lemma_first_match_none,
    lemma_first_match_some,
};
use crate::text::{line_end, line_of, starts_with, texts};

verus! {

/// One connected client: who it is, where it is, whom it attacks, and what
/// waits to be sent to it.
#[derive(Debug, Clone)]
pub struct Player {
    pub id: u32,
    pub attacking_id: Option<u32>,
    pub name: Option<String>,
    pub room_id: Option<u32>,
    pub outbox: Vec<String>,
}

/// A player as contracts see it.
pub struct PlayerView {
    pub id: u32,
    pub attacking_id: Option<u32>,
    pub name: Option<Seq<char>>,
    pub room_id: Option<u32>,
    pub outbox: Seq<Seq<char>>,
}

/// The text of `o`, if it holds one.
pub open spec fn opt_text(o: Option<String>) -> Option<Seq<char>> {
    match o {
        Some(s) => Some(s@),
        None => None,
    }
}

impl View for Player {
    type V = PlayerView;

    open spec fn view(&self) -> PlayerView {
        PlayerView {
            id: self.id,
            attacking_id: self.attacking_id,
            name: opt_text(self.name),
            room_id: self.room_id,
            outbox: texts(self.outbox@),
        }
    }
}

/// The players of `players` as contracts see them.
pub open spec fn player_views(players: Seq<Player>) -> Seq<PlayerView> {
    players.map_values(|p: Player| p@)
}

/// `p` with `chunk` added to what waits to be sent to it.
pub open spec fn delivered(p: PlayerView, chunk: Seq<char>) -> PlayerView {
    PlayerView { outbox: p.outbox.push(chunk), ..p }
}

/// A player that has just connected: nameless, nowhere, with the prompt
/// waiting for it.
pub open spec fn newcomer(id: u32) -> PlayerView {
    PlayerView {
        id,
        attacking_id: None,
        name: None,
        room_id: None,
        outbox: seq![prompt_text() + line_end()],
    }
}

/// Who receives a message.
#[derive(Debug, Clone, Copy)]
pub enum Audience {
    /// The player `0` alone.
    Only(u32),
    /// Everyone in the room but the player `excluding`.
    Room { room_id: u32, excluding: u32 },
    /// Everyone but the player `excluding`.
    Everyone { excluding: u32 },
}

impl Audience {
    /// Whether `p` belongs to the audience.
    pub open spec fn admits(self, p: PlayerView) -> bool {
        match self {
            Audience::Only(id) => p.id == id,
            Audience::Room { room_id, excluding } => p.id != excluding && p.room_id == Some(room_id),
            Audience::Everyone { excluding } => p.id != excluding,
        }
    }

    /// Whether `p` belongs to the audience.
    pub fn includes(&self, p: &Player) -> (r: bool)
        ensures
            r == self.admits(p@),
    {
        match self {
            Audience::Only(id) => p.id == *id,
            Audience::Room { room_id, excluding } => {
                p.id != *excluding && match p.room_id {
                    Some(r) => r == *room_id,
                    None => false,
                }
            },
            Audience::Everyone { excluding } => p.id != *excluding,
        }
    }
}

/// `players` after `chunk` has been delivered to each of `audience`, once.
pub open spec fn sent(players: Seq<PlayerView>, audience: Audience, chunk: Seq<char>) -> Seq<PlayerView> {
    players.map_values(
        |p: PlayerView|
            if audience.admits(p) {
                delivered(p, chunk)
            } else {
                p
            },
    )
}

/// The test "this player has identity `id`".
pub open spec fn is_player(id: u32) -> spec_fn(PlayerView) -> bool {
    |p: PlayerView| p.id == id
}

/// The test "this player is named and in the room `room_id`".
pub open spec fn is_in_room(room_id: u32) -> spec_fn(PlayerView) -> bool {
    |p: PlayerView| p.name is Some && p.room_id == Some(room_id)
}

/// Where the player `id` stands in `players`.
pub open spec fn player_index(players: Seq<PlayerView>, id: u32) -> Option<int> {
    first_match(players, is_player(id))
}

/// The player `id`, if it is connected.
pub open spec fn player_with(players: Seq<PlayerView>, id: u32) -> Option<PlayerView> {
    match player_index(players, id) {
        Some(i) => Some(players[i]),
        None => None,
    }
}

/// `players` after the nameless player `id` has taken `name` and entered
/// `room_id`; unchanged if there is no such player or it has a name.
pub open spec fn with_name(players: Seq<PlayerView>, id: u32, name: Seq<char>, room_id: u32) -> Seq<PlayerView> {
    match player_index(players, id) {
        Some(i) if players[i].name is None => players.update(
            i,
            PlayerView { name: Some(name), room_id: Some(room_id), ..players[i] },
        ),
        _ => players,
    }
}

/// `players` after the named player `id` has moved to `room_id`; unchanged
/// if there is no such player or it has no name.
pub open spec fn with_room(players: Seq<PlayerView>, id: u32, room_id: u32) -> Seq<PlayerView> {
    match player_index(players, id) {
        Some(i) if players[i].name is Some => players.update(
            i,
            PlayerView { room_id: Some(room_id), ..players[i] },
        ),
        _ => players,
    }
}

/// `players` after the player `id` has taken `target` as its target;
/// unchanged if there is no such player.
pub open spec fn with_target(players: Seq<PlayerView>, id: u32, target: u32) -> Seq<PlayerView> {
    match player_index(players, id) {
        Some(i) => players.update(i, PlayerView { attacking_id: Some(target), ..players[i] }),
        None => players,
    }
}

/// `players` after what waited for the player `id` has been taken out.
pub open spec fn with_empty_outbox(players: Seq<PlayerView>, id: u32) -> Seq<PlayerView> {
    match player_index(players, id) {
        Some(i) => players.update(i, PlayerView { outbox: Seq::empty(), ..players[i] }),
        None => players,
    }
}

/// The test "this player is named, in the room `room_id`, and not the
/// player `excluding`".
pub open spec fn is_neighbour(room_id: u32, excluding: u32) -> spec_fn(PlayerView) -> bool {
    |p: PlayerView| p.id != excluding && p.name is Some && p.room_id == Some(room_id)
}

/// The test "this player has a name that begins with `prefix`".
pub open spec fn is_named_like(prefix: Seq<char>) -> spec_fn(PlayerView) -> bool {
    |p: PlayerView| p.name is Some && prefix.is_prefix_of(p.name->0)
}

/// The name of `p`, empty where it has none.
pub open spec fn name_of(p: PlayerView) -> Seq<char> {
    match p.name {
        Some(n) => n,
        None => Seq::empty(),
    }
}

/// The names of `players`, in their order.
pub open spec fn names_of(players: Seq<PlayerView>) -> Seq<Seq<char>> {
    players.map_values(|p: PlayerView| name_of(p))
}

/// The named players in the room `room_id`, in the order of the roster.
pub open spec fn occupants(players: Seq<PlayerView>, room_id: u32) -> Seq<PlayerView> {
    players.filter(is_in_room(room_id))
}

/// The names of the named players in the room `room_id` other than the
/// player `excluding`, in the order of the roster.
pub open spec fn neighbour_names(players: Seq<PlayerView>, room_id: u32, excluding: u32) -> Seq<Seq<char>> {
    names_of(players.filter(is_neighbour(room_id, excluding)))
}

/// The first player whose name begins with `prefix`, if there is one.
pub open spec fn first_named_like(players: Seq<PlayerView>, prefix: Seq<char>) -> Option<PlayerView> {
    match first_match(players, is_named_like(prefix)) {
        Some(i) => Some(players[i]),
        None => None,
    }
}

/// The players that `players` refers to, as contracts see them.
pub open spec fn ref_views(players: Seq<&Player>) -> Seq<PlayerView> {
    players.map_values(|p: &Player| p@)
}

/// The roster as contracts see it.
pub struct RegistryView {
    pub players: Seq<PlayerView>,
    pub next_id: u32,
}

/// What holds of every roster: identities rise along it and lie below the
/// next one to be given, and a player has a room exactly if it has a name.
pub open spec fn roster_ok(r: RegistryView) -> bool {
    &&& forall|i: int, j: int|
        0 <= i < j < r.players.len() ==> (#[trigger] r.players[i]).id < (#[trigger] r.players[j]).id
    &&& forall|i: int| 0 <= i < r.players.len() ==> (#[trigger] r.players[i]).id < r.next_id
    &&& forall|i: int|
        0 <= i < r.players.len() ==> ((#[trigger] r.players[i]).name is Some
            <==> r.players[i].room_id is Some)
}

/// The roster after one more client has connected; unchanged where no
/// identity is left to give.
pub open spec fn accepted(r: RegistryView) -> RegistryView {
    if r.next_id == u32::MAX {
        r
    } else {
        RegistryView { players: r.players.push(newcomer(r.next_id)), next_id: (r.next_id + 1) as u32 }
    }
}

/// The roster after the player `id` has disconnected: it is gone, and if it
/// had a name, the others in its room have been told.
pub open spec fn disconnected(r: RegistryView, id: u32) -> RegistryView {
    match player_index(r.players, id) {
        Some(i) => {
            let gone = r.players[i];
            let rest = r.players.remove(i);
            RegistryView {
                players: match (gone.name, gone.room_id) {
                    (Some(name), Some(room_id)) => sent(
                        rest,
                        Audience::Room { room_id, excluding: id },
                        quit_text(name) + line_end(),
                    ),
                    _ => rest,
                },
                next_id: r.next_id,
            }
        },
        None => r,
    }
}

impl Player {
    /// A player that has just connected.
    pub fn new(id: u32) -> (p: Player)
        ensures
            p@ == newcomer(id),
    {
        let mut p = Player { id, attacking_id: None, name: None, room_id: None, outbox: Vec::new() };
        p.writeln(prompt_message().as_str());
        assert(p@.outbox =~= seq![prompt_text() + line_end()]);
        p
    }

    /// Queues `msg` for sending, as it is.
    pub fn write(&mut self, msg: &str)
        ensures
            final(self)@ == delivered(old(self)@, msg@),
    {
        self.outbox.push(String::from_str(msg));
        assert(texts(self.outbox@) =~= texts(old(self).outbox@).push(msg@));
    }

    /// Queues `msg` for sending, as one line.
    pub fn writeln(&mut self, msg: &str)
        ensures
            final(self)@ == delivered(old(self)@, msg@ + line_end()),
    {
        let line = line_of(msg);
        self.write(line.as_str());
    }

    /// Hands out what waits to be sent, in the order in which it was
    /// queued, and leaves nothing waiting.
    pub fn take_outbound(&mut self) -> (out: Vec<String>)
        ensures
            texts(out@) == old(self)@.outbox,
            final(self)@ == (PlayerView { outbox: Seq::empty(), ..old(self)@ }),
    {
        let mut out: Vec<String> = Vec::new();
        core::mem::swap(&mut out, &mut self.outbox);
        assert(texts(self.outbox@) =~= Seq::<Seq<char>>::empty());
        out
    }
}

/// The roster of the connected players, in the order in which they
/// connected.
#[derive(Debug)]
pub struct Registry {
    players: Vec<Player>,
    next_id: u32,
}

impl View for Registry {
    type V = RegistryView;

    closed spec fn view(&self) -> RegistryView {
        RegistryView { players: player_views(self.players@), next_id: self.next_id }
    }
}

impl Registry {
    /// The roster is sound.
    pub open spec fn wf(&self) -> bool {
        roster_ok(self@)
    }

    /// A roster without players; the first to connect will be player 0.
    pub fn new() -> (r: Registry)
        ensures
            r@ == (RegistryView { players: Seq::empty(), next_id: 0 }),
            r.wf(),
    {
        let r = Registry { players: Vec::new(), next_id: 0 };
        assert(r@.players =~= Seq::<PlayerView>::empty());
        r
    }

    /// Takes a new client into the roster and gives its identity, the next
    /// one in order; the prompt waits for it. Gives `None`, and changes
    /// nothing, once every identity has been given.
    pub fn accept(&mut self) -> (r: Option<u32>)
        requires
            old(self).wf(),
        ensures
            final(self).wf(),
            final(self)@ == accepted(old(self)@),
            r == if old(self)@.next_id == u32::MAX {
                None
            } else {
                Some(old(self)@.next_id)
            },
    {
        if self.next_id == u32::MAX {
            return None;
        }
        let id = self.next_id;
        self.players.push(Player::new(id));
        self.next_id = id + 1;
        assert(self@.players =~= old(self)@.players.push(newcomer(id)));
        Some(id)
    }

    /// Where the player `id` stands in the roster.
    pub fn position(&self, id: u32) -> (r: Option<usize>)
        ensures
            match r {
                Some(i) => player_index(self@.players, id) == Some(i as int),
                None => player_index(self@.players, id) is None,
            },
    {
        let n = self.players.len();
        let mut i: usize = 0;
        while i < n
            invariant
                i <= n,
                n == self.players.len(),
                forall|j: int| 0 <= j < i ==> !is_player(id)(#[trigger] self@.players[j]),
            decreases n - i,
        {
            if self.players[i].id == id {
                proof {
                    assert(is_player(id)(self@.players[i as int]));
                    lemma_first_match_some(self@.players, is_player(id), i as int);
                }
                return Some(i);
            }
            i += 1;
        }
        proof {
            lemma_first_match_none(self@.players, is_player(id));
        }
        None
    }

    /// The player `id`, if it is connected.
    pub fn get(&self, id: u32) -> (r: Option<&Player>)
        ensures
            match r {
                Some(p) => player_with(self@.players, id) == Some(p@),
                None => player_with(self@.players, id) is None,
            },
    {
        match self.position(id) {
            Some(i) => Some(&self.players[i]),
            None => None,
        }
    }

    /// All connected players, in the order in which they connected.
    pub fn all_sessions(&self) -> (r: &Vec<Player>)
        ensures
            player_views(r@) == self@.players,
    {
        &self.players
    }

    /// The identity that the next client will get.
    pub fn next_id(&self) -> (r: u32)
        ensures
            r == self@.next_id,
    {
        self.next_id
    }

    /// Delivers the line `text` to each player of `audience`, once.
    pub fn broadcast(&mut self, audience: Audience, text: &str)
        requires
            old(self).wf(),
        ensures
            final(self).wf(),
            final(self)@ == (RegistryView {
                players: sent(old(self)@.players, audience, text@ + line_end()),
                ..old(self)@
            }),
    {
        let line = line_of(text);
        let n = self.players.len();
        let mut i: usize = 0;
        while i < n
            invariant
                i <= n,
                n == self.players.len(),
                n == old(self).players.len(),
                self.next_id == old(self).next_id,
                line@ == text@ + line_end(),
                forall|j: int|
                    0 <= j < i ==> (#[trigger] self.players[j])@ == sent(
                        old(self)@.players,
                        audience,
                        line@,
                    )[j],
                forall|j: int| i <= j < n ==> self.players[j] == old(self).players[j],
            decreases n - i,
        {
            if audience.includes(&self.players[i]) {
                self.players[i].write(line.as_str());
            }
            i += 1;
        }
        assert(self@.players =~= sent(old(self)@.players, audience, line@));
    }

    /// Delivers the line `text` to the player `id`, if it is connected.
    pub fn send_to(&mut self, id: u32, text: &str)
        requires
            old(self).wf(),
        ensures
            final(self).wf(),
            final(self)@ == (RegistryView {
                players: sent(old(self)@.players, Audience::Only(id), text@ + line_end()),
                ..old(self)@
            }),
    {
        self.broadcast(Audience::Only(id), text);
    }

    /// Delivers the line `text` to everyone in the room `room_id` but the
    /// player `excluding`.
    pub fn send_to_room(&mut self, room_id: u32, excluding: u32, text: &str)
        requires
            old(self).wf(),
        ensures
            final(self).wf(),
            final(self)@ == (RegistryView {
                players: sent(
                    old(self)@.players,
                    Audience::Room { room_id, excluding },
                    text@ + line_end(),
                ),
                ..old(self)@
            }),
    {
        self.broadcast(Audience::Room { room_id, excluding }, text);
    }

    /// Delivers the line `text` to everyone but the player `excluding`.
    pub fn send_to_all(&mut self, excluding: u32, text: &str)
        requires
            old(self).wf(),
        ensures
            final(self).wf(),
            final(self)@ == (RegistryView {
                players: sent(old(self)@.players, Audience::Everyone { excluding }, text@ + line_end()),
                ..old(self)@
            }),
    {
        self.broadcast(Audience::Everyone { excluding }, text);
    }
    /// Removes the player `id` from the roster and hands it out; if it had a
    /// name, everyone else in its room is told that it left the game.
    /// Changes nothing, and gives `None`, if no such player is connected.
    pub fn disconnect(&mut self, id: u32) -> (r: Option<Player>)
        requires
            old(self).wf(),
        ensures
            final(self).wf(),
            final(self)@ == disconnected(old(self)@, id),
            match r {
                Some(p) => player_with(old(self)@.players, id) == Some(p@),
                None => player_with(old(self)@.players, id) is None,
            },
    {
        match self.position(id) {
            None => None,
            Some(i) => {
                let gone = self.players.remove(i);
                assert(self@.players =~= old(self)@.players.remove(i as int));
                match (&gone.name, gone.room_id) {
                    (Some(name), Some(room_id)) => {
                        let text = quit_message(name.as_str());
                        self.broadcast(Audience::Room { room_id, excluding: id }, text.as_str());
                    },
                    _ => {},
                }
                Some(gone)
            },
        }
    }

    /// The named players in the room `room_id`, in the order of the roster.
    pub fn named_sessions_in_room(&self, room_id: u32) -> (r: Vec<&Player>)
        ensures
            ref_views(r@) == occupants(self@.players, room_id),
    {
        let mut out: Vec<&Player> = Vec::new();
        let n = self.players.len();
        let mut i: usize = 0;
        assert(self@.players.take(0) =~= Seq::<PlayerView>::empty());
        assert(ref_views(out@) =~= occupants(self@.players.take(0), room_id)) by {
            reveal(Seq::filter);
        }
        while i < n
            invariant
                i <= n,
                n == self.players.len(),
                ref_views(out@) == occupants(self@.players.take(i as int), room_id),
            decreases n - i,
        {
            proof {
                lemma_filter_step(self@.players, is_in_room(room_id), i as int);
            }
            let p = &self.players[i];
            let here = p.name.is_some() && match p.room_id {
                Some(r) => r == room_id,
                None => false,
            };
            if here {
                out.push(p);
                assert(ref_views(out@) =~= occupants(self@.players.take(i as int), room_id).push(p@));
            }
            i += 1;
        }
        assert(self@.players.take(n as int) =~= self@.players);
        out
    }

    /// The names of the named players in the room `room_id` other than the
    /// player `excluding`, in the order of the roster.
    pub fn names_in_room(&self, room_id: u32, excluding: u32) -> (r: Vec<String>)
        ensures
            texts(r@) == neighbour_names(self@.players, room_id, excluding),
    {
        let mut out: Vec<String> = Vec::new();
        let n = self.players.len();
        let mut i: usize = 0;
        assert(self@.players.take(0) =~= Seq::<PlayerView>::empty());
        assert(texts(out@) =~= neighbour_names(self@.players.take(0), room_id, excluding)) by {
            reveal(Seq::filter);
        }
        while i < n
            invariant
                i <= n,
                n == self.players.len(),
                texts(out@) == neighbour_names(self@.players.take(i as int), room_id, excluding),
            decreases n - i,
        {
            proof {
                lemma_filter_step(self@.players, is_neighbour(room_id, excluding), i as int);
            }
            let p = &self.players[i];
            if p.id != excluding {
                match (&p.name, p.room_id) {
                    (Some(name), Some(r)) => {
                        if r == room_id {
                            out.push(name.clone());
                            assert(texts(out@) =~= neighbour_names(
                                self@.players.take(i as int),
                                room_id,
                                excluding,
                            ).push(name@));
                        }
                    },
                    _ => {},
                }
            }
            i += 1;
        }
        assert(self@.players.take(n as int) =~= self@.players);
        out
    }

    /// The first player of the roster whose name begins with `prefix`.
    pub fn find_named_like(&self, prefix: &str) -> (r: Option<&Player>)
        ensures
            match r {
                Some(p) => first_named_like(self@.players, prefix@) == Some(p@),
                None => first_named_like(self@.players, prefix@) is None,
            },
    {
        let n = self.players.len();
        let mut i: usize = 0;
        while i < n
            invariant
                i <= n,
                n == self.players.len(),
                forall|j: int| 0 <= j < i ==> !is_named_like(prefix@)(#[trigger] self@.players[j]),
            decreases n - i,
        {
            let p = &self.players[i];
            let found = match &p.name {
                Some(name) => starts_with(name.as_str(), prefix),
                None => false,
            };
            if found {
                proof {
                    assert(is_named_like(prefix@)(self@.players[i as int]));
                    lemma_first_match_some(self@.players, is_named_like(prefix@), i as int);
                }
                return Some(p);
            }
            i += 1;
        }
        proof {
            lemma_first_match_none(self@.players, is_named_like(prefix@));
        }
        None
    }

    /// Hands out what waits to be sent to the player `id`, in the order in
    /// which it was queued, and leaves nothing waiting for it. Gives
    /// nothing if no such player is connected.
    pub fn take_outbound(&mut self, id: u32) -> (out: Vec<String>)
        requires
            old(self).wf(),
        ensures
            final(self).wf(),
            final(self)@ == (RegistryView {
                players: with_empty_outbox(old(self)@.players, id),
                ..old(self)@
            }),
            texts(out@) == match player_with(old(self)@.players, id) {
                Some(p) => p.outbox,
                None => Seq::empty(),
            },
    {
        match self.position(id) {
            Some(i) => {
                let out = self.players[i].take_outbound();
                assert(self@.players =~= with_empty_outbox(old(self)@.players, id));
                out
            },
            None => {
                let out: Vec<String> = Vec::new();
                assert(texts(out@) =~= Seq::<Seq<char>>::empty());
                out
            },
        }
    }

    /// Gives the nameless player `id` the name `name` and puts it into the
    /// room `room_id`. Changes nothing if no such player is connected or it
    /// has a name already.
    pub fn enter(&mut self, id: u32, name: String, room_id: u32)
        requires
            old(self).wf(),
        ensures
            final(self).wf(),
            final(self)@ == (RegistryView {
                players: with_name(old(self)@.players, id, name@, room_id),
                ..old(self)@
            }),
    {
        match self.position(id) {
            Some(i) => {
                if self.players[i].name.is_none() {
                    self.players[i].name = Some(name);
                    self.players[i].room_id = Some(room_id);
                    assert(self@.players =~= with_name(old(self)@.players, id, name@, room_id));
                }
            },
            None => {},
        }
    }

    /// Moves the named player `id` to the room `room_id`. Changes nothing
    /// if no such player is connected or it has no name.
    pub fn relocate(&mut self, id: u32, room_id: u32)
        requires
            old(self).wf(),
        ensures
            final(self).wf(),
            final(self)@ == (RegistryView {
                players: with_room(old(self)@.players, id, room_id),
                ..old(self)@
            }),
    {
        match self.position(id) {
            Some(i) => {
                if self.players[i].name.is_some() {
                    self.players[i].room_id = Some(room_id);
                    assert(self@.players =~= with_room(old(self)@.players, id, room_id));
                }
            },
            None => {},
        }
    }

    /// Records that the player `id` attacks the player `target`. Changes
    /// nothing if no player `id` is connected.
    pub fn engage(&mut self, id: u32, target: u32)
        requires
            old(self).wf(),
        ensures
            final(self).wf(),
            final(self)@ == (RegistryView {
                players: with_target(old(self)@.players, id, target),
                ..old(self)@
            }),
    {
        match self.position(id) {
            Some(i) => {
                self.players[i].attacking_id = Some(target);
                assert(self@.players =~= with_target(old(self)@.players, id, target));
            },
            None => {},
        }
    }
}

/// `b` has the players of `a`, each at its place; what is known of each
/// may differ.
pub open spec fn same_people(a: Seq<PlayerView>, b: Seq<PlayerView>) -> bool {
    &&& a.len() == b.len()
    &&& forall|j: int| 0 <= j < a.len() ==> (#[trigger] b[j]).id == a[j].id
}

/// No player of `players` has the identity `id`.
pub open spec fn absent(players: Seq<PlayerView>, id: u32) -> bool {
    forall|j: int| 0 <= j < players.len() ==> (#[trigger] players[j]).id != id
}

/// A player that is found has the identity that was looked for and stands
/// in the roster; where none is found, the identity is absent.
pub proof fn lemma_player_index(players: Seq<PlayerView>, id: u32)
    ensures
        match player_index(players, id) {
            Some(i) => 0 <= i < players.len() && players[i].id == id,
            None => absent(players, id),
        },
{
    lemma_first_match(players, is_player(id));
    if player_index(players, id) is None {
        assert forall|j: int| 0 <= j < players.len() implies (#[trigger] players[j]).id != id by {
            assert(!is_player(id)(players[j]));
        }
    }
}

/// In a sound roster a player is found where it stands: no two players
/// have one identity.
pub proof fn lemma_index_of(r: RegistryView, i: int)
    requires
        roster_ok(r),
        0 <= i < r.players.len(),
    ensures
        player_index(r.players, r.players[i].id) == Some(i),
{
    let id = r.players[i].id;
    assert(is_player(id)(r.players[i]));
    assert forall|j: int| 0 <= j < i implies !is_player(id)(#[trigger] r.players[j]) by {
        assert(r.players[j].id < r.players[i].id);
    }
    lemma_first_match_some(r.players, is_player(id), i);
}

/// Where the same players stand at the same places, each is found at the
/// same place.
pub proof fn lemma_index_kept(a: Seq<PlayerView>, b: Seq<PlayerView>, id: u32)
    requires
        same_people(a, b),
    ensures
        player_index(b, id) == player_index(a, id),
{
    lemma_first_match(a, is_player(id));
    match player_index(a, id) {
        Some(i) => {
            assert(is_player(id)(b[i]));
            assert forall|j: int| 0 <= j < i implies !is_player(id)(#[trigger] b[j]) by {
                assert(!is_player(id)(a[j]));
            }
            lemma_first_match_some(b, is_player(id), i);
        },
        None => {
            assert forall|j: int| 0 <= j < b.len() implies !is_player(id)(#[trigger] b[j]) by {
                assert(!is_player(id)(a[j]));
            }
            lemma_first_match_none(b, is_player(id));
        },
    }
}

} // verus!
