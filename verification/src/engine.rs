//! The interpreter: what each command does to the roster, and which
//! messages it sends to whom.

use vstd::prelude::*;
use vstd::string::*;
use crate::area::{
    exit_between, exit_destination, exit_names, has_room, lookup, well_formed, Area, RoomView,
    HOME_ROOM,
};
use crate::command::{parsed, Command, CommandView};
use crate::messages::{
    already_attacking_message, already_attacking_text, arrived_message, arrived_text,
    attack_message, attack_text, entered_message, entered_text, exits_message, exits_text,
    help_message, help_text, left_message, left_text, nameless_text, not_seen_message,
    not_seen_text, players_here_message, players_here_text, says_message, says_text,
    unknown_message, unknown_text, welcome_message, welcome_text,
};
use crate::player::{
    accepted, disconnected, first_named_like, name_of, neighbour_names, player_with, roster_ok,
    sent, with_empty_outbox, with_name, with_room, with_target, Audience, Player, PlayerView,
    Registry, RegistryView,
};
use crate::text::{line_end, texts};

verus! {

/// The world as contracts see it: the rooms, which never change, and the
/// roster.
pub struct WorldView {
    pub rooms: Seq<RoomView>,
    pub roster: RegistryView,
}

/// `w` with `players` in place of its players.
pub open spec fn with_players(w: WorldView, players: Seq<PlayerView>) -> WorldView {
    WorldView { roster: RegistryView { players, ..w.roster }, ..w }
}

/// Every player that is in a room is in a room of `rooms`.
pub open spec fn housed(rooms: Seq<RoomView>, players: Seq<PlayerView>) -> bool {
    forall|i: int|
        0 <= i < players.len() && (#[trigger] players[i]).room_id is Some ==> has_room(
            rooms,
            players[i].room_id->0,
        )
}

/// What holds of every world: its rooms are sound, its roster is sound,
/// and its players are in rooms that exist.
pub open spec fn world_ok(w: WorldView) -> bool {
    &&& well_formed(w.rooms)
    &&& roster_ok(w.roster)
    &&& housed(w.rooms, w.roster.players)
}

/// `players` after the line `text` has been delivered to the player `id`.
pub open spec fn replied(players: Seq<PlayerView>, id: u32, text: Seq<char>) -> Seq<PlayerView> {
    sent(players, Audience::Only(id), text + line_end())
}

/// The player `id`, if it is connected and has a name.
pub open spec fn named_player(players: Seq<PlayerView>, id: u32) -> Option<PlayerView> {
    match player_with(players, id) {
        Some(p) if p.name is Some && p.room_id is Some => Some(p),
        _ => None,
    }
}

/// How the player `target` is called in a message: by its name, or as a
/// thing where it has none or is gone.
pub open spec fn target_label(players: Seq<PlayerView>, target: u32) -> Seq<char> {
    match player_with(players, target) {
        Some(p) if p.name is Some => p.name->0,
        _ => nameless_text(),
    }
}

/// The nameless player `id` takes the name `name`, which is not empty: it
/// enters the home room and is welcomed, and everyone else, wherever they
/// are, is told. Nothing changes for any other `id` or for an empty name.
pub open spec fn named_as(players: Seq<PlayerView>, id: u32, name: Seq<char>) -> Seq<PlayerView> {
    match player_with(players, id) {
        Some(p) if p.name is None && name.len() > 0 => sent(
            replied(with_name(players, id, name, HOME_ROOM), id, welcome_text(name)),
            Audience::Everyone { excluding: id },
            entered_text(name) + line_end(),
        ),
        _ => players,
    }
}

/// The named player `id` gets the list of commands.
pub open spec fn helped(players: Seq<PlayerView>, id: u32) -> Seq<PlayerView> {
    match named_player(players, id) {
        Some(p) => replied(players, id, help_text()),
        None => players,
    }
}

/// The named player `id` says `words`: everyone else in its room hears it.
pub open spec fn said(players: Seq<PlayerView>, id: u32, words: Seq<char>) -> Seq<PlayerView> {
    match named_player(players, id) {
        Some(p) => sent(
            players,
            Audience::Room { room_id: p.room_id->0, excluding: id },
            says_text(p.name->0, words) + line_end(),
        ),
        None => players,
    }
}

/// The named player `id` looks around: it gets the description of its
/// room, the names of the others in it, and the names of its exits.
pub open spec fn looked(rooms: Seq<RoomView>, players: Seq<PlayerView>, id: u32) -> Seq<PlayerView> {
    match named_player(players, id) {
        Some(p) => match lookup(rooms, p.room_id->0) {
            Some(room) => replied(
                replied(
                    replied(players, id, room.description),
                    id,
                    players_here_text(neighbour_names(players, p.room_id->0, id)),
                ),
                id,
                exits_text(exit_names(room.exits)),
            ),
            None => players,
        },
        None => players,
    }
}

/// The named player `id` has left the room `from` by the exit `direction`
/// for the room `to`: the others in `from` are told that it left, the
/// others in `to` are told whence it came if an exit of `to` leads back,
/// and it gets the description of `to`.
pub open spec fn moved(
    rooms: Seq<RoomView>,
    players: Seq<PlayerView>,
    id: u32,
    name: Seq<char>,
    from: u32,
    direction: Seq<char>,
    to: u32,
) -> Seq<PlayerView> {
    let told_left = sent(
        with_room(players, id, to),
        Audience::Room { room_id: from, excluding: id },
        left_text(name, direction) + line_end(),
    );
    let told_arrived = match exit_between(rooms, to, from) {
        Some(back) => sent(
            told_left,
            Audience::Room { room_id: to, excluding: id },
            arrived_text(name, back.name) + line_end(),
        ),
        None => told_left,
    };
    match lookup(rooms, to) {
        Some(room) => replied(told_arrived, id, room.description),
        None => told_arrived,
    }
}

/// The named player `id` goes by the exit `direction`, if its room has
/// one of that name; otherwise nothing changes.
pub open spec fn gone(rooms: Seq<RoomView>, players: Seq<PlayerView>, id: u32, direction: Seq<char>) -> Seq<PlayerView> {
    match named_player(players, id) {
        Some(p) => match exit_destination(rooms, p.room_id->0, direction) {
            Some(to) => moved(rooms, players, id, p.name->0, p.room_id->0, direction, to),
            None => players,
        },
        None => players,
    }
}

/// The named player `id` attacks the first player whose name begins with
/// `prefix`. One that attacks already keeps its target and is told so; one
/// that finds nobody is told so.
pub open spec fn attacked(players: Seq<PlayerView>, id: u32, prefix: Seq<char>) -> Seq<PlayerView> {
    match named_player(players, id) {
        Some(p) => match p.attacking_id {
            Some(target) => replied(
                players,
                id,
                already_attacking_text(target_label(players, target)),
            ),
            None => match first_named_like(players, prefix) {
                Some(victim) => replied(
                    with_target(players, id, victim.id),
                    id,
                    attack_text(name_of(victim)),
                ),
                None => replied(players, id, not_seen_text(prefix)),
            },
        },
        None => players,
    }
}

/// The named player `id` is told that `raw` is no command.
pub open spec fn rejected(players: Seq<PlayerView>, id: u32, raw: Seq<char>) -> Seq<PlayerView> {
    match named_player(players, id) {
        Some(p) => replied(players, id, unknown_text(raw)),
        None => players,
    }
}

/// What the command `command` of the player `id` makes of `players`.
pub open spec fn executed(
    rooms: Seq<RoomView>,
    players: Seq<PlayerView>,
    id: u32,
    command: CommandView,
) -> Seq<PlayerView> {
    match command {
        CommandView::SetName(name) => named_as(players, id, name),
        CommandView::Help => helped(players, id),
        CommandView::Say(words) => said(players, id, words),
        CommandView::Look => looked(rooms, players, id),
        CommandView::Go(direction) => gone(rooms, players, id, direction),
        CommandView::Attack(prefix) => attacked(players, id, prefix),
        CommandView::Unknown(raw) => rejected(players, id, raw),
    }
}

/// What the line `line` from the player `id` makes of `players`: what the
/// command does that the line means for a player in its state, and nothing
/// where the player is not connected or the line means nothing.
pub open spec fn stepped(rooms: Seq<RoomView>, players: Seq<PlayerView>, id: u32, line: Seq<char>) -> Seq<PlayerView> {
    match player_with(players, id) {
        Some(p) => match parsed(line, p.name is Some) {
            Some(command) => executed(rooms, players, id, command),
            None => players,
        },
        None => players,
    }
}

/// The world: its rooms and the roster of its players.
#[derive(Debug)]
pub struct World {
    area: Area,
    registry: Registry,
}

impl View for World {
    type V = WorldView;

    closed spec fn view(&self) -> WorldView {
        WorldView { rooms: self.area@, roster: self.registry@ }
    }
}

impl World {
    /// The world is sound.
    pub open spec fn wf(&self) -> bool {
        world_ok(self@)
    }

    /// A world of the rooms of `area`, with nobody in it.
    pub fn new(area: Area) -> (w: World)
        requires
            area.wf(),
        ensures
            w.wf(),
            w@ == (WorldView {
                rooms: area@,
                roster: RegistryView { players: Seq::empty(), next_id: 0 },
            }),
    {
        World { area, registry: Registry::new() }
    }

    /// The rooms.
    pub fn area(&self) -> (r: &Area)
        ensures
            r@ == self@.rooms,
    {
        &self.area
    }

    /// The roster.
    pub fn registry(&self) -> (r: &Registry)
        ensures
            r@ == self@.roster,
    {
        &self.registry
    }

    /// Takes a new client into the roster and gives its identity; the
    /// prompt waits for it. Gives `None`, and changes nothing, once every
    /// identity has been given.
    pub fn accept(&mut self) -> (r: Option<u32>)
        requires
            old(self).wf(),
        ensures
            final(self).wf(),
            final(self)@ == (WorldView { roster: accepted(old(self)@.roster), ..old(self)@ }),
            r == if old(self)@.roster.next_id == u32::MAX {
                None
            } else {
                Some(old(self)@.roster.next_id)
            },
    {
        self.registry.accept()
    }

    /// Removes the player `id` and hands it out; if it had a name,
    /// everyone else in its room is told that it left the game. Changes
    /// nothing, and gives `None`, if no such player is connected.
    pub fn disconnect(&mut self, id: u32) -> (r: Option<Player>)
        requires
            old(self).wf(),
        ensures
            final(self).wf(),
            final(self)@ == (WorldView { roster: disconnected(old(self)@.roster, id), ..old(self)@ }),
            match r {
                Some(p) => player_with(old(self)@.roster.players, id) == Some(p@),
                None => player_with(old(self)@.roster.players, id) is None,
            },
    {
        self.registry.disconnect(id)
    }

    /// Hands out what waits to be sent to the player `id`, in the order in
    /// which it was queued, and leaves nothing waiting for it.
    pub fn take_outbound(&mut self, id: u32) -> (out: Vec<String>)
        requires
            old(self).wf(),
        ensures
            final(self).wf(),
            final(self)@ == with_players(
                old(self)@,
                with_empty_outbox(old(self)@.roster.players, id),
            ),
            texts(out@) == match player_with(old(self)@.roster.players, id) {
                Some(p) => p.outbox,
                None => Seq::empty(),
            },
    {
        self.registry.take_outbound(id)
    }

    /// The name and the room of the player `id`, if it is connected and
    /// has a name.
    fn who(&self, id: u32) -> (r: Option<(String, u32)>)
        ensures
            match r {
                Some((name, room_id)) => {
                    &&& named_player(self@.roster.players, id) is Some
                    &&& named_player(self@.roster.players, id)->0.name == Some(name@)
                    &&& named_player(self@.roster.players, id)->0.room_id == Some(room_id)
                },
                None => named_player(self@.roster.players, id) is None,
            },
    {
        match self.registry.get(id) {
            Some(p) => match (&p.name, p.room_id) {
                (Some(name), Some(room_id)) => Some((name.clone(), room_id)),
                _ => None,
            },
            None => None,
        }
    }

    /// The nameless player `id` takes the name `name`.
    pub fn set_name(&mut self, id: u32, name: &str)
        requires
            old(self).wf(),
        ensures
            final(self).wf(),
            final(self)@ == with_players(old(self)@, named_as(old(self)@.roster.players, id, name@)),
    {
        let nameless = match self.registry.get(id) {
            Some(p) => p.name.is_none(),
            None => false,
        };
        if nameless && name.unicode_len() > 0 {
            self.registry.enter(id, String::from_str(name), HOME_ROOM);
            self.registry.send_to(id, welcome_message(name).as_str());
            self.registry.send_to_all(id, entered_message(name).as_str());
        }
    }

    /// The named player `id` asks for the list of commands.
    pub fn help(&mut self, id: u32)
        requires
            old(self).wf(),
        ensures
            final(self).wf(),
            final(self)@ == with_players(old(self)@, helped(old(self)@.roster.players, id)),
    {
        if self.who(id).is_some() {
            self.registry.send_to(id, help_message().as_str());
        }
    }

    /// The named player `id` says `words`.
    pub fn say(&mut self, id: u32, words: &str)
        requires
            old(self).wf(),
        ensures
            final(self).wf(),
            final(self)@ == with_players(old(self)@, said(old(self)@.roster.players, id, words@)),
    {
        match self.who(id) {
            Some((name, room_id)) => {
                self.registry.send_to_room(room_id, id, says_message(name.as_str(), words).as_str());
            },
            None => {},
        }
    }

    /// The named player `id` looks around.
    pub fn look(&mut self, id: u32)
        requires
            old(self).wf(),
        ensures
            final(self).wf(),
            final(self)@ == with_players(
                old(self)@,
                looked(old(self)@.rooms, old(self)@.roster.players, id),
            ),
    {
        match self.who(id) {
            Some((_name, room_id)) => match self.area.get_room_by_id_mut(room_id) {
                Some(room) => {
                    let others = self.registry.names_in_room(room_id, id);
                    let exits = room.exit_names();
                    self.registry.send_to(id, room.description.as_str());
                    self.registry.send_to(id, players_here_message(&others).as_str());
                    self.registry.send_to(id, exits_message(&exits).as_str());
                },
                None => {},
            },
            None => {},
        }
    }

    /// The named player `id` goes by the exit `direction`.
    pub fn go(&mut self, id: u32, direction: &str)
        requires
            old(self).wf(),
        ensures
            final(self).wf(),
            final(self)@ == with_players(
                old(self)@,
                gone(old(self)@.rooms, old(self)@.roster.players, id, direction@),
            ),
    {
        match self.who(id) {
            Some((name, from)) => match self.area.get_dest_room_id(from, direction) {
                Some(to) => {
                    self.registry.relocate(id, to);
                    self.registry.send_to_room(from, id, left_message(name.as_str(), direction).as_str());
                    match self.area.get_exit_between(to, from) {
                        Some(back) => {
                            self.registry.send_to_room(
                                to,
                                id,
                                arrived_message(name.as_str(), back.name.as_str()).as_str(),
                            );
                        },
                        None => {},
                    }
                    match self.area.get_room_by_id_mut(to) {
                        Some(room) => {
                            self.registry.send_to(id, room.description.as_str());
                        },
                        None => {},
                    }
                },
                None => {},
            },
            None => {},
        }
    }

    /// The named player `id` attacks the first player whose name begins
    /// with `prefix`.
    pub fn attack(&mut self, id: u32, prefix: &str)
        requires
            old(self).wf(),
        ensures
            final(self).wf(),
            final(self)@ == with_players(old(self)@, attacked(old(self)@.roster.players, id, prefix@)),
    {
        let target = match self.registry.get(id) {
            Some(p) => {
                if p.name.is_none() || p.room_id.is_none() {
                    return;
                }
                p.attacking_id
            },
            None => {
                return;
            },
        };
        match target {
            Some(target) => {
                let label = match self.registry.get(target) {
                    Some(p) => match &p.name {
                        Some(name) => name.clone(),
                        None => String::from_str("a thing"),
                    },
                    None => String::from_str("a thing"),
                };
                self.registry.send_to(id, already_attacking_message(label.as_str()).as_str());
            },
            None => {
                let found = match self.registry.find_named_like(prefix) {
                    Some(victim) => match &victim.name {
                        Some(name) => Some((victim.id, name.clone())),
                        None => None,
                    },
                    None => None,
                };
                match found {
                    Some((victim_id, victim_name)) => {
                        self.registry.engage(id, victim_id);
                        self.registry.send_to(id, attack_message(victim_name.as_str()).as_str());
                    },
                    None => {
                        self.registry.send_to(id, not_seen_message(prefix).as_str());
                    },
                }
            },
        }
    }

    /// The named player `id` is told that `raw` is no command.
    pub fn unknown(&mut self, id: u32, raw: &str)
        requires
            old(self).wf(),
        ensures
            final(self).wf(),
            final(self)@ == with_players(old(self)@, rejected(old(self)@.roster.players, id, raw@)),
    {
        if self.who(id).is_some() {
            self.registry.send_to(id, unknown_message(raw).as_str());
        }
    }

    /// Does what `command` asks for the player `id`.
    pub fn execute(&mut self, id: u32, command: &Command)
        requires
            old(self).wf(),
        ensures
            final(self).wf(),
            final(self)@ == with_players(
                old(self)@,
                executed(old(self)@.rooms, old(self)@.roster.players, id, command@),
            ),
    {
        match command {
            Command::SetName(name) => self.set_name(id, name.as_str()),
            Command::Help => self.help(id),
            Command::Say(words) => self.say(id, words.as_str()),
            Command::Look => self.look(id),
            Command::Go(direction) => self.go(id, direction.as_str()),
            Command::Attack(prefix) => self.attack(id, prefix.as_str()),
            Command::Unknown(raw) => self.unknown(id, raw.as_str()),
        }
    }

    /// Takes one line of input from the player `id`: reads it as that
    /// player's state demands and does what it asks.
    pub fn handle_line(&mut self, id: u32, line: &str)
        requires
            old(self).wf(),
        ensures
            final(self).wf(),
            final(self)@ == with_players(
                old(self)@,
                stepped(old(self)@.rooms, old(self)@.roster.players, id, line@),
            ),
    {
        let named = match self.registry.get(id) {
            Some(p) => p.name.is_some(),
            None => {
                return;
            },
        };
        match Command::parse(line, named) {
            Some(command) => self.execute(id, &command),
            None => {},
        }
    }
}

} // verus!
