//! What holds of the engine whatever the world, the players and the input
//! are. Each statement is over the specifications that the contracts of
//! the engine's functions use, so it holds of what those functions do.

use vstd::prelude::*;
use crate::area::{
    exit_between, exit_destination, has_room, lemma_destination_exists, lookup, HOME_ROOM,
};
use crate::command::{parsed, CommandView};
use crate::engine::{
    attacked, gone, named_player, replied, said, stepped, target_label, with_players, world_ok,
    WorldView,
};
use crate::messages::{already_attacking_text, arrived_text, left_text, says_text};
use crate::player::{
    absent, accepted, delivered, disconnected, lemma_index_kept, lemma_index_of,
    lemma_player_index, newcomer, player_index, player_with, roster_ok, same_people, PlayerView,
    RegistryView,
};
use crate::text::line_end;

verus! {

/// What a line from the player `id` may change: of that player, its name
/// if it had none, its room and its target; of everyone, what waits to be
/// sent. Nobody comes, nobody goes, and nobody changes places.
pub open spec fn step_frame(before: Seq<PlayerView>, after: Seq<PlayerView>, id: u32) -> bool {
    &&& same_people(before, after)
    &&& forall|j: int|
        0 <= j < before.len() && before[j].id != id ==> (#[trigger] after[j]) == (PlayerView {
            outbox: after[j].outbox,
            ..before[j]
        })
    &&& forall|j: int|
        0 <= j < before.len() && before[j].name is Some ==> (#[trigger] after[j]).name
            == before[j].name
}

/// A player's state is changed by its own input only: whatever line comes
/// from whichever player, nobody's name, room or target changes but the
/// sender's own, and nobody who has a name gets another.
pub proof fn law_step_frame(w: WorldView, id: u32, line: Seq<char>)
    ensures
        step_frame(w.roster.players, stepped(w.rooms, w.roster.players, id, line), id),
{
    lemma_player_index(w.roster.players, id);
}

/// Naming happens once: whatever line comes from whichever player, a
/// player that has a name keeps it.
pub proof fn law_a_name_is_kept(w: WorldView, id: u32, line: Seq<char>, j: int)
    requires
        0 <= j < w.roster.players.len(),
        w.roster.players[j].name is Some,
    ensures
        stepped(w.rooms, w.roster.players, id, line).len() == w.roster.players.len(),
        stepped(w.rooms, w.roster.players, id, line)[j].id == w.roster.players[j].id,
        stepped(w.rooms, w.roster.players, id, line)[j].name == w.roster.players[j].name,
{
    law_step_frame(w, id, line);
}

/// The first line of a player that is not empty is its name: it puts the
/// player into the home room under that name.
pub proof fn law_first_line_is_the_name(w: WorldView, id: u32, line: Seq<char>)
    requires
        world_ok(w),
        player_with(w.roster.players, id) is Some,
        player_with(w.roster.players, id)->0.name is None,
        line.len() > 0,
    ensures
        ({
            let after = player_with(stepped(w.rooms, w.roster.players, id, line), id);
            &&& after is Some
            &&& after->0.name == Some(line)
            &&& after->0.room_id == Some(HOME_ROOM)
        }),
{
    let players = w.roster.players;
    lemma_player_index(players, id);
    law_step_frame(w, id, line);
    lemma_index_kept(players, stepped(w.rooms, players, id, line), id);
}

/// An empty line from a player without a name changes nothing.
pub proof fn law_empty_line_names_nobody(w: WorldView, id: u32)
    requires
        player_with(w.roster.players, id) is Some,
        player_with(w.roster.players, id)->0.name is None,
    ensures
        stepped(w.rooms, w.roster.players, id, Seq::empty()) == w.roster.players,
{
}

/// What is said in a room is heard once by everyone else in that room and
/// by nobody else, and nothing else changes.
pub proof fn law_say_is_heard_in_the_room(players: Seq<PlayerView>, id: u32, words: Seq<char>)
    requires
        named_player(players, id) is Some,
    ensures
        ({
            let speaker = named_player(players, id)->0;
            let after = said(players, id, words);
            &&& after.len() == players.len()
            &&& forall|j: int|
                0 <= j < players.len() ==> #[trigger] after[j] == if players[j].id != id
                    && players[j].room_id == speaker.room_id {
                    delivered(players[j], says_text(speaker.name->0, words) + line_end())
                } else {
                    players[j]
                }
        }),
{
}

/// Going by an exit that the room has puts the player into the room to
/// which that exit leads, and into no other.
pub proof fn law_go_leads_to_the_destination(w: WorldView, id: u32, direction: Seq<char>)
    requires
        world_ok(w),
        named_player(w.roster.players, id) is Some,
        exit_destination(w.rooms, named_player(w.roster.players, id)->0.room_id->0, direction)
            is Some,
    ensures
        ({
            let from = named_player(w.roster.players, id)->0.room_id->0;
            let after = player_with(gone(w.rooms, w.roster.players, id, direction), id);
            &&& after is Some
            &&& after->0.room_id == exit_destination(w.rooms, from, direction)
        }),
{
    let players = w.roster.players;
    lemma_player_index(players, id);
    lemma_index_kept(players, gone(w.rooms, players, id, direction), id);
}

/// Going by an exit that the room does not have changes nothing: not the
/// player's room, not anyone's state, and nobody is sent anything.
pub proof fn law_go_nowhere_changes_nothing(w: WorldView, id: u32, direction: Seq<char>)
    requires
        named_player(w.roster.players, id) is Some ==> exit_destination(
            w.rooms,
            named_player(w.roster.players, id)->0.room_id->0,
            direction,
        ) is None,
    ensures
        gone(w.rooms, w.roster.players, id, direction) == w.roster.players,
{
}

/// What `listener` hears when another player, called `name`, goes from
/// the room `from` by the exit `direction` to the room `to`: that it left,
/// if the listener is in `from`; then whence it arrived, if the listener is
/// in `to` and an exit of `to` leads back to `from`.
pub open spec fn heard_of_move(
    w: WorldView,
    listener: PlayerView,
    name: Seq<char>,
    from: u32,
    direction: Seq<char>,
    to: u32,
) -> Seq<Seq<char>> {
    let left = if listener.room_id == Some(from) {
        seq![left_text(name, direction) + line_end()]
    } else {
        Seq::empty()
    };
    let arrived = match exit_between(w.rooms, to, from) {
        Some(back) if listener.room_id == Some(to) => seq![
            arrived_text(name, back.name) + line_end(),
        ],
        _ => Seq::empty(),
    };
    left + arrived
}

/// A move is announced on both sides: everyone else in the room that is
/// left is told so, and everyone else in the room that is entered is told
/// whence the player came if an exit of that room leads back, and is told
/// nothing if none does. Nobody else is told anything, nothing else changes
/// for them, and the player that moved gets the description of its new
/// room and none of the announcements.
pub proof fn law_departure_and_arrival(w: WorldView, id: u32, direction: Seq<char>)
    requires
        world_ok(w),
        named_player(w.roster.players, id) is Some,
        exit_destination(w.rooms, named_player(w.roster.players, id)->0.room_id->0, direction)
            is Some,
    ensures
        ({
            let mover = named_player(w.roster.players, id)->0;
            let from = mover.room_id->0;
            let to = exit_destination(w.rooms, from, direction)->0;
            let after = gone(w.rooms, w.roster.players, id, direction);
            &&& after.len() == w.roster.players.len()
            &&& forall|j: int|
                0 <= j < w.roster.players.len() && w.roster.players[j].id != id
                    ==> #[trigger] after[j] == (PlayerView {
                    outbox: w.roster.players[j].outbox + heard_of_move(
                        w,
                        w.roster.players[j],
                        mover.name->0,
                        from,
                        direction,
                        to,
                    ),
                    ..w.roster.players[j]
                })
            &&& lookup(w.rooms, to) is Some
            &&& player_with(after, id) == Some(
                PlayerView {
                    room_id: Some(to),
                    outbox: mover.outbox.push(lookup(w.rooms, to)->0.description + line_end()),
                    ..mover
                },
            )
        }),
{
    let players = w.roster.players;
    let mover = named_player(players, id)->0;
    let from = mover.room_id->0;
    let to = exit_destination(w.rooms, from, direction)->0;
    let after = gone(w.rooms, players, id, direction);
    lemma_player_index(players, id);
    lemma_index_kept(players, after, id);
    lemma_destination_exists(w.rooms, from, direction);
    assert forall|j: int| 0 <= j < players.len() && players[j].id != id implies #[trigger] after[j]
        == (PlayerView {
        outbox: players[j].outbox + heard_of_move(
            w,
            players[j],
            mover.name->0,
            from,
            direction,
            to,
        ),
        ..players[j]
    }) by {
        assert(after[j].outbox =~= players[j].outbox + heard_of_move(
            w,
            players[j],
            mover.name->0,
            from,
            direction,
            to,
        ));
    }
}

/// One who attacks already keeps its target whatever it asks to attack
/// next, and is told each time whom it is attacking; nothing else changes.
pub proof fn law_attack_keeps_its_target(w: WorldView, id: u32, first: Seq<char>, second: Seq<char>)
    requires
        world_ok(w),
        named_player(w.roster.players, id) is Some,
        named_player(w.roster.players, id)->0.attacking_id is Some,
    ensures
        ({
            let target = named_player(w.roster.players, id)->0.attacking_id->0;
            let answer = already_attacking_text(target_label(w.roster.players, target));
            let once = attacked(w.roster.players, id, first);
            let twice = attacked(once, id, second);
            &&& once == replied(w.roster.players, id, answer)
            &&& twice == replied(once, id, answer)
            &&& player_with(once, id) is Some
            &&& player_with(once, id)->0.attacking_id == Some(target)
            &&& player_with(twice, id) is Some
            &&& player_with(twice, id)->0.attacking_id == Some(target)
        }),
{
    let players = w.roster.players;
    let target = named_player(players, id)->0.attacking_id->0;
    let once = attacked(players, id, first);
    lemma_player_index(players, id);
    lemma_player_index(players, target);
    lemma_index_kept(players, once, id);
    lemma_index_kept(players, once, target);
    assert(target_label(once, target) == target_label(players, target));
    lemma_index_kept(once, attacked(once, id, second), id);
}

/// A new connection changes nobody who is connected, and the newcomer gets
/// an identity that nobody in the roster has.
pub proof fn law_accept_adds_a_stranger(roster: RegistryView)
    requires
        roster_ok(roster),
        roster.next_id < u32::MAX,
    ensures
        roster_ok(accepted(roster)),
        absent(roster.players, roster.next_id),
        accepted(roster).players.len() == roster.players.len() + 1,
        accepted(roster).players.last() == newcomer(roster.next_id),
        forall|j: int|
            0 <= j < roster.players.len() ==> #[trigger] accepted(roster).players[j]
                == roster.players[j],
{
}

/// A player that disconnects is gone from the roster, which stays sound;
/// whoever stays is what it was but for the notice that it may have got.
pub proof fn law_disconnect_removes(roster: RegistryView, id: u32)
    requires
        roster_ok(roster),
    ensures
        roster_ok(disconnected(roster, id)),
        absent(disconnected(roster, id).players, id),
        forall|j: int|
            0 <= j < disconnected(roster, id).players.len() ==> {
                let stays = #[trigger] disconnected(roster, id).players[j];
                let was = player_with(roster.players, stays.id);
                &&& was is Some
                &&& stays == (PlayerView { outbox: stays.outbox, ..was->0 })
            },
{
    lemma_player_index(roster.players, id);
    match player_index(roster.players, id) {
        Some(i) => {
            let rest = roster.players.remove(i);
            let after = disconnected(roster, id).players;
            assert forall|j: int| 0 <= j < after.len() implies {
                let was = roster.players[if j < i {
                    j
                } else {
                    j + 1
                }];
                &&& (#[trigger] after[j]) == (PlayerView { outbox: after[j].outbox, ..was })
                &&& player_with(roster.players, was.id) == Some(was)
                &&& was.id != id
            } by {
                let k = if j < i {
                    j
                } else {
                    j + 1
                };
                assert(rest[j] == roster.players[k]);
                lemma_index_of(roster, k);
                lemma_index_of(roster, i);
            }
            assert forall|a: int, b: int| 0 <= a < b < after.len() implies (#[trigger] after[a]).id < (
            #[trigger] after[b]).id by {
                let ka = if a < i {
                    a
                } else {
                    a + 1
                };
                let kb = if b < i {
                    b
                } else {
                    b + 1
                };
                assert(roster.players[ka].id < roster.players[kb].id);
            }
        },
        None => {
            assert forall|j: int| 0 <= j < roster.players.len() implies player_with(
                roster.players,
                (#[trigger] roster.players[j]).id,
            ) == Some(roster.players[j]) by {
                lemma_index_of(roster, j);
            }
        },
    }
}

/// An identity that has been given and is not in the roster never comes
/// back: no line from anyone, no new connection and no disconnection
/// brings a player of that identity into the roster, so it is in no room,
/// in no list of players, and nothing is delivered to it.
pub proof fn law_gone_stays_gone(w: WorldView, gone_id: u32, id: u32, line: Seq<char>)
    requires
        world_ok(w),
        absent(w.roster.players, gone_id),
        gone_id < w.roster.next_id,
    ensures
        absent(stepped(w.rooms, w.roster.players, id, line), gone_id),
        absent(accepted(w.roster).players, gone_id),
        gone_id < accepted(w.roster).next_id,
        absent(disconnected(w.roster, id).players, gone_id),
{
    law_step_frame(w, id, line);
    let after = stepped(w.rooms, w.roster.players, id, line);
    assert forall|j: int| 0 <= j < after.len() implies (#[trigger] after[j]).id != gone_id by {
        assert(w.roster.players[j].id != gone_id);
    }
    law_disconnect_removes(w.roster, id);
    let left = disconnected(w.roster, id).players;
    assert forall|j: int| 0 <= j < left.len() implies (#[trigger] left[j]).id != gone_id by {
        lemma_player_index(w.roster.players, left[j].id);
    }
}

/// What a line makes of the player that sent it keeps it either nameless
/// and nowhere, or named and in a room that exists.
proof fn lemma_sender_stays_housed(w: WorldView, id: u32, line: Seq<char>)
    requires
        world_ok(w),
        player_with(w.roster.players, id) is Some,
    ensures
        ({
            let i = player_index(w.roster.players, id)->0;
            let after = stepped(w.rooms, w.roster.players, id, line)[i];
            &&& (after.name is Some <==> after.room_id is Some)
            &&& (after.room_id is Some ==> has_room(w.rooms, after.room_id->0))
        }),
{
    let players = w.roster.players;
    lemma_player_index(players, id);
    match parsed(line, players[player_index(players, id)->0].name is Some) {
        Some(CommandView::Go(direction)) => {
            match named_player(players, id) {
                Some(q) => {
                    if exit_destination(w.rooms, q.room_id->0, direction) is Some {
                        lemma_destination_exists(w.rooms, q.room_id->0, direction);
                    }
                },
                None => {},
            }
        },
        _ => {},
    }
}

/// A sound world stays sound whatever line comes from whichever player:
/// identities stay distinct, and every player that has a name is in a room
/// that exists.
pub proof fn law_step_keeps_the_world_sound(w: WorldView, id: u32, line: Seq<char>)
    requires
        world_ok(w),
    ensures
        world_ok(with_players(w, stepped(w.rooms, w.roster.players, id, line))),
{
    let players = w.roster.players;
    let after = stepped(w.rooms, players, id, line);
    law_step_frame(w, id, line);
    lemma_player_index(players, id);
    assert forall|j: int| 0 <= j < players.len() implies {
        &&& (#[trigger] after[j]).id == players[j].id
        &&& (after[j].name is Some <==> after[j].room_id is Some)
        &&& (after[j].room_id is Some ==> has_room(w.rooms, after[j].room_id->0))
    } by {
        if players[j].id != id {
            assert(after[j] == (PlayerView { outbox: after[j].outbox, ..players[j] }));
        } else {
            lemma_index_of(w.roster, j);
            lemma_sender_stays_housed(w, id, line);
        }
    }
    assert forall|a: int, b: int| 0 <= a < b < after.len() implies (#[trigger] after[a]).id < (
    #[trigger] after[b]).id by {
        assert(players[a].id < players[b].id);
    }
    assert forall|j: int| 0 <= j < after.len() implies (#[trigger] after[j]).id < w.roster.next_id by {
        assert(players[j].id < w.roster.next_id);
    }
}

/// A sound world stays sound when a client connects and when a player
/// disconnects.
pub proof fn law_connections_keep_the_world_sound(w: WorldView, id: u32)
    requires
        world_ok(w),
    ensures
        world_ok(WorldView { roster: accepted(w.roster), ..w }),
        world_ok(WorldView { roster: disconnected(w.roster, id), ..w }),
{
    law_disconnect_removes(w.roster, id);
    let left = disconnected(w.roster, id).players;
    assert forall|j: int| 0 <= j < left.len() && (#[trigger] left[j]).room_id is Some implies has_room(
        w.rooms,
        left[j].room_id->0,
    ) by {
        lemma_player_index(w.roster.players, left[j].id);
    }
}

} // verus!
