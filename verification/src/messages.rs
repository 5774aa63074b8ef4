//! The texts that the engine sends to players. Each has a specification,
//! over which contracts speak, and a builder that produces exactly it.

use vstd::prelude::*;
use vstd::string::*;
use crate::text::{join, joined, texts};

verus! {

/// What a player is asked on connecting.
pub open spec fn prompt_text() -> Seq<char> {
    "What is your name?"@
}

/// What greets a player who has chosen `name`.
pub open spec fn welcome_text(name: Seq<char>) -> Seq<char> {
    "Welcome to the game, "@ + name + ".  Type 'help' for a list of commands. Have fun!"@
}

/// What everyone else is told when `name` has been chosen.
pub open spec fn entered_text(name: Seq<char>) -> Seq<char> {
    name + " entered the game."@
}

/// What a room is told when `name`, who was in it, has disconnected.
pub open spec fn quit_text(name: Seq<char>) -> Seq<char> {
    name + " left the game."@
}

/// The list of commands.
pub open spec fn help_text() -> Seq<char> {
    "Commands:\n    say <message>  - Says something out loud, e.g. 'say Hello'\n    look           - Examines the surroundings, e.g. 'look'\n    go <exit>      - Moves through the exit specified, e.g. 'go outside'"@
}

/// What a room hears when `name` says `words`.
pub open spec fn says_text(name: Seq<char>, words: Seq<char>) -> Seq<char> {
    name + " says: "@ + words
}

/// The line of a room's description that lists who else is in it.
pub open spec fn players_here_text(names: Seq<Seq<char>>) -> Seq<char> {
    "Players here: "@ + joined(names, ", "@)
}

/// The line of a room's description that lists its exits.
pub open spec fn exits_text(names: Seq<Seq<char>>) -> Seq<char> {
    "Exits are: "@ + joined(names, ", "@)
}

/// What the room that `name` leaves by the exit `direction` is told.
pub open spec fn left_text(name: Seq<char>, direction: Seq<char>) -> Seq<char> {
    name + " left to the "@ + direction
}

/// What the room that `name` enters is told, `direction` being the exit
/// that leads back.
pub open spec fn arrived_text(name: Seq<char>, direction: Seq<char>) -> Seq<char> {
    name + " arrived from the "@ + direction
}

/// The answer to an attack by one who already attacks `target`.
pub open spec fn already_attacking_text(target: Seq<char>) -> Seq<char> {
    "You are already attacking "@ + target
}

/// How a target is called that has no name any more.
pub open spec fn nameless_text() -> Seq<char> {
    "a thing"@
}

/// The answer to an attack on a name that nobody bears.
pub open spec fn not_seen_text(prefix: Seq<char>) -> Seq<char> {
    "You do not see "@ + prefix + " anywhere."@
}

/// The answer to an attack that found `name`.
pub open spec fn attack_text(name: Seq<char>) -> Seq<char> {
    "You attack "@ + name + "."@
}

/// The answer to a line that is no command.
pub open spec fn unknown_text(raw: Seq<char>) -> Seq<char> {
    "Unknown command: "@ + raw
}

/// The prompt for a name.
pub fn prompt_message() -> (r: String)
    ensures
        r@ == prompt_text(),
{
    String::from_str("What is your name?")
}

/// The welcome for the player who has chosen `name`.
pub fn welcome_message(name: &str) -> (r: String)
    ensures
        r@ == welcome_text(name@),
{
    let mut r = String::from_str("Welcome to the game, ");
    r.append(name);
    r.append(".  Type 'help' for a list of commands. Have fun!");
    r
}

/// The notice that `name` has entered the game.
pub fn entered_message(name: &str) -> (r: String)
    ensures
        r@ == entered_text(name@),
{
    let mut r = String::from_str(name);
    r.append(" entered the game.");
    r
}

/// The notice that `name` has left the game.
pub fn quit_message(name: &str) -> (r: String)
    ensures
        r@ == quit_text(name@),
{
    let mut r = String::from_str(name);
    r.append(" left the game.");
    r
}

/// The list of commands.
pub fn help_message() -> (r: String)
    ensures
        r@ == help_text(),
{
    String::from_str(
        "Commands:\n    say <message>  - Says something out loud, e.g. 'say Hello'\n    look           - Examines the surroundings, e.g. 'look'\n    go <exit>      - Moves through the exit specified, e.g. 'go outside'",
    )
}

/// What is heard when `name` says `words`.
pub fn says_message(name: &str, words: &str) -> (r: String)
    ensures
        r@ == says_text(name@, words@),
{
    let mut r = String::from_str(name);
    r.append(" says: ");
    r.append(words);
    r
}

/// The line that lists `names` as the players in a room.
pub fn players_here_message(names: &Vec<String>) -> (r: String)
    ensures
        r@ == players_here_text(texts(names@)),
{
    let list = join(names, ", ");
    let mut r = String::from_str("Players here: ");
    r.append(list.as_str());
    r
}

/// The line that lists `names` as the exits of a room.
pub fn exits_message(names: &Vec<String>) -> (r: String)
    ensures
        r@ == exits_text(texts(names@)),
{
    let list = join(names, ", ");
    let mut r = String::from_str("Exits are: ");
    r.append(list.as_str());
    r
}

/// The notice that `name` left by the exit `direction`.
pub fn left_message(name: &str, direction: &str) -> (r: String)
    ensures
        r@ == left_text(name@, direction@),
{
    let mut r = String::from_str(name);
    r.append(" left to the ");
    r.append(direction);
    r
}

/// The notice that `name` arrived, `direction` being the exit that leads back.
pub fn arrived_message(name: &str, direction: &str) -> (r: String)
    ensures
        r@ == arrived_text(name@, direction@),
{
    let mut r = String::from_str(name);
    r.append(" arrived from the ");
    r.append(direction);
    r
}

/// The answer to one who already attacks `target`.
pub fn already_attacking_message(target: &str) -> (r: String)
    ensures
        r@ == already_attacking_text(target@),
{
    let mut r = String::from_str("You are already attacking ");
    r.append(target);
    r
}

/// The answer to an attack on `prefix`, which nobody is called.
pub fn not_seen_message(prefix: &str) -> (r: String)
    ensures
        r@ == not_seen_text(prefix@),
{
    let mut r = String::from_str("You do not see ");
    r.append(prefix);
    r.append(" anywhere.");
    r
}

/// The answer to an attack that found `name`.
pub fn attack_message(name: &str) -> (r: String)
    ensures
        r@ == attack_text(name@),
{
    let mut r = String::from_str("You attack ");
    r.append(name);
    r.append(".");
    r
}

/// The answer to `raw`, which is no command.
pub fn unknown_message(raw: &str) -> (r: String)
    ensures
        r@ == unknown_text(raw@),
{
    let mut r = String::from_str("Unknown command: ");
    r.append(raw);
    r
}

} // verus!
