use vstd::prelude::*;

use crate::player_map::{player_at, player_count};
use crate::sotpal::player::Player;
use crate::sotpal::Sotpal;
use crate::utils::{
    append_count, append_decimal, decimal, law_parse_reads_decimal, parse_i32_spec, IntParseFailure,
};

verus! {

pub open spec fn greeting_text() -> Seq<char> {
    "Hello and welcome to\nSome of These People are Lying!\n\n"@
        + "The rules are simple: one player creates the game "@
        + "and sends the code for the others to join. "@
        + "Everyone goes to a random wiki page, reads it, "@
        + "and sends the page title to me. Guesser then presses "@
        + "the guess button. I choose the topic and send it to everyone. "@
        + "The person who read the topic tells what it was about, "@
        + "others lie and try to convince the guesser that it was "@
        + "them, who read the wiki. Guesser then tries to guess, "@
        + "who is telling the truth.\n\nHave fun!"@
}

pub open spec fn local_text(topics_num: int) -> Seq<char> {
    "This is a local game\n\n"@ + "You have "@ + decimal(topics_num) + " topics\n"@
}

pub open spec fn local_draw_text(topic: Seq<char>, topics_num: int) -> Seq<char> {
    "The chosen topic is:\n"@ + topic + "\n\nYou still have "@ + decimal(topics_num)
        + " other topics."@
}

/// One line of the score table: `points : name : number of topics`.
pub open spec fn score_line(p: Player) -> Seq<char> {
    decimal(p.points as int) + " : "@ + p.name@ + " : "@ + decimal(p.topics@.len() as int) + "\n"@
}

/// The score table of the first `n` players.
pub open spec fn score_lines(s: Seq<(i32, Player)>, n: nat) -> Seq<char>
    decreases n,
{
    if n == 0 || n > s.len() {
        Seq::empty()
    } else {
        score_lines(s, (n - 1) as nat) + score_line(s[n - 1].1)
    }
}

pub open spec fn playing_text(s: Seq<(i32, Player)>, game_id: i32) -> Seq<char> {
    "The game is on!\nHere's the game id: "@ + decimal(game_id as int)
        + "\n\nPoints : Names : Topics\n"@ + score_lines(s, s.len())
}

pub open spec fn joining_text() -> Seq<char> {
    "Please send the game id to join\n(Send any number to go back)"@
}

pub open spec fn join_fail_text() -> Seq<char> {
    "Joining failed, wrong game id?"@
}

pub open spec fn guessing_text(topic: Seq<char>) -> Seq<char> {
    "The game is on!\nTopic: "@ + topic + "\nGuess who's topic this is"@
}

pub open spec fn other_guessing_text(name: Seq<char>, topic: Seq<char>) -> Seq<char> {
    name + " is guessing, who's lying about:\n"@ + topic
}

pub open spec fn guessed_player_text() -> Seq<char> {
    "Guesser believed you were saying the truth\nYou get a point!"@
}

/// The score table: the header with the game id, then one line per player
/// in order, each the player's points as `{}` writes them (a number that
/// reads back as the points), the name and the number of topics.
pub proof fn law_score_table(s: Seq<(i32, Player)>, game_id: i32, i: int)
    requires
        0 <= i < s.len(),
    ensures
        playing_text(s, game_id) == "The game is on!\nHere's the game id: "@ + decimal(game_id as int)
            + "\n\nPoints : Names : Topics\n"@ + score_lines(s, s.len()),
        score_lines(s, 0) == Seq::<char>::empty(),
        score_lines(s, (i + 1) as nat) == score_lines(s, i as nat) + decimal(s[i].1.points as int)
            + " : "@ + s[i].1.name@ + " : "@ + decimal(s[i].1.topics@.len() as int) + "\n"@,
        parse_i32_spec(decimal(s[i].1.points as int)) == Ok::<int, IntParseFailure>(s[i].1.points as int),
{
    law_parse_reads_decimal(s[i].1.points);
}

/// The welcome message with the rules of the game.
pub fn greeting() -> (r: String)
    ensures
        r@ == greeting_text(),
{
    proof {
        reveal_strlit("Hello and welcome to\nSome of These People are Lying!\n\n");
        reveal_strlit("The rules are simple: one player creates the game ");
        reveal_strlit("and sends the code for the others to join. ");
        reveal_strlit("Everyone goes to a random wiki page, reads it, ");
        reveal_strlit("and sends the page title to me. Guesser then presses ");
        reveal_strlit("the guess button. I choose the topic and send it to everyone. ");
        reveal_strlit("The person who read the topic tells what it was about, ");
        reveal_strlit("others lie and try to convince the guesser that it was ");
        reveal_strlit("them, who read the wiki. Guesser then tries to guess, ");
        reveal_strlit("who is telling the truth.\n\nHave fun!");
    }
    let mut reply = String::from_str("Hello and welcome to\nSome of These People are Lying!\n\n");
    reply.append("The rules are simple: one player creates the game ");
    reply.append("and sends the code for the others to join. ");
    reply.append("Everyone goes to a random wiki page, reads it, ");
    reply.append("and sends the page title to me. Guesser then presses ");
    reply.append("the guess button. I choose the topic and send it to everyone. ");
    reply.append("The person who read the topic tells what it was about, ");
    reply.append("others lie and try to convince the guesser that it was ");
    reply.append("them, who read the wiki. Guesser then tries to guess, ");
    reply.append("who is telling the truth.\n\nHave fun!");
    reply
}

/// The state of a local game: how many topics are collected.
pub fn local(topics_num: usize) -> (r: String)
    ensures
        r@ == local_text(topics_num as int),
{
    proof {
        reveal_strlit("This is a local game\n\n");
        reveal_strlit("You have ");
        reveal_strlit(" topics\n");
    }
    let mut reply = String::from_str("This is a local game\n\n");
    reply.append("You have ");
    append_count(&mut reply, topics_num);
    reply.append(" topics\n");
    reply
}

/// The topic drawn in a local game, and how many are left.
pub fn local_draw(topic: String, topics_num: usize) -> (r: String)
    ensures
        r@ == local_draw_text(topic@, topics_num as int),
{
    proof {
        reveal_strlit("The chosen topic is:\n");
        reveal_strlit("\n\nYou still have ");
        reveal_strlit(" other topics.");
    }
    let mut reply = String::from_str("The chosen topic is:\n");
    reply.append(topic.as_str());
    reply.append("\n\nYou still have ");
    append_count(&mut reply, topics_num);
    reply.append(" other topics.");
    reply
}

/// The game id and the score table: points, name and number of topics of
/// each player, in order.
pub fn playing(game: &Sotpal, game_id: i32) -> (r: String)
    ensures
        r@ == playing_text(game.entries(), game_id),
{
    proof {
        reveal_strlit("The game is on!\nHere's the game id: ");
        reveal_strlit("\n\nPoints : Names : Topics\n");
        reveal_strlit(" : ");
        reveal_strlit("\n");
    }
    let mut reply = String::from_str("The game is on!\nHere's the game id: ");
    append_decimal(&mut reply, game_id as i64);
    reply.append("\n\nPoints : Names : Topics\n");
    let ghost head = reply@;
    let n = player_count(&game.players);
    let mut i: usize = 0;
    while i < n
        invariant
            i <= n,
            n == game.entries().len(),
            reply@ == head + score_lines(game.entries(), i as nat),
        decreases n - i,
    {
        let player = player_at(&game.players, i);
        append_decimal(&mut reply, player.points as i64);
        reply.append(" : ");
        reply.append(player.name.as_str());
        reply.append(" : ");
        append_count(&mut reply, player.topics.len());
        reply.append("\n");
        proof {
            assert(reply@ =~= head + score_lines(game.entries(), (i + 1) as nat));
        }
        i = i + 1;
    }
    reply
}

/// Asks for the id of the game to join.
pub fn joining() -> (r: String)
    ensures
        r@ == joining_text(),
{
    proof {
        reveal_strlit("Please send the game id to join\n(Send any number to go back)");
    }
    String::from_str("Please send the game id to join\n(Send any number to go back)")
}

/// Tells that no game has the id sent.
pub fn join_fail() -> (r: String)
    ensures
        r@ == join_fail_text(),
{
    proof {
        reveal_strlit("Joining failed, wrong game id?");
    }
    String::from_str("Joining failed, wrong game id?")
}

/// The topic of the round, for the guesser.
pub fn guessing(topic: String) -> (r: String)
    ensures
        r@ == guessing_text(topic@),
{
    proof {
        reveal_strlit("The game is on!\nTopic: ");
        reveal_strlit("\nGuess who's topic this is");
    }
    let mut reply = String::from_str("The game is on!\nTopic: ");
    reply.append(topic.as_str());
    reply.append("\nGuess who's topic this is");
    reply
}

/// The topic of the round and who guesses, for the other players.
pub fn other_guessing(name: String, topic: String) -> (r: String)
    ensures
        r@ == other_guessing_text(name@, topic@),
{
    proof {
        reveal_strlit(" is guessing, who's lying about:\n");
    }
    let mut reply = name;
    reply.append(" is guessing, who's lying about:\n");
    reply.append(topic.as_str());
    reply
}

/// Tells a player that the guesser believed them.
pub fn guessed_player() -> (r: String)
    ensures
        r@ == guessed_player_text(),
{
    proof {
        reveal_strlit("Guesser believed you were saying the truth\nYou get a point!");
    }
    String::from_str("Guesser believed you were saying the truth\nYou get a point!")
}

} // verus!
