pub mod utils;

use std::collections::HashMap;
use vstd::prelude::*;

use crate::player_map::{has_id, player_at, position_of};
use crate::random::random_below;
use crate::sotpal::{
    add_player_outcome, add_topic_outcome, draw_topic_outcome, empty_name_message,
    give_point_outcome, no_guesser_message, no_reader_message, no_topic_set_message,
    player_appended, position, remove_player_outcome, Sotpal,
};
use crate::utils::{
    copy_result, fails_with, int_parse_failure_text, parse_i32, parse_i32_spec, Error, Result,
};
use utils::keyboards::{self, ButtonView, Keyboard};
use utils::replies;
use utils::{copy_state, Player, PlayerState, PlayerView, StateView};

verus! {

/// The sender of an update: a Telegram user id and first name.
pub struct User {
    pub id: i64,
    pub first_name: String,
}

/// A message sent to the bot: who sent it, in which chat, its id, and its
/// text (`None` for a message of another kind).
pub struct IncomingMessage {
    pub from: User,
    pub chat: i64,
    pub id: i64,
    pub text: Option<String>,
}

/// A button pressed under one of the bot's messages: who pressed it and the
/// data the button carries.
pub struct IncomingCallback {
    pub from: User,
    pub data: Option<String>,
}

/// What the bot asks to be done: send a text, with buttons or none, to a
/// user; or delete a message of a chat.
pub enum Outgoing {
    Text { to: i64, text: String, keyboard: Option<Keyboard> },
    Delete { chat: i64, message: i64 },
}

/// An outgoing action, as plain values.
pub enum OutgoingView {
    Text(i64, Seq<char>, Option<Seq<Seq<ButtonView>>>),
    Delete(i64, i64),
}

pub open spec fn keyboard_view(k: Option<Keyboard>) -> Option<Seq<Seq<ButtonView>>> {
    match k {
        Some(k) => Some(k@),
        None => None,
    }
}

impl View for Outgoing {
    type V = OutgoingView;

    open spec fn view(&self) -> OutgoingView {
        match self {
            Outgoing::Text { to, text, keyboard } => OutgoingView::Text(*to, text@, keyboard_view(*keyboard)),
            Outgoing::Delete { chat, message } => OutgoingView::Delete(*chat, *message),
        }
    }
}

/// The bot: its users by Telegram id, the games by game id, the next player
/// id to hand out, the Telegram id of the bot's master, and the actions
/// decided and not yet carried out, in order.
pub struct TelegramBot {
    pub players: HashMap<i64, Player>,
    pub games: HashMap<i32, Sotpal>,
    pub next_id: i32,
    pub master: i64,
    pub outbox: Vec<Outgoing>,
}

/// A user whose state says the user is in a game.
pub open spec fn in_game_state(s: StateView) -> bool {
    s is Playing || s is ThisGuessing || s is OtherGuessing
}

pub open spec fn unknown_message_kind_text() -> Seq<char> {
    "Unknown message kind received"@
}

pub open spec fn unexpected_callback_text() -> Seq<char> {
    "Unexpected callback received"@
}

pub open spec fn empty_callback_text() -> Seq<char> {
    "Empty callback received"@
}

pub open spec fn unknown_update_text() -> Seq<char> {
    "Unknown update kind received"@
}

pub open spec fn update_failed_text() -> Seq<char> {
    "Receiving update failed"@
}

/// The greeting message with its buttons, for `to`.
pub open spec fn greeting_message(to: i64) -> OutgoingView {
    OutgoingView::Text(to, replies::greeting_text(), Some(keyboards::greeting_view()))
}


/// The user `uid` now has state `state`, id and game unchanged; every other
/// user is as before.
pub open spec fn user_set(b: TelegramBot, a: TelegramBot, uid: i64, state: StateView) -> bool {
    a.users() == b.users().insert(
        uid,
        PlayerView { id: b.users()[uid].id, game_id: b.users()[uid].game_id, state },
    )
}

/// The user `uid` now belongs to game `game_id` with state `state`; every
/// other user is as before.
pub open spec fn user_placed(b: TelegramBot, a: TelegramBot, uid: i64, game_id: i32, state: StateView) -> bool {
    a.users() == b.users().insert(uid, PlayerView { id: b.users()[uid].id, game_id, state })
}

/// The games, the next player id and the master are as before.
pub open spec fn others_kept(b: TelegramBot, a: TelegramBot) -> bool {
    &&& a.games@ == b.games@
    &&& a.next_id == b.next_id
    &&& a.master == b.master
}

/// Nothing changed.
pub open spec fn unchanged(b: TelegramBot, a: TelegramBot) -> bool {
    &&& a.users() == b.users()
    &&& others_kept(b, a)
    &&& a.sent() == b.sent()
}

/// Only the game `game_id` may have changed, and the next player id and the
/// master are as before.
pub open spec fn only_game_changed(b: TelegramBot, a: TelegramBot, game_id: i32) -> bool {
    &&& a.games@ == b.games@.insert(game_id, a.games@[game_id])
    &&& a.next_id == b.next_id
    &&& a.master == b.master
}

/// Exactly one action was added: `m`.
pub open spec fn sent_one(b: TelegramBot, a: TelegramBot, m: OutgoingView) -> bool {
    a.sent() == b.sent().push(m)
}

/// A user who writes for the first time is registered with the next player
/// id, at the greeting, and greeted.
pub open spec fn user_registered(b: TelegramBot, a: TelegramBot, uid: i64) -> bool {
    &&& a.users() == b.users().insert(uid, PlayerView { id: b.next_id, game_id: 0, state: StateView::Greeting })
    &&& a.next_id == b.next_id + 1
    &&& a.games@ == b.games@
    &&& a.master == b.master
    &&& sent_one(b, a, greeting_message(uid))
}

/// Back to the greeting, and greeted.
pub open spec fn greeted(b: TelegramBot, a: TelegramBot, uid: i64) -> bool {
    &&& user_set(b, a, uid, StateView::Greeting)
    &&& others_kept(b, a)
    &&& sent_one(b, a, greeting_message(uid))
}

/// Greeted again, nothing else.
pub open spec fn greeting_repeated(b: TelegramBot, a: TelegramBot, uid: i64) -> bool {
    &&& a.users() == b.users()
    &&& others_kept(b, a)
    &&& sent_one(b, a, greeting_message(uid))
}

/// A topic added to a local game: the message that carried it deleted, the
/// topic recorded last, and the count shown.
pub open spec fn local_topic_added(
    b: TelegramBot,
    a: TelegramBot,
    uid: i64,
    chat: i64,
    message_id: i64,
    data: Seq<char>,
    topics: Seq<Seq<char>>,
) -> bool {
    &&& user_set(b, a, uid, StateView::Local(topics.push(data)))
    &&& others_kept(b, a)
    &&& a.sent() == b.sent().push(OutgoingView::Delete(chat, message_id)).push(
        OutgoingView::Text(uid, replies::local_text(topics.len() + 1 as int), Some(keyboards::local_view())),
    )
}

/// Some topic `i` of a local game drawn: removed from the topics and shown
/// with the number left.
pub open spec fn local_topic_drawn_at(b: TelegramBot, a: TelegramBot, uid: i64, topics: Seq<Seq<char>>, i: int) -> bool {
    &&& 0 <= i < topics.len()
    &&& user_set(b, a, uid, StateView::Local(topics.remove(i)))
    &&& others_kept(b, a)
    &&& sent_one(
        b,
        a,
        OutgoingView::Text(uid, replies::local_draw_text(topics[i], topics.len() - 1 as int), Some(keyboards::local_view())),
    )
}

pub open spec fn local_topic_drawn(b: TelegramBot, a: TelegramBot, uid: i64, topics: Seq<Seq<char>>) -> bool {
    exists|i: int| #[trigger] local_topic_drawn_at(b, a, uid, topics, i)
}

/// A local game started with no topics.
pub open spec fn local_created(b: TelegramBot, a: TelegramBot, uid: i64) -> bool {
    &&& user_set(b, a, uid, StateView::Local(Seq::empty()))
    &&& others_kept(b, a)
    &&& sent_one(b, a, OutgoingView::Text(uid, replies::local_text(0), Some(keyboards::local_view())))
}

/// The user asked for the id of a game to join.
pub open spec fn join_entered(b: TelegramBot, a: TelegramBot, uid: i64) -> bool {
    &&& user_set(b, a, uid, StateView::Joining)
    &&& others_kept(b, a)
    &&& sent_one(b, a, OutgoingView::Text(uid, replies::joining_text(), None))
}

/// The score table of game `game_id`, with the buttons of a game in play.
pub open spec fn playing_message(to: i64, game: Sotpal, game_id: i32) -> OutgoingView {
    OutgoingView::Text(to, replies::playing_text(game.entries(), game_id), Some(keyboards::playing_view()))
}

/// The user's player added to game `game_id` under `name`; when that
/// succeeds the user is in the game, playing, and sees the score table.
pub open spec fn joined(b: TelegramBot, a: TelegramBot, uid: i64, name: String, game_id: i32, r: Result<()>) -> bool {
    &&& only_game_changed(b, a, game_id)
    &&& add_player_outcome(b.games@[game_id], a.games@[game_id], b.users()[uid].id, name, r)
    &&& r is Ok ==> user_placed(b, a, uid, game_id, StateView::Playing) && sent_one(
        b,
        a,
        playing_message(uid, a.games@[game_id], game_id),
    )
    &&& r is Err ==> a.users() == b.users() && a.sent() == b.sent()
}

/// No game has the id sent: told so, and greeted.
pub open spec fn join_failed(b: TelegramBot, a: TelegramBot, uid: i64) -> bool {
    &&& user_set(b, a, uid, StateView::Greeting)
    &&& others_kept(b, a)
    &&& a.sent() == b.sent().push(OutgoingView::Text(uid, replies::join_fail_text(), None)).push(
        greeting_message(uid),
    )
}

/// The text sent while joining is read as a game id: text that is no number
/// is refused; an id with a game is joined; otherwise joining failed.
pub open spec fn join_tried(b: TelegramBot, a: TelegramBot, uid: i64, name: String, data: Seq<char>, r: Result<()>) -> bool {
    match parse_i32_spec(data) {
        Err(f) => fails_with(r, int_parse_failure_text(f)) && unchanged(b, a),
        Ok(k) => if b.games@.contains_key(k as i32) {
            joined(b, a, uid, name, k as i32, r)
        } else {
            r is Ok && join_failed(b, a, uid)
        },
    }
}

/// A topic added to the user's player in the user's game; when that
/// succeeds the user sees the score table.
pub open spec fn game_topic_added(b: TelegramBot, a: TelegramBot, uid: i64, topic: String, r: Result<()>) -> bool {
    let game_id = b.users()[uid].game_id;
    &&& only_game_changed(b, a, game_id)
    &&& add_topic_outcome(b.games@[game_id], a.games@[game_id], b.users()[uid].id, topic, r)
    &&& a.users() == b.users()
    &&& r is Ok ==> sent_one(b, a, playing_message(uid, a.games@[game_id], game_id))
    &&& r is Err ==> a.sent() == b.sent()
}

/// The guesser is shown the topic again, with a button per player; without
/// a topic, the topic's error is returned.
pub open spec fn this_guessing_told(b: TelegramBot, a: TelegramBot, uid: i64, r: Result<()>) -> bool {
    let game = b.games@[b.users()[uid].game_id];
    match game.topic {
        Err(e) => r == Err::<(), Error>(e) && unchanged(b, a),
        Ok(t) => r is Ok && a.users() == b.users() && others_kept(b, a) && sent_one(
            b,
            a,
            OutgoingView::Text(uid, replies::guessing_text(t@), Some(keyboards::guessing_view(game.entries()))),
        ),
    }
}

/// The guesser of the user's game is one of its players (or no round was
/// drawn): telling who guesses cannot fail to find the guesser.
pub open spec fn guesser_known(b: TelegramBot, uid: i64) -> bool {
    let game = b.games@[b.users()[uid].game_id];
    match game.guesser {
        Ok(g) => has_id(game.entries(), g),
        Err(_) => true,
    }
}

/// The user is told who guesses and the topic; without a guesser or a
/// topic, that error is returned.
pub open spec fn other_guessing_told(b: TelegramBot, a: TelegramBot, uid: i64, r: Result<()>) -> bool {
    let game = b.games@[b.users()[uid].game_id];
    match game.guesser {
        Err(e) => r == Err::<(), Error>(e) && unchanged(b, a),
        Ok(g) => match game.topic {
            Err(e) => r == Err::<(), Error>(e) && unchanged(b, a),
            Ok(t) => r is Ok && a.users() == b.users() && others_kept(b, a) && sent_one(
                b,
                a,
                OutgoingView::Text(
                    uid,
                    replies::other_guessing_text(game.entries()[position(game.entries(), g)].1.name@, t@),
                    None,
                ),
            ),
        },
    }
}

/// What the bot does with a message: refuses a message that is no text;
/// registers a new user; otherwise answers by the user's state.
pub open spec fn message_answered(b: TelegramBot, a: TelegramBot, message: IncomingMessage, r: Result<()>) -> bool {
    let uid = message.from.id;
    match message.text {
        None => fails_with(r, unknown_message_kind_text()) && unchanged(b, a),
        Some(data) => if !b.users().contains_key(uid) {
            r is Ok && user_registered(b, a, uid)
        } else {
            match b.users()[uid].state {
                StateView::Local(topics) => r is Ok && local_topic_added(
                    b,
                    a,
                    uid,
                    message.chat,
                    message.id,
                    data@,
                    topics,
                ),
                StateView::Playing => game_topic_added(b, a, uid, data, r),
                StateView::Joining => join_tried(b, a, uid, message.from.first_name, data@, r),
                StateView::Greeting => r is Ok && greeting_repeated(b, a, uid),
                StateView::ThisGuessing => this_guessing_told(b, a, uid, r),
                StateView::OtherGuessing => other_guessing_told(b, a, uid, r),
            }
        },
    }
}

/// A message can be answered without failing: a new user can get an id,
/// and a user told who guesses has a guesser to be told.
pub open spec fn message_safe(b: TelegramBot, message: IncomingMessage) -> bool {
    let uid = message.from.id;
    message.text is Some ==> if !b.users().contains_key(uid) {
        b.next_id < i32::MAX
    } else {
        b.users()[uid].state is OtherGuessing ==> guesser_known(b, uid)
    }
}

/// After an answer: on failure the user is sent the error.
pub open spec fn error_reported(mid: TelegramBot, a: TelegramBot, to: i64, r: Result<()>) -> bool {
    &&& a.users() == mid.users()
    &&& others_kept(mid, a)
    &&& match r {
        Ok(_) => a.sent() == mid.sent(),
        Err(e) => sent_one(mid, a, OutgoingView::Text(to, "Error::General: "@ + e.text(), None)),
    }
}

/// A button of a local game: draw a topic, leave, or nothing known.
pub open spec fn local_answered(b: TelegramBot, a: TelegramBot, uid: i64, data: Seq<char>, topics: Seq<Seq<char>>, r: Result<()>) -> bool {
    if data == "local draw"@ {
        r is Ok && local_topic_drawn(b, a, uid, topics)
    } else if data == "local leave"@ {
        r is Ok && greeted(b, a, uid)
    } else {
        fails_with(r, unexpected_callback_text()) && unchanged(b, a)
    }
}

/// A new game with the id `game_id`: its only player is `player_id` named
/// `name`, and no round was drawn.
pub open spec fn fresh_game(g: Sotpal, player_id: i32, name: String) -> bool {
    &&& g.wf()
    &&& player_appended(Seq::empty(), g.entries(), player_id, name)
    &&& fails_with(g.topic, no_topic_set_message())
    &&& fails_with(g.guesser, no_guesser_message())
    &&& fails_with(g.reader, no_reader_message())
}

/// A game created under a random eight-digit id with the user's player in
/// it (replacing a game that had that id), the user moved to it, and the
/// score table shown; an empty name is refused.
pub open spec fn game_created(b: TelegramBot, a: TelegramBot, uid: i64, name: String, r: Result<()>) -> bool {
    if name@.len() == 0 {
        fails_with(r, empty_name_message()) && unchanged(b, a)
    } else {
        r is Ok && exists|game_id: i32| #[trigger] game_created_as(b, a, uid, name, game_id)
    }
}

pub open spec fn game_created_as(b: TelegramBot, a: TelegramBot, uid: i64, name: String, game_id: i32) -> bool {
    &&& 10000000 <= game_id < 99999999
    &&& only_game_changed(b, a, game_id)
    &&& a.games@.contains_key(game_id)
    &&& fresh_game(a.games@[game_id], b.users()[uid].id, name)
    &&& user_placed(b, a, uid, game_id, b.users()[uid].state)
    &&& sent_one(b, a, playing_message(uid, a.games@[game_id], game_id))
}

/// A button of the greeting: local game, new game, join, or nothing known.
pub open spec fn greeting_answered(b: TelegramBot, a: TelegramBot, uid: i64, name: String, data: Seq<char>, r: Result<()>) -> bool {
    if data == "local"@ {
        r is Ok && local_created(b, a, uid)
    } else if data == "create"@ {
        game_created(b, a, uid, name, r)
    } else if data == "join"@ {
        r is Ok && join_entered(b, a, uid)
    } else {
        fails_with(r, unexpected_callback_text()) && unchanged(b, a)
    }
}

/// The user's player removed from the user's game; when that succeeds the
/// user is back at the greeting.
pub open spec fn game_left(b: TelegramBot, a: TelegramBot, uid: i64, r: Result<()>) -> bool {
    let game_id = b.users()[uid].game_id;
    &&& only_game_changed(b, a, game_id)
    &&& remove_player_outcome(b.games@[game_id], a.games@[game_id], b.users()[uid].id, r)
    &&& r is Ok ==> user_set(b, a, uid, StateView::Greeting) && sent_one(b, a, greeting_message(uid))
    &&& r is Err ==> a.users() == b.users() && a.sent() == b.sent()
}

/// A local draw takes out exactly the topic it shows: the topics left, with
/// the shown topic added back, are the topics before.
pub proof fn law_local_draw_takes_shown(b: TelegramBot, a: TelegramBot, uid: i64, topics: Seq<Seq<char>>)
    requires
        local_topic_drawn(b, a, uid, topics),
    ensures
        match a.users()[uid].state {
            StateView::Local(rest) => exists|shown: Seq<char>|
                #[trigger] topics.to_multiset().count(shown) > 0 && rest.to_multiset().insert(shown)
                    == topics.to_multiset() && a.sent() == b.sent().push(
                    OutgoingView::Text(
                        uid,
                        replies::local_draw_text(shown, rest.len() as int),
                        Some(keyboards::local_view()),
                    ),
                ),
            _ => false,
        },
{
    broadcast use vstd::multiset::group_multiset_axioms;

    let i = choose|i: int| #[trigger] local_topic_drawn_at(b, a, uid, topics, i);
    let shown = topics[i];
    let rest = topics.remove(i);
    assert(a.users()[uid].state == StateView::Local(rest));
    vstd::seq_lib::to_multiset_remove(topics, i);
    vstd::seq_lib::to_multiset_contains(topics, shown);
    assert(topics.contains(shown));
    assert(rest.to_multiset().insert(shown) =~= topics.to_multiset());
    assert(topics.to_multiset().count(shown) > 0);
}

/// Every message of a round goes to `to` or to a user of `game_id`, when
/// every user named in `order` is known.
proof fn lemma_round_messages_recipients(
    order: Seq<i64>,
    users: Map<i64, PlayerView>,
    game_id: i32,
    guesser: i32,
    to: i64,
    name: Seq<char>,
    topic: Seq<char>,
    buttons: Seq<Seq<ButtonView>>,
)
    requires
        forall|j: int| 0 <= j < order.len() ==> users.contains_key(#[trigger] order[j]),
    ensures
        forall|k: int|
            0 <= k < round_messages(order, users, game_id, guesser, to, name, topic, buttons).len()
                ==> match #[trigger] round_messages(order, users, game_id, guesser, to, name, topic, buttons)[k] {
                OutgoingView::Text(x, _, _) => x == to || (users.contains_key(x) && users[x].game_id == game_id),
                OutgoingView::Delete(_, _) => false,
            },
    decreases order.len(),
{
    if order.len() > 0 {
        let rest = order.drop_last();
        assert forall|j: int| 0 <= j < rest.len() implies users.contains_key(#[trigger] rest[j]) by {
            assert(rest[j] == order[j]);
        }
        lemma_round_messages_recipients(rest, users, game_id, guesser, to, name, topic, buttons);
        assert(users.contains_key(order[order.len() - 1]));
    }
}

/// When a round starts in the game of the user who pressed "Guess", every
/// message sent goes to that user or to a user of that game: users of other
/// games hear nothing. When the draw fails nothing is sent.
pub proof fn law_round_messages_stay_in_game(b: TelegramBot, a: TelegramBot, uid: i64, name: Seq<char>, r: Result<()>)
    requires
        round_started(b, a, uid, name, r),
    ensures
        a.sent().len() >= b.sent().len(),
        a.sent().take(b.sent().len() as int) == b.sent(),
        r is Err ==> a.sent() == b.sent(),
        forall|k: int|
            b.sent().len() <= k < a.sent().len() ==> match #[trigger] a.sent()[k] {
                OutgoingView::Text(to, _, _) => to == uid || (b.users().contains_key(to) && b.users()[to].game_id
                    == b.users()[uid].game_id),
                OutgoingView::Delete(_, _) => false,
            },
{
    let game_id = b.users()[uid].game_id;
    let guesser = b.users()[uid].id;
    let t = choose|t: Result<String>| #[trigger] round_started_with(b, a, uid, name, r, t);
    match t {
        Err(_) => {
            assert(a.sent().take(b.sent().len() as int) =~= b.sent());
        },
        Ok(topic) => {
            let buttons = keyboards::guessing_view(a.games@[game_id].entries());
            let order = choose|order: Seq<i64>|
                #[trigger] order.to_set() == b.users().dom() && order.no_duplicates() && a.sent() == b.sent()
                    + round_messages(order, b.users(), game_id, guesser, uid, name, topic@, buttons);
            assert forall|j: int| 0 <= j < order.len() implies b.users().contains_key(#[trigger] order[j]) by {
                assert(order.contains(order[j]));
                assert(order.to_set().contains(order[j]));
            }
            lemma_round_messages_recipients(order, b.users(), game_id, guesser, uid, name, topic@, buttons);
            let msgs = round_messages(order, b.users(), game_id, guesser, uid, name, topic@, buttons);
            assert(a.sent().take(b.sent().len() as int) =~= b.sent());
            assert forall|k: int| b.sent().len() <= k < a.sent().len() implies match #[trigger] a.sent()[k] {
                OutgoingView::Text(to, _, _) => to == uid || (b.users().contains_key(to) && b.users()[to].game_id
                    == game_id),
                OutgoingView::Delete(_, _) => false,
            } by {
                assert(a.sent()[k] == msgs[k - b.sent().len()]);
            }
        },
    }
}

/// `x` raised by one point, short of `i32::MAX`.
pub open spec fn one_more_point(x: i32) -> int {
    if x < i32::MAX {
        x + 1
    } else {
        x as int
    }
}

/// Scoring a guess: the named player gains a point; the guesser (naming
/// someone else) gains a point exactly when the named player is the round's
/// reader, and keeps the points otherwise; every other player keeps the
/// points; no player is added, dropped, renamed or moved.
pub proof fn law_guess_scores(b: TelegramBot, a: TelegramBot, uid: i64, guess: i32, r: Result<()>)
    requires
        b.wf(),
        b.users().contains_key(uid),
        b.games@.contains_key(b.users()[uid].game_id),
        guess_answered(b, a, uid, guess, r),
        r is Ok,
    ensures
        ({
            let game_id = b.users()[uid].game_id;
            let guesser = b.users()[uid].id;
            let s = b.games@[game_id].entries();
            let t = a.games@[game_id].entries();
            &&& b.games@[game_id].reader is Ok
            &&& t.len() == s.len()
            &&& forall|i: int|
                0 <= i < s.len() ==> {
                    &&& (#[trigger] t[i]).0 == s[i].0
                    &&& t[i].1.name == s[i].1.name
                    &&& t[i].1.topics == s[i].1.topics
                    &&& s[i].0 != guess && s[i].0 != guesser ==> t[i].1.points == s[i].1.points
                    &&& s[i].0 == guess && guess != guesser ==> t[i].1.points == one_more_point(s[i].1.points)
                    &&& s[i].0 == guesser && guess != guesser ==> t[i].1.points == if Ok::<i32, Error>(guess)
                        == b.games@[game_id].reader {
                        one_more_point(s[i].1.points)
                    } else {
                        s[i].1.points as int
                    }
                }
        }),
{
    let game_id = b.users()[uid].game_id;
    let guesser = b.users()[uid].id;
    let before = b.games@[game_id];
    let s = before.entries();
    let t = a.games@[game_id].entries();
    let (g, r1) = choose|g: Sotpal, r1: Result<()>| #[trigger] give_point_outcome(before, g, guess, r1) && g.wf()
        && guess_answered_after(b, a, uid, guess, g, r);
    let m = g.entries();
    assert(before.wf());
    let reader = g.reader->Ok_0;
    assert(g.reader == before.reader);
    // After the first point.
    assert forall|i: int| 0 <= i < s.len() implies {
        &&& (#[trigger] m[i]).0 == s[i].0
        &&& m[i].1.name == s[i].1.name
        &&& m[i].1.topics == s[i].1.topics
        &&& m[i].1.points == if s[i].0 == guess { one_more_point(s[i].1.points) } else { s[i].1.points as int }
    } by {
        if has_id(s, guess) {
            let p = position(s, guess);
            if i != p {
                assert(s[i].0 != guess);
            }
        }
    }
    assert(m.len() == s.len());
    // After the guesser's point, if any.
    if guess == reader {
        let r2 = choose|r2: Result<()>| #[trigger] give_point_outcome(g, a.games@[game_id], guesser, r2);
        assert forall|i: int| 0 <= i < m.len() implies {
            &&& (#[trigger] t[i]).0 == m[i].0
            &&& t[i].1.name == m[i].1.name
            &&& t[i].1.topics == m[i].1.topics
            &&& t[i].1.points == if m[i].0 == guesser { one_more_point(m[i].1.points) } else { m[i].1.points as int }
        } by {
            if has_id(m, guesser) {
                let p = position(m, guesser);
                if i != p {
                    assert(m[i].0 != guesser);
                }
            }
        }
        assert(t.len() == m.len());
    } else {
        assert(a.games@[game_id] == g);
    }
}

/// A user who joins a game plays in it with the same player id, the game
/// now has that player, no other user changes, and the user alone is told.
pub proof fn law_join_places_user(b: TelegramBot, a: TelegramBot, uid: i64, name: String, game_id: i32, r: Result<()>)
    requires
        b.users().contains_key(uid),
        joined(b, a, uid, name, game_id, r),
        r is Ok,
    ensures
        a.users().contains_key(uid),
        a.users()[uid].game_id == game_id,
        a.users()[uid].state is Playing,
        a.users()[uid].id == b.users()[uid].id,
        has_id(a.games@[game_id].entries(), b.users()[uid].id),
        forall|u: i64| #[trigger] b.users().contains_key(u) && u != uid ==> a.users()[u] == b.users()[u],
        a.sent().len() == b.sent().len() + 1,
        a.sent().last() is Text && a.sent().last()->Text_0 == uid,
{
    let g = a.games@[game_id].entries();
    let last = g.len() - 1;
    assert(g[last].0 == b.users()[uid].id);
}

/// When a round starts, the users of other games are untouched; in the
/// round's game the user whose player guesses is the only one guessing and
/// every other user of the game waits; ids and games stay.
pub proof fn law_round_states(b: TelegramBot, a: TelegramBot, uid: i64, name: Seq<char>, r: Result<()>)
    requires
        round_started(b, a, uid, name, r),
        r is Ok,
    ensures
        a.users().dom() == b.users().dom(),
        forall|u: i64|
            #[trigger] b.users().contains_key(u) ==> {
                &&& a.users()[u].id == b.users()[u].id
                &&& a.users()[u].game_id == b.users()[u].game_id
                &&& b.users()[u].game_id != b.users()[uid].game_id ==> a.users()[u] == b.users()[u]
                &&& b.users()[u].game_id == b.users()[uid].game_id ==> (a.users()[u].state is ThisGuessing
                    <==> b.users()[u].id == b.users()[uid].id) && (a.users()[u].state is ThisGuessing
                    || a.users()[u].state is OtherGuessing)
            },
{
    let t = choose|t: Result<String>| #[trigger] round_started_with(b, a, uid, name, r, t);
}

/// A user after a round is drawn in game `game_id`: in that game, the one
/// whose player is `guesser` guesses and the others wait.
pub open spec fn round_user(v: PlayerView, game_id: i32, guesser: i32) -> PlayerView {
    if v.game_id == game_id {
        PlayerView {
            id: v.id,
            game_id,
            state: if v.id == guesser {
                StateView::ThisGuessing
            } else {
                StateView::OtherGuessing
            },
        }
    } else {
        v
    }
}

pub open spec fn round_users(before: Map<i64, PlayerView>, after: Map<i64, PlayerView>, game_id: i32, guesser: i32) -> bool {
    &&& after.dom() == before.dom()
    &&& forall|u: i64| #[trigger] before.contains_key(u) ==> after[u] == round_user(before[u], game_id, guesser)
}

/// The messages of a round, user by user in `order`: the guesser (answering
/// to `to`) gets the topic and a button per player, every other user of the
/// game gets the guesser's name and the topic.
pub open spec fn round_messages(
    order: Seq<i64>,
    users: Map<i64, PlayerView>,
    game_id: i32,
    guesser: i32,
    to: i64,
    name: Seq<char>,
    topic: Seq<char>,
    buttons: Seq<Seq<ButtonView>>,
) -> Seq<OutgoingView>
    decreases order.len(),
{
    if order.len() == 0 {
        Seq::empty()
    } else {
        let u = order.last();
        let rest = round_messages(order.drop_last(), users, game_id, guesser, to, name, topic, buttons);
        if users[u].game_id != game_id {
            rest
        } else if users[u].id == guesser {
            rest.push(OutgoingView::Text(to, replies::guessing_text(topic), Some(buttons)))
        } else {
            rest.push(OutgoingView::Text(u, replies::other_guessing_text(name, topic), None))
        }
    }
}

/// A round drawn in the user's game with the user's player guessing; when
/// the draw fails its error is returned; otherwise the users of the game are
/// told, in the order of the users map.
pub open spec fn round_started(b: TelegramBot, a: TelegramBot, uid: i64, name: Seq<char>, r: Result<()>) -> bool {
    let game_id = b.users()[uid].game_id;
    &&& only_game_changed(b, a, game_id)
    &&& exists|t: Result<String>| #[trigger] round_started_with(b, a, uid, name, r, t)
}

pub open spec fn round_started_with(b: TelegramBot, a: TelegramBot, uid: i64, name: Seq<char>, r: Result<()>, t: Result<String>) -> bool {
    let game_id = b.users()[uid].game_id;
    let guesser = b.users()[uid].id;
    &&& draw_topic_outcome(b.games@[game_id], a.games@[game_id], guesser, t)
    &&& match t {
        Err(e) => r == Err::<(), Error>(e) && a.users() == b.users() && a.sent() == b.sent(),
        Ok(topic) => {
            &&& r is Ok
            &&& round_users(b.users(), a.users(), game_id, guesser)
            &&& exists|order: Seq<i64>|
                #[trigger] order.to_set() == b.users().dom() && order.no_duplicates() && a.sent() == b.sent()
                    + round_messages(
                    order,
                    b.users(),
                    game_id,
                    guesser,
                    uid,
                    name,
                    topic@,
                    keyboards::guessing_view(a.games@[game_id].entries()),
                )
        },
    }
}

/// A user after a guess in game `game_id`: in that game, back to playing.
pub open spec fn playing_user(v: PlayerView, game_id: i32) -> PlayerView {
    if v.game_id == game_id {
        PlayerView { id: v.id, game_id, state: StateView::Playing }
    } else {
        v
    }
}

pub open spec fn guess_users(before: Map<i64, PlayerView>, after: Map<i64, PlayerView>, game_id: i32) -> bool {
    &&& after.dom() == before.dom()
    &&& forall|u: i64| #[trigger] before.contains_key(u) ==> after[u] == playing_user(before[u], game_id)
}

/// The score table of game `game_id`, to every user of the game in `order`.
pub open spec fn score_messages(order: Seq<i64>, users: Map<i64, PlayerView>, game_id: i32, game: Sotpal) -> Seq<OutgoingView>
    decreases order.len(),
{
    if order.len() == 0 {
        Seq::empty()
    } else {
        let u = order.last();
        let rest = score_messages(order.drop_last(), users, game_id, game);
        if users[u].game_id != game_id {
            rest
        } else {
            rest.push(playing_message(u, game, game_id))
        }
    }
}

/// The guesser names the player `guess`: that player gets a point; when the
/// guess names the reader, the guesser gets a point too; then all users of
/// the game play on and see the score table. Without a reader, the reader's
/// error is returned after the first point.
pub open spec fn guess_answered(b: TelegramBot, a: TelegramBot, uid: i64, guess: i32, r: Result<()>) -> bool {
    let game_id = b.users()[uid].game_id;
    &&& only_game_changed(b, a, game_id)
    &&& exists|g: Sotpal, r1: Result<()>| #[trigger] give_point_outcome(b.games@[game_id], g, guess, r1) && g.wf()
        && guess_answered_after(b, a, uid, guess, g, r)
}

pub open spec fn guess_answered_after(b: TelegramBot, a: TelegramBot, uid: i64, guess: i32, g: Sotpal, r: Result<()>) -> bool {
    let game_id = b.users()[uid].game_id;
    let guesser = b.users()[uid].id;
    match g.reader {
        Err(e) => r == Err::<(), Error>(e) && a.games@[game_id] == g && a.users() == b.users() && a.sent() == b.sent(),
        Ok(reader) => {
            &&& r is Ok
            &&& if guess == reader {
                exists|r2: Result<()>| #[trigger] give_point_outcome(g, a.games@[game_id], guesser, r2)
            } else {
                a.games@[game_id] == g
            }
            &&& guess_users(b.users(), a.users(), game_id)
            &&& exists|order: Seq<i64>|
                #[trigger] order.to_set() == b.users().dom() && order.no_duplicates() && a.sent() == b.sent()
                    + score_messages(order, b.users(), game_id, a.games@[game_id])
        },
    }
}

/// A button while playing: start a round, leave, or nothing known.
pub open spec fn playing_answered(b: TelegramBot, a: TelegramBot, uid: i64, name: Seq<char>, data: Seq<char>, r: Result<()>) -> bool {
    if data == "guess"@ {
        round_started(b, a, uid, name, r)
    } else if data == "playing leave"@ {
        game_left(b, a, uid, r)
    } else {
        fails_with(r, unexpected_callback_text()) && unchanged(b, a)
    }
}

/// What the bot does with a pressed button: refuses one without data, and
/// buttons of unknown or joining users; otherwise answers by the user's state.
pub open spec fn callback_answered(b: TelegramBot, a: TelegramBot, callback: IncomingCallback, r: Result<()>) -> bool {
    let uid = callback.from.id;
    match callback.data {
        None => fails_with(r, empty_callback_text()) && unchanged(b, a),
        Some(data) => if !b.users().contains_key(uid) {
            fails_with(r, unexpected_callback_text()) && unchanged(b, a)
        } else {
            match b.users()[uid].state {
                StateView::Joining => fails_with(r, unexpected_callback_text()) && unchanged(b, a),
                StateView::Local(topics) => local_answered(b, a, uid, data@, topics, r),
                StateView::Greeting => greeting_answered(b, a, uid, callback.from.first_name, data@, r),
                StateView::Playing => playing_answered(b, a, uid, callback.from.first_name@, data@, r),
                StateView::ThisGuessing => match parse_i32_spec(data@) {
                    Ok(guess) => guess_answered(b, a, uid, guess as i32, r),
                    Err(_) => false,
                },
                StateView::OtherGuessing => other_guessing_told(b, a, uid, r),
            }
        },
    }
}

/// A pressed button can be answered without failing: drawing from a local
/// game needs a topic, a guess must be a player id written in decimal, and a
/// user told who guesses has a guesser to be told.
pub open spec fn callback_safe(b: TelegramBot, callback: IncomingCallback) -> bool {
    let uid = callback.from.id;
    match callback.data {
        None => true,
        Some(data) => b.users().contains_key(uid) ==> match b.users()[uid].state {
            StateView::Local(topics) => data@ == "local draw"@ ==> topics.len() > 0,
            StateView::ThisGuessing => parse_i32_spec(data@) is Ok,
            StateView::OtherGuessing => guesser_known(b, uid),
            _ => true,
        },
    }
}

/// A round followed by the guess: every user of the game plays again, with
/// the same player id and game, and every other user is as before the round.
pub proof fn law_guess_ends_round(
    before: Map<i64, PlayerView>,
    during: Map<i64, PlayerView>,
    after: Map<i64, PlayerView>,
    game_id: i32,
    guesser: i32,
)
    requires
        round_users(before, during, game_id, guesser),
        guess_users(during, after, game_id),
    ensures
        after.dom() == before.dom(),
        forall|u: i64| #[trigger] before.contains_key(u) ==> after[u] == playing_user(before[u], game_id),
{
    assert forall|u: i64| #[trigger] before.contains_key(u) implies after[u] == playing_user(before[u], game_id) by {
        assert(during.contains_key(u));
        assert(during[u] == round_user(before[u], game_id, guesser));
    }
}

impl TelegramBot {
    /// The users, by Telegram id, as plain values.
    pub open spec fn users(&self) -> Map<i64, PlayerView> {
        self.players@.map_values(|p: Player| p@)
    }

    /// The actions decided so far, as plain values.
    pub open spec fn sent(&self) -> Seq<OutgoingView> {
        self.outbox@.map_values(|o: Outgoing| o@)
    }

    /// The bot is well formed when every game is, and every user whose
    /// state is in a game has that game.
    pub open spec fn wf(&self) -> bool {
        &&& forall|g: i32| #[trigger] self.games@.contains_key(g) ==> self.games@[g].wf()
        &&& forall|u: i64|
            #[trigger] self.users().contains_key(u) && in_game_state(self.users()[u].state)
                ==> self.games@.contains_key(self.users()[u].game_id)
        &&& self.ids_own()
    }

    /// Every user has a player id of its own, below the next one to hand out.
    pub open spec fn ids_own(&self) -> bool {
        &&& 0 <= self.next_id
        &&& forall|u: i64| #[trigger] self.users().contains_key(u) ==> 0 <= self.users()[u].id < self.next_id
        &&& forall|u: i64, v: i64|
            #[trigger] self.users().contains_key(u) && #[trigger] self.users().contains_key(v) && u != v
                ==> self.users()[u].id != self.users()[v].id
    }

    /// A bot with no users, no games and nothing to send, answering to
    /// `master_id` about updates it cannot read.
    pub fn new(master_id: i64) -> (r: Self)
        ensures
            r.wf(),
            r.users() == Map::<i64, PlayerView>::empty(),
            r.games@ == Map::<i32, Sotpal>::empty(),
            r.next_id == 0,
            r.master == master_id,
            r.sent() == Seq::<OutgoingView>::empty(),
    {
        let r = TelegramBot {
            players: HashMap::new(),
            games: HashMap::new(),
            next_id: 0,
            master: master_id,
            outbox: Vec::new(),
        };
        proof {
            assert(r.sent() =~= Seq::<OutgoingView>::empty());
            assert(r.users() =~= Map::<i64, PlayerView>::empty());
        }
        r
    }

    /// Queues a text for `to`.
    fn send(&mut self, to: i64, text: String, keyboard: Option<Keyboard>)
        ensures
            final(self).sent() == old(self).sent().push(OutgoingView::Text(to, text@, keyboard_view(keyboard))),
            final(self).players == old(self).players,
            final(self).games == old(self).games,
            final(self).next_id == old(self).next_id,
            final(self).master == old(self).master,
    {
        self.outbox.push(Outgoing::Text { to, text, keyboard });
        proof {
            assert(self.sent() =~= old(self).sent().push(OutgoingView::Text(to, text@, keyboard_view(keyboard))));
        }
    }

    /// Moves the user `uid` to game `game_id` with state `state`.
    fn place(&mut self, uid: i64, game_id: i32, state: PlayerState)
        requires
            old(self).players@.contains_key(uid),
        ensures
            final(self).users() == old(self).users().insert(
                uid,
                PlayerView { id: old(self).users()[uid].id, game_id, state: state@ },
            ),
            final(self).games == old(self).games,
            final(self).outbox == old(self).outbox,
            final(self).next_id == old(self).next_id,
            final(self).master == old(self).master,
    {
        let mut player = self.players.remove(&uid).unwrap();
        player.game_id = game_id;
        player.state = state;
        self.players.insert(uid, player);
        proof {
            assert(self.users() =~= old(self).users().insert(
                uid,
                PlayerView { id: old(self).users()[uid].id, game_id, state: state@ },
            ));
        }
    }

    /// Sets the state of the user `uid`.
    fn set_state(&mut self, uid: i64, state: PlayerState)
        requires
            old(self).players@.contains_key(uid),
        ensures
            final(self).users() == old(self).users().insert(
                uid,
                PlayerView { id: old(self).users()[uid].id, game_id: old(self).users()[uid].game_id, state: state@ },
            ),
            final(self).games == old(self).games,
            final(self).outbox == old(self).outbox,
            final(self).next_id == old(self).next_id,
            final(self).master == old(self).master,
    {
        let game_id = self.players.get(&uid).unwrap().game_id;
        self.place(uid, game_id, state);
    }

    /// The Telegram ids of all users, each once, in the map's order.
    fn user_ids(&self) -> (r: Vec<i64>)
        ensures
            r@.no_duplicates(),
            r@.to_set() == self.players@.dom(),
    {
        let mut ids: Vec<i64> = Vec::new();
        for uid in it: self.players.keys()
            invariant
                ids@ == it.seq().unref().take(it.index()),
                it.seq().unref().to_set() == self.players@.dom(),
                it.seq().unref().no_duplicates(),
                it.index() == it.seq().len() ==> ids@ == it.seq().unref(),
        {
            ids.push(*uid);
        }
        ids
    }

    /// Registers a user who writes for the first time: the next player id,
    /// no game, at the greeting; and greets the user.
    fn add_player(&mut self, user: User)
        requires
            old(self).wf(),
            !old(self).users().contains_key(user.id),
            old(self).next_id < i32::MAX,
        ensures
            final(self).wf(),
            user_registered(*old(self), *final(self), user.id),
    {
        let player = Player::new(self.next_id);
        self.next_id = self.next_id + 1;
        self.players.insert(user.id, player);
        proof {
            assert(self.users() =~= old(self).users().insert(
                user.id,
                PlayerView { id: old(self).next_id, game_id: 0, state: StateView::Greeting },
            ));
            assert forall|u: i64, v: i64|
                #[trigger] self.users().contains_key(u) && #[trigger] self.users().contains_key(v) && u != v
                    implies self.users()[u].id != self.users()[v].id by {
                if u != user.id && v != user.id {
                    assert(old(self).users().contains_key(u) && old(self).users().contains_key(v));
                } else if u == user.id {
                    assert(old(self).users().contains_key(v));
                } else {
                    assert(old(self).users().contains_key(u));
                }
            }
        }
        let reply = replies::greeting();
        self.send(user.id, reply, Some(keyboards::greeting()));
    }

    /// Adds a topic to a local game: deletes the message that carried it,
    /// records it, and tells how many topics there are.
    fn add_local_topic(&mut self, user: User, chat: i64, message_id: i64, data: String, topics: Vec<String>)
        requires
            old(self).wf(),
            old(self).users().contains_key(user.id),
        ensures
            final(self).wf(),
            local_topic_added(
                *old(self),
                *final(self),
                user.id,
                chat,
                message_id,
                data@,
                topics@.map_values(|t: String| t@),
            ),
    {
        self.outbox.push(Outgoing::Delete { chat, message: message_id });
        proof {
            assert(self.sent() =~= old(self).sent().push(OutgoingView::Delete(chat, message_id)));
        }
        let mut new_topics = topics;
        new_topics.push(data);
        let count = new_topics.len();
        proof {
            assert(new_topics@.map_values(|t: String| t@) =~= topics@.map_values(|t: String| t@).push(data@));
        }
        self.set_state(user.id, PlayerState::Local(new_topics));
        let reply = replies::local(count);
        self.send(user.id, reply, Some(keyboards::local()));
    }

    /// Draws a random topic of a local game: removes it from the topics and
    /// shows it with the number left.
    fn draw_local_topic(&mut self, user: User, topics: Vec<String>)
        requires
            old(self).wf(),
            old(self).users().contains_key(user.id),
            topics@.len() > 0,
        ensures
            final(self).wf(),
            local_topic_drawn(*old(self), *final(self), user.id, topics@.map_values(|t: String| t@)),
    {
        let mut new_topics = topics;
        let index = random_below(new_topics.len());
        let topic = new_topics.remove(index);
        let count = new_topics.len();
        proof {
            assert(new_topics@.map_values(|t: String| t@) =~= topics@.map_values(|t: String| t@).remove(
                index as int,
            ));
        }
        self.set_state(user.id, PlayerState::Local(new_topics));
        let reply = replies::local_draw(topic, count);
        self.send(user.id, reply, Some(keyboards::local()));
        proof {
            assert(local_topic_drawn_at(
                *old(self),
                *self,
                user.id,
                topics@.map_values(|t: String| t@),
                index as int,
            ));
        }
    }

    /// Back to the greeting.
    fn to_greeting_state(&mut self, user: User)
        requires
            old(self).wf(),
            old(self).users().contains_key(user.id),
        ensures
            final(self).wf(),
            greeted(*old(self), *final(self), user.id),
    {
        self.set_state(user.id, PlayerState::Greeting);
        let reply = replies::greeting();
        self.send(user.id, reply, Some(keyboards::greeting()));
    }

    /// Adds the user's player to game `game_id`; on success the user plays in
    /// it and sees the score table.
    fn join_game(&mut self, user: User, game_id: i32) -> (r: Result<()>)
        requires
            old(self).wf(),
            old(self).users().contains_key(user.id),
            old(self).games@.contains_key(game_id),
        ensures
            final(self).wf(),
            joined(*old(self), *final(self), user.id, user.first_name, game_id, r),
    {
        let player_id = self.players.get(&user.id).unwrap().id;
        let mut game = self.games.remove(&game_id).unwrap();
        let added = game.add_player(player_id, user.first_name.clone());
        let reply = replies::playing(&game, game_id);
        self.games.insert(game_id, game);
        proof {
            assert(self.games@ =~= old(self).games@.insert(game_id, game));
        }
        match added {
            Err(e) => {
                return Err(e);
            },
            Ok(()) => {},
        }
        self.place(user.id, game_id, PlayerState::Playing);
        self.send(user.id, reply, Some(keyboards::playing()));
        Ok(())
    }

    /// No game has the id sent: says so and greets the user again.
    fn fail_join_game(&mut self, user: User)
        requires
            old(self).wf(),
            old(self).users().contains_key(user.id),
        ensures
            final(self).wf(),
            join_failed(*old(self), *final(self), user.id),
    {
        self.send(user.id, replies::join_fail(), None);
        self.set_state(user.id, PlayerState::Greeting);
        let reply = replies::greeting();
        self.send(user.id, reply, Some(keyboards::greeting()));
    }

    /// Reads the text sent as a game id and joins that game.
    fn try_join_game(&mut self, user: User, data: String) -> (r: Result<()>)
        requires
            old(self).wf(),
            old(self).users().contains_key(user.id),
        ensures
            final(self).wf(),
            join_tried(*old(self), *final(self), user.id, user.first_name, data@, r),
    {
        let key = match parse_i32(data.as_str()) {
            Ok(key) => key,
            Err(e) => {
                return Err(e);
            },
        };
        if self.games.contains_key(&key) {
            let joined = self.join_game(user, key);
            match joined {
                Err(e) => {
                    return Err(e);
                },
                Ok(()) => {},
            }
        } else {
            self.fail_join_game(user);
        }
        Ok(())
    }

    /// Adds a topic to the user's player in the user's game, and shows the
    /// score table.
    fn add_topic(&mut self, user: User, topic: String) -> (r: Result<()>)
        requires
            old(self).wf(),
            old(self).users().contains_key(user.id),
            old(self).games@.contains_key(old(self).users()[user.id].game_id),
        ensures
            final(self).wf(),
            game_topic_added(*old(self), *final(self), user.id, topic, r),
    {
        let game_id = self.players.get(&user.id).unwrap().game_id;
        let player_id = self.players.get(&user.id).unwrap().id;
        let mut game = self.games.remove(&game_id).unwrap();
        let added = game.add_topic(player_id, topic);
        let reply = replies::playing(&game, game_id);
        self.games.insert(game_id, game);
        proof {
            assert(self.games@ =~= old(self).games@.insert(game_id, game));
        }
        match added {
            Err(e) => {
                return Err(e);
            },
            Ok(()) => {},
        }
        self.send(user.id, reply, Some(keyboards::playing()));
        Ok(())
    }

    /// The state of the user with Telegram id `id`, if the user is known.
    fn get_player_state(&self, id: i64) -> (r: Option<PlayerState>)
        ensures
            r is None <==> !self.users().contains_key(id),
            r matches Some(s) ==> s@ == self.users()[id].state,
    {
        if self.players.contains_key(&id) {
            Some(copy_state(&self.players.get(&id).unwrap().state))
        } else {
            None
        }
    }

    /// Greets the user again.
    fn message_on_greeting(&mut self, user: User)
        requires
            old(self).wf(),
        ensures
            final(self).wf(),
            greeting_repeated(*old(self), *final(self), user.id),
    {
        let reply = replies::greeting();
        self.send(user.id, reply, Some(keyboards::greeting()));
    }

    /// Shows the guesser the topic again, with a button per player.
    fn message_on_this_guessing(&mut self, user: User) -> (r: Result<()>)
        requires
            old(self).wf(),
            old(self).users().contains_key(user.id),
            old(self).games@.contains_key(old(self).users()[user.id].game_id),
        ensures
            final(self).wf(),
            this_guessing_told(*old(self), *final(self), user.id, r),
    {
        let game_id = self.players.get(&user.id).unwrap().game_id;
        let game = self.games.get(&game_id).unwrap();
        let topic = match copy_result(&game.topic) {
            Ok(t) => t,
            Err(e) => {
                return Err(e);
            },
        };
        let reply = replies::guessing(topic);
        let buttons = keyboards::guessing(game);
        self.send(user.id, reply, Some(buttons));
        Ok(())
    }

    /// Tells the user who guesses and the topic.
    fn on_other_guessing(&mut self, user: User) -> (r: Result<()>)
        requires
            old(self).wf(),
            old(self).users().contains_key(user.id),
            old(self).games@.contains_key(old(self).users()[user.id].game_id),
            guesser_known(*old(self), user.id),
        ensures
            final(self).wf(),
            other_guessing_told(*old(self), *final(self), user.id, r),
    {
        let game_id = self.players.get(&user.id).unwrap().game_id;
        let game = self.games.get(&game_id).unwrap();
        let guesser_id = match &game.guesser {
            Ok(g) => *g,
            Err(e) => {
                return Err(e.duplicate());
            },
        };
        let index = position_of(&game.players, guesser_id).unwrap();
        proof {
            assert(position(game.entries(), guesser_id) == index as int);
        }
        let guesser_name = player_at(&game.players, index).name.clone();
        let topic = match copy_result(&game.topic) {
            Ok(t) => t,
            Err(e) => {
                return Err(e);
            },
        };
        let reply = replies::other_guessing(guesser_name, topic);
        self.send(user.id, reply, None);
        Ok(())
    }

    /// Answers a message by the sender's state.
    fn receive_message_result(&mut self, message: IncomingMessage) -> (r: Result<()>)
        requires
            old(self).wf(),
            message_safe(*old(self), message),
        ensures
            final(self).wf(),
            message_answered(*old(self), *final(self), message, r),
    {
        proof {
            reveal_strlit("Unknown message kind received");
        }
        let IncomingMessage { from, chat, id, text } = message;
        match text {
            Some(data) => {
                match self.get_player_state(from.id) {
                    None => self.add_player(from),
                    Some(PlayerState::Local(topics)) => self.add_local_topic(from, chat, id, data, topics),
                    Some(PlayerState::Playing) => {
                        let added = self.add_topic(from, data);
                        match added {
                            Err(e) => {
                                return Err(e);
                            },
                            Ok(()) => {},
                        }
                    },
                    Some(PlayerState::Joining) => {
                        let tried = self.try_join_game(from, data);
                        match tried {
                            Err(e) => {
                                return Err(e);
                            },
                            Ok(()) => {},
                        }
                    },
                    Some(PlayerState::Greeting) => self.message_on_greeting(from),
                    Some(PlayerState::ThisGuessing) => {
                        let told = self.message_on_this_guessing(from);
                        match told {
                            Err(e) => {
                                return Err(e);
                            },
                            Ok(()) => {},
                        }
                    },
                    Some(PlayerState::OtherGuessing) => {
                        let told = self.on_other_guessing(from);
                        match told {
                            Err(e) => {
                                return Err(e);
                            },
                            Ok(()) => {},
                        }
                    },
                }
                Ok(())
            },
            None => Err(Error::General(String::from_str("Unknown message kind received"))),
        }
    }

    /// Answers a message; a failure is sent to the sender as text.
    pub fn receive_message(&mut self, message: IncomingMessage)
        requires
            old(self).wf(),
            message_safe(*old(self), message),
        ensures
            final(self).wf(),
            exists|mid: TelegramBot, r: Result<()>|
                message_answered(*old(self), mid, message, r) && #[trigger] error_reported(
                    mid,
                    *final(self),
                    message.from.id,
                    r,
                ),
    {
        let to = message.from.id;
        let ghost incoming = message;
        let answered = self.receive_message_result(message);
        let ghost mid = *self;
        match answered {
            Ok(()) => {},
            Err(e) => {
                let text = e.to_string();
                self.send(to, text, None);
            },
        }
        proof {
            assert(message_answered(*old(self), mid, incoming, answered));
            assert(error_reported(mid, *self, to, answered));
        }
    }

    /// The failure for a button that the user's state does not expect.
    fn unexpected_callback(&self) -> (r: Result<()>)
        ensures
            fails_with(r, unexpected_callback_text()),
    {
        proof {
            reveal_strlit("Unexpected callback received");
        }
        Err(Error::General(String::from_str("Unexpected callback received")))
    }

    /// A button of a local game.
    fn local_callback(&mut self, user: User, data: String, topics: Vec<String>) -> (r: Result<()>)
        requires
            old(self).wf(),
            old(self).users().contains_key(user.id),
            data@ == "local draw"@ ==> topics@.len() > 0,
        ensures
            final(self).wf(),
            local_answered(*old(self), *final(self), user.id, data@, topics@.map_values(|t: String| t@), r),
    {
        if data == String::from_str("local draw") {
            self.draw_local_topic(user, topics);
        } else if data == String::from_str("local leave") {
            self.to_greeting_state(user);
        } else {
            let refused = self.unexpected_callback();
            match refused {
                Err(e) => {
                    return Err(e);
                },
                Ok(()) => {},
            }
        }
        Ok(())
    }

    /// Starts a local game with no topics.
    fn create_local_game(&mut self, user: User)
        requires
            old(self).wf(),
            old(self).users().contains_key(user.id),
        ensures
            final(self).wf(),
            local_created(*old(self), *final(self), user.id),
    {
        let topics: Vec<String> = Vec::new();
        proof {
            assert(topics@.map_values(|t: String| t@) =~= Seq::<Seq<char>>::empty());
        }
        self.set_state(user.id, PlayerState::Local(topics));
        let reply = replies::local(0);
        self.send(user.id, reply, Some(keyboards::local()));
    }

    /// Creates a game under a random eight-digit id with the user's player in
    /// it, and shows its score table.
    fn create_game(&mut self, user: User) -> (r: Result<()>)
        requires
            old(self).wf(),
            old(self).users().contains_key(user.id),
        ensures
            final(self).wf(),
            game_created(*old(self), *final(self), user.id, user.first_name, r),
    {
        let mut game = Sotpal::new();
        let game_id: i32 = 10000000 + random_below(89999999) as i32;
        let player_id = self.players.get(&user.id).unwrap().id;
        let state = copy_state(&self.players.get(&user.id).unwrap().state);
        let added = game.add_player(player_id, user.first_name.clone());
        match added {
            Err(e) => {
                return Err(e);
            },
            Ok(()) => {},
        }
        self.place(user.id, game_id, state);
        let reply = replies::playing(&game, game_id);
        self.games.insert(game_id, game);
        self.send(user.id, reply, Some(keyboards::playing()));
        proof {
            assert(old(self).users()[user.id].state == state@);
            assert(game_created_as(*old(self), *self, user.id, user.first_name, game_id));
        }
        Ok(())
    }

    /// Asks for the id of the game to join.
    fn enter_join_state(&mut self, user: User)
        requires
            old(self).wf(),
            old(self).users().contains_key(user.id),
        ensures
            final(self).wf(),
            join_entered(*old(self), *final(self), user.id),
    {
        self.set_state(user.id, PlayerState::Joining);
        let reply = replies::joining();
        self.send(user.id, reply, None);
    }

    /// A button of the greeting.
    fn greeting_callback(&mut self, user: User, data: String) -> (r: Result<()>)
        requires
            old(self).wf(),
            old(self).users().contains_key(user.id),
        ensures
            final(self).wf(),
            greeting_answered(*old(self), *final(self), user.id, user.first_name, data@, r),
    {
        if data == String::from_str("local") {
            self.create_local_game(user);
        } else if data == String::from_str("create") {
            let created = self.create_game(user);
            match created {
                Err(e) => {
                    return Err(e);
                },
                Ok(()) => {},
            }
        } else if data == String::from_str("join") {
            self.enter_join_state(user);
        } else {
            let refused = self.unexpected_callback();
            match refused {
                Err(e) => {
                    return Err(e);
                },
                Ok(()) => {},
            }
        }
        Ok(())
    }

    /// Removes the user's player from the user's game and greets the user.
    fn playing_leave(&mut self, user: User) -> (r: Result<()>)
        requires
            old(self).wf(),
            old(self).users().contains_key(user.id),
            old(self).games@.contains_key(old(self).users()[user.id].game_id),
        ensures
            final(self).wf(),
            game_left(*old(self), *final(self), user.id, r),
    {
        let player_id = self.players.get(&user.id).unwrap().id;
        let game_id = self.players.get(&user.id).unwrap().game_id;
        let mut game = self.games.remove(&game_id).unwrap();
        let removed = game.remove_player(player_id);
        self.games.insert(game_id, game);
        proof {
            assert(self.games@ =~= old(self).games@.insert(game_id, game));
        }
        match removed {
            Err(e) => {
                return Err(e);
            },
            Ok(()) => {},
        }
        self.to_greeting_state(user);
        Ok(())
    }

    /// Draws a round in the user's game with the user's player guessing: the
    /// guesser gets the topic and a button per player, the other users of the
    /// game get the guesser's name and the topic.
    fn guess(&mut self, user: User) -> (r: Result<()>)
        requires
            old(self).wf(),
            old(self).users().contains_key(user.id),
            old(self).games@.contains_key(old(self).users()[user.id].game_id),
        ensures
            final(self).wf(),
            round_started(*old(self), *final(self), user.id, user.first_name@, r),
    {
        let guesser_id = self.players.get(&user.id).unwrap().id;
        let game_id = self.players.get(&user.id).unwrap().game_id;
        let mut game = self.games.remove(&game_id).unwrap();
        let drawn = game.draw_topic(guesser_id);
        self.games.insert(game_id, game);
        proof {
            assert(self.games@ =~= old(self).games@.insert(game_id, game));
        }
        let topic = match drawn {
            Err(e) => {
                proof {
                    assert(round_started_with(*old(self), *self, user.id, user.first_name@, Err(e), drawn));
                }
                return Err(e);
            },
            Ok(t) => t,
        };
        let ghost after_draw = *self;
        let ids = self.user_ids();
        let ghost start = self.users();
        let n = ids.len();
        let mut i: usize = 0;
        proof {
            assert(ids@.take(0) =~= Seq::<i64>::empty());
            assert(self.sent() =~= after_draw.sent() + Seq::<OutgoingView>::empty());
        }
        while i < n
            invariant
                i <= n,
                n == ids@.len(),
                ids@.no_duplicates(),
                ids@.to_set() == start.dom(),
                start == after_draw.users(),
                self.users().dom() == start.dom(),
                forall|u: i64| #[trigger] start.contains_key(u) ==> self.users()[u] == if ids@.take(i as int).contains(u) {
                    round_user(start[u], game_id, guesser_id)
                } else {
                    start[u]
                },
                self.games@ == after_draw.games@,
                self.games@.contains_key(game_id),
                self.next_id == after_draw.next_id,
                self.master == after_draw.master,
                self.wf(),
                self.sent() == after_draw.sent() + round_messages(
                    ids@.take(i as int),
                    start,
                    game_id,
                    guesser_id,
                    user.id,
                    user.first_name@,
                    topic@,
                    keyboards::guessing_view(self.games@[game_id].entries()),
                ),
            decreases n - i,
        {
            let uid = ids[i];
            proof {
                assert(ids@.to_set().contains(uid));
                assert(!ids@.take(i as int).contains(uid)) by {
                    if ids@.take(i as int).contains(uid) {
                        let k = choose|k: int| 0 <= k < i && ids@.take(i as int)[k] == uid;
                        assert(ids@[k] == ids@[i as int]);
                    }
                }
            }
            let player_game = self.players.get(&uid).unwrap().game_id;
            let player_id = self.players.get(&uid).unwrap().id;
            let ghost before = *self;
            if player_game == game_id {
                if player_id == guesser_id {
                    self.set_state(uid, PlayerState::ThisGuessing);
                    let reply = replies::guessing(topic.clone());
                    let buttons = keyboards::guessing(self.games.get(&game_id).unwrap());
                    self.send(user.id, reply, Some(buttons));
                } else {
                    self.set_state(uid, PlayerState::OtherGuessing);
                    let reply = replies::other_guessing(user.first_name.clone(), topic.clone());
                    self.send(uid, reply, None);
                }
            }
            proof {
                let t = ids@.take(i + 1);
                assert(t.drop_last() =~= ids@.take(i as int));
                assert(t.last() == uid);
                assert forall|u: i64| #[trigger] start.contains_key(u) implies self.users()[u] == if t.contains(u) {
                    round_user(start[u], game_id, guesser_id)
                } else {
                    start[u]
                } by {
                    if u != uid {
                        assert(t.contains(u) == ids@.take(i as int).contains(u)) by {
                            if t.contains(u) {
                                let k = choose|k: int| 0 <= k < t.len() && t[k] == u;
                                assert(ids@.take(i as int)[k] == u);
                            }
                            if ids@.take(i as int).contains(u) {
                                let k = choose|k: int| 0 <= k < i && ids@.take(i as int)[k] == u;
                                assert(t[k] == u);
                            }
                        }
                    } else {
                        assert(t[i as int] == u);
                    }
                }
                assert forall|u: i64|
                    #[trigger] self.users().contains_key(u) && in_game_state(self.users()[u].state)
                        implies self.games@.contains_key(self.users()[u].game_id) by {
                    if u != uid {
                        assert(self.users()[u] == before.users()[u]);
                    }
                }
            }
            i = i + 1;
        }
        proof {
            assert(ids@.take(n as int) =~= ids@);
            assert(round_users(start, self.users(), game_id, guesser_id));
            assert(round_started_with(*old(self), *self, user.id, user.first_name@, Ok(()), drawn));
        }
        Ok(())
    }

    /// A button while playing.
    fn playing_callback(&mut self, user: User, data: String) -> (r: Result<()>)
        requires
            old(self).wf(),
            old(self).users().contains_key(user.id),
            old(self).games@.contains_key(old(self).users()[user.id].game_id),
        ensures
            final(self).wf(),
            playing_answered(*old(self), *final(self), user.id, user.first_name@, data@, r),
    {
        if data == String::from_str("guess") {
            self.guess(user)
        } else if data == String::from_str("playing leave") {
            self.playing_leave(user)
        } else {
            self.unexpected_callback()
        }
    }

    /// The guesser names a player: that player gets a point, and the guesser
    /// too when it is the reader; then every user of the game plays on and
    /// sees the score table.
    fn this_guessing_callback(&mut self, user: User, data: String) -> (r: Result<()>)
        requires
            old(self).wf(),
            old(self).users().contains_key(user.id),
            old(self).games@.contains_key(old(self).users()[user.id].game_id),
            parse_i32_spec(data@) is Ok,
        ensures
            final(self).wf(),
            guess_answered(
                *old(self),
                *final(self),
                user.id,
                parse_i32_spec(data@)->Ok_0 as i32,
                r,
            ),
    {
        let guess = match parse_i32(data.as_str()) {
            Ok(v) => v,
            Err(e) => {
                return Err(e);
            },
        };
        let guesser_id = self.players.get(&user.id).unwrap().id;
        let game_id = self.players.get(&user.id).unwrap().game_id;
        let mut game = self.games.remove(&game_id).unwrap();
        let first = game.give_point(guess);
        let ghost pointed = game;
        let reader = match &game.reader {
            Ok(rd) => *rd,
            Err(e) => {
                let err = e.duplicate();
                self.games.insert(game_id, game);
                proof {
                    assert(self.games@ =~= old(self).games@.insert(game_id, game));
                    assert(give_point_outcome(old(self).games@[game_id], pointed, guess, first));
                }
                return Err(err);
            },
        };
        let second = if guess == reader {
            game.give_point(guesser_id)
        } else {
            Ok(())
        };
        self.games.insert(game_id, game);
        proof {
            assert(self.games@ =~= old(self).games@.insert(game_id, game));
            assert(give_point_outcome(old(self).games@[game_id], pointed, guess, first));
            if guess == reader {
                assert(give_point_outcome(pointed, game, guesser_id, second));
            }
        }
        let ghost after_points = *self;
        let ids = self.user_ids();
        let ghost start = self.users();
        let n = ids.len();
        let mut i: usize = 0;
        proof {
            assert(ids@.take(0) =~= Seq::<i64>::empty());
            assert(self.sent() =~= after_points.sent() + Seq::<OutgoingView>::empty());
        }
        while i < n
            invariant
                i <= n,
                n == ids@.len(),
                ids@.no_duplicates(),
                ids@.to_set() == start.dom(),
                start == after_points.users(),
                self.users().dom() == start.dom(),
                forall|u: i64| #[trigger] start.contains_key(u) ==> self.users()[u] == if ids@.take(i as int).contains(u) {
                    playing_user(start[u], game_id)
                } else {
                    start[u]
                },
                self.games@ == after_points.games@,
                self.games@.contains_key(game_id),
                self.next_id == after_points.next_id,
                self.master == after_points.master,
                self.wf(),
                self.sent() == after_points.sent() + score_messages(
                    ids@.take(i as int),
                    start,
                    game_id,
                    self.games@[game_id],
                ),
            decreases n - i,
        {
            let uid = ids[i];
            proof {
                assert(ids@.to_set().contains(uid));
                assert(!ids@.take(i as int).contains(uid)) by {
                    if ids@.take(i as int).contains(uid) {
                        let k = choose|k: int| 0 <= k < i && ids@.take(i as int)[k] == uid;
                        assert(ids@[k] == ids@[i as int]);
                    }
                }
            }
            let player_game = self.players.get(&uid).unwrap().game_id;
            let ghost before = *self;
            if player_game == game_id {
                self.set_state(uid, PlayerState::Playing);
                let reply = replies::playing(self.games.get(&game_id).unwrap(), game_id);
                self.send(uid, reply, Some(keyboards::playing()));
            }
            proof {
                let t = ids@.take(i + 1);
                assert(t.drop_last() =~= ids@.take(i as int));
                assert(t.last() == uid);
                assert forall|u: i64| #[trigger] start.contains_key(u) implies self.users()[u] == if t.contains(u) {
                    playing_user(start[u], game_id)
                } else {
                    start[u]
                } by {
                    if u != uid {
                        assert(t.contains(u) == ids@.take(i as int).contains(u)) by {
                            if t.contains(u) {
                                let k = choose|k: int| 0 <= k < t.len() && t[k] == u;
                                assert(ids@.take(i as int)[k] == u);
                            }
                            if ids@.take(i as int).contains(u) {
                                let k = choose|k: int| 0 <= k < i && ids@.take(i as int)[k] == u;
                                assert(t[k] == u);
                            }
                        }
                    } else {
                        assert(t[i as int] == u);
                    }
                }
                assert forall|u: i64|
                    #[trigger] self.users().contains_key(u) && in_game_state(self.users()[u].state)
                        implies self.games@.contains_key(self.users()[u].game_id) by {
                    if u != uid {
                        assert(self.users()[u] == before.users()[u]);
                    }
                }
            }
            i = i + 1;
        }
        proof {
            assert(ids@.take(n as int) =~= ids@);
            assert(guess_users(start, self.users(), game_id));
            assert(guess_answered_after(*old(self), *self, user.id, guess, pointed, Ok(())));
            assert(give_point_outcome(old(self).games@[game_id], pointed, guess, first));
        }
        Ok(())
    }

    /// Answers a pressed button by the user's state.
    fn receive_callback_result(&mut self, callback: IncomingCallback) -> (r: Result<()>)
        requires
            old(self).wf(),
            callback_safe(*old(self), callback),
        ensures
            final(self).wf(),
            callback_answered(*old(self), *final(self), callback, r),
    {
        proof {
            reveal_strlit("Empty callback received");
        }
        let IncomingCallback { from, data } = callback;
        match data {
            Some(data) => {
                let answered = match self.get_player_state(from.id) {
                    None => self.unexpected_callback(),
                    Some(PlayerState::Joining) => self.unexpected_callback(),
                    Some(PlayerState::Local(topics)) => self.local_callback(from, data, topics),
                    Some(PlayerState::Greeting) => self.greeting_callback(from, data),
                    Some(PlayerState::Playing) => self.playing_callback(from, data),
                    Some(PlayerState::ThisGuessing) => self.this_guessing_callback(from, data),
                    Some(PlayerState::OtherGuessing) => self.on_other_guessing(from),
                };
                answered
            },
            None => Err(Error::General(String::from_str("Empty callback received"))),
        }
    }

    /// Answers a pressed button; a failure is sent to the user as text.
    pub fn receive_callback(&mut self, callback: IncomingCallback)
        requires
            old(self).wf(),
            callback_safe(*old(self), callback),
        ensures
            final(self).wf(),
            exists|mid: TelegramBot, r: Result<()>|
                callback_answered(*old(self), mid, callback, r) && #[trigger] error_reported(
                    mid,
                    *final(self),
                    callback.from.id,
                    r,
                ),
    {
        let to = callback.from.id;
        let ghost incoming = callback;
        let answered = self.receive_callback_result(callback);
        let ghost mid = *self;
        match answered {
            Ok(()) => {},
            Err(e) => {
                let text = e.to_string();
                self.send(to, text, None);
            },
        }
        proof {
            assert(callback_answered(*old(self), mid, incoming, answered));
            assert(error_reported(mid, *self, to, answered));
        }
    }

    /// Tells the master that an update of an unknown kind came.
    pub fn unknown_update(&mut self)
        requires
            old(self).wf(),
        ensures
            final(self).wf(),
            final(self).users() == old(self).users(),
            others_kept(*old(self), *final(self)),
            sent_one(*old(self), *final(self), OutgoingView::Text(old(self).master, unknown_update_text(), None)),
    {
        proof {
            reveal_strlit("Unknown update kind received");
        }
        let to = self.master;
        self.send(to, String::from_str("Unknown update kind received"), None);
    }

    /// Tells the master that receiving an update failed.
    pub fn update_failed(&mut self)
        requires
            old(self).wf(),
        ensures
            final(self).wf(),
            final(self).users() == old(self).users(),
            others_kept(*old(self), *final(self)),
            sent_one(*old(self), *final(self), OutgoingView::Text(old(self).master, update_failed_text(), None)),
    {
        proof {
            reveal_strlit("Receiving update failed");
        }
        let to = self.master;
        self.send(to, String::from_str("Receiving update failed"), None);
    }

    /// Whether the guesser of the game of user `uid` is one of its players.
    fn guesser_is_known(&self, uid: i64) -> (r: bool)
        requires
            self.wf(),
            self.users().contains_key(uid),
            self.games@.contains_key(self.users()[uid].game_id),
        ensures
            r == guesser_known(*self, uid),
    {
        let game_id = self.players.get(&uid).unwrap().game_id;
        let game = self.games.get(&game_id).unwrap();
        match &game.guesser {
            Ok(g) => position_of(&game.players, *g).is_some(),
            Err(_) => true,
        }
    }

    /// Whether `receive_message` can answer `message` (it cannot when a new
    /// user would need a player id past `i32::MAX`, or when a user is to be
    /// told of a guesser who is no longer in the game).
    pub fn can_receive_message(&self, message: &IncomingMessage) -> (r: bool)
        requires
            self.wf(),
        ensures
            r == message_safe(*self, *message),
    {
        match &message.text {
            None => true,
            Some(_) => {
                let uid = message.from.id;
                if !self.players.contains_key(&uid) {
                    self.next_id < i32::MAX
                } else {
                    match &self.players.get(&uid).unwrap().state {
                        PlayerState::OtherGuessing => {
                            proof {
                                assert(self.users().contains_key(uid));
                                assert(in_game_state(self.users()[uid].state));
                            }
                            self.guesser_is_known(uid)
                        },
                        _ => true,
                    }
                }
            },
        }
    }

    /// Whether `receive_callback` can answer `callback` (it cannot draw from
    /// a local game with no topics, read a guess that is no number, or tell
    /// of a guesser who is no longer in the game).
    pub fn can_receive_callback(&self, callback: &IncomingCallback) -> (r: bool)
        requires
            self.wf(),
        ensures
            r == callback_safe(*self, *callback),
    {
        match &callback.data {
            None => true,
            Some(data) => {
                let uid = callback.from.id;
                if !self.players.contains_key(&uid) {
                    true
                } else {
                    match &self.players.get(&uid).unwrap().state {
                        PlayerState::Local(topics) => !(*data == String::from_str("local draw")) || topics.len() > 0,
                        PlayerState::ThisGuessing => parse_i32(data.as_str()).is_ok(),
                        PlayerState::OtherGuessing => {
                            proof {
                                assert(self.users().contains_key(uid));
                                assert(in_game_state(self.users()[uid].state));
                            }
                            self.guesser_is_known(uid)
                        },
                        _ => true,
                    }
                }
            },
        }
    }
}

} // verus!
