use sotpal::integrations::telegram::utils::keyboards::{self, Button};
use sotpal::integrations::telegram::utils::{replies, Player as BotPlayer, PlayerState};
use sotpal::integrations::telegram::{IncomingCallback, IncomingMessage, Outgoing, TelegramBot, User};
use sotpal::integrations::{run_integration, Integration};

const MASTER: i64 = 999;

fn user(id: i64, name: &str) -> User {
    User { id, first_name: name.to_string() }
}

fn text(bot: &mut TelegramBot, from: i64, name: &str, data: &str) {
    let message = IncomingMessage { from: user(from, name), chat: from, id: 7, text: Some(data.to_string()) };
    assert!(bot.can_receive_message(&message));
    bot.receive_message(message);
}

fn press(bot: &mut TelegramBot, from: i64, name: &str, data: &str) {
    let callback = IncomingCallback { from: user(from, name), data: Some(data.to_string()) };
    assert!(bot.can_receive_callback(&callback));
    bot.receive_callback(callback);
}

/// The texts sent since the last call, as (receiver, text, button rows).
fn drain(bot: &mut TelegramBot) -> Vec<(i64, String, Option<usize>)> {
    bot.outbox
        .drain(..)
        .map(|o| match o {
            Outgoing::Text { to, text, keyboard } => (to, text, keyboard.map(|k| k.rows.len())),
            Outgoing::Delete { chat, message } => (chat, format!("delete {}", message), None),
        })
        .collect()
}

fn state(bot: &TelegramBot, uid: i64) -> &PlayerState {
    &bot.players.get(&uid).unwrap().state
}

#[test]
fn the_program_runs_the_bot() {
    assert_eq!(run_integration(), Integration::Telegram);
}

#[test]
fn first_message_registers_and_greets() {
    let mut bot = TelegramBot::new(MASTER);
    text(&mut bot, 5, "Ann", "hello");
    let sent = drain(&mut bot);
    assert_eq!(sent, vec![(5, replies::greeting(), Some(2))]);
    assert!(sent[0].1.starts_with("Hello and welcome to\nSome of These People are Lying!\n\n"));
    assert_eq!(bot.next_id, 1);
    assert_eq!(bot.players.get(&5).unwrap().id, 0);
    assert!(matches!(state(&bot, 5), PlayerState::Greeting));
    text(&mut bot, 6, "Bob", "hi");
    assert_eq!(bot.players.get(&6).unwrap().id, 1);
    text(&mut bot, 5, "Ann", "again");
    assert_eq!(drain(&mut bot), vec![(6, replies::greeting(), Some(2)), (5, replies::greeting(), Some(2))]);
}

#[test]
fn non_text_message_is_refused() {
    let mut bot = TelegramBot::new(MASTER);
    bot.receive_message(IncomingMessage { from: user(5, "Ann"), chat: 5, id: 1, text: None });
    assert_eq!(drain(&mut bot), vec![(5, "Error::General: Unknown message kind received".to_string(), None)]);
    assert!(bot.players.is_empty());
}

#[test]
fn local_game_collects_and_draws() {
    let mut bot = TelegramBot::new(MASTER);
    text(&mut bot, 5, "Ann", "hello");
    press(&mut bot, 5, "Ann", "local");
    assert_eq!(drain(&mut bot)[1], (5, "This is a local game\n\nYou have 0 topics\n".to_string(), Some(2)));
    let empty = IncomingCallback { from: user(5, "Ann"), data: Some("local draw".to_string()) };
    assert!(!bot.can_receive_callback(&empty));
    text(&mut bot, 5, "Ann", "Rust");
    assert_eq!(
        drain(&mut bot),
        vec![(5, "delete 7".to_string(), None), (5, "This is a local game\n\nYou have 1 topics\n".to_string(), Some(2))]
    );
    press(&mut bot, 5, "Ann", "local draw");
    assert_eq!(
        drain(&mut bot),
        vec![(5, "The chosen topic is:\nRust\n\nYou still have 0 other topics.".to_string(), Some(2))]
    );
    match state(&bot, 5) {
        PlayerState::Local(topics) => assert!(topics.is_empty()),
        _ => panic!("not local"),
    }
    press(&mut bot, 5, "Ann", "nonsense");
    assert_eq!(drain(&mut bot), vec![(5, "Error::General: Unexpected callback received".to_string(), None)]);
    press(&mut bot, 5, "Ann", "local leave");
    assert_eq!(drain(&mut bot), vec![(5, replies::greeting(), Some(2))]);
    assert!(matches!(state(&bot, 5), PlayerState::Greeting));
}

fn created_game(bot: &mut TelegramBot) -> i32 {
    text(bot, 1, "Ann", "hello");
    press(bot, 1, "Ann", "create");
    let game_id = bot.players.get(&1).unwrap().game_id;
    assert!((10000000..99999999).contains(&game_id));
    let sent = drain(bot);
    assert_eq!(
        sent[1],
        (1, format!("The game is on!\nHere's the game id: {}\n\nPoints : Names : Topics\n0 : Ann : 0\n", game_id), Some(2))
    );
    game_id
}

#[test]
fn create_and_join() {
    let mut bot = TelegramBot::new(MASTER);
    let game_id = created_game(&mut bot);
    // Creating does not move the creator out of the greeting.
    assert!(matches!(state(&bot, 1), PlayerState::Greeting));
    assert_eq!(bot.games.get(&game_id).unwrap().players.len(), 1);

    text(&mut bot, 2, "Bob", "hello");
    press(&mut bot, 2, "Bob", "join");
    assert_eq!(
        drain(&mut bot)[1],
        (2, "Please send the game id to join\n(Send any number to go back)".to_string(), None)
    );
    text(&mut bot, 2, "Bob", "abc");
    assert_eq!(drain(&mut bot), vec![(2, "Error::General: invalid digit found in string".to_string(), None)]);
    text(&mut bot, 2, "Bob", "12");
    assert_eq!(
        drain(&mut bot),
        vec![(2, "Joining failed, wrong game id?".to_string(), None), (2, replies::greeting(), Some(2))]
    );
    assert!(matches!(state(&bot, 2), PlayerState::Greeting));
    press(&mut bot, 2, "Bob", "join");
    drain(&mut bot);
    text(&mut bot, 2, "Bob", &game_id.to_string());
    assert_eq!(
        drain(&mut bot),
        vec![(
            2,
            format!("The game is on!\nHere's the game id: {}\n\nPoints : Names : Topics\n0 : Ann : 0\n0 : Bob : 0\n", game_id),
            Some(2)
        )]
    );
    assert!(matches!(state(&bot, 2), PlayerState::Playing));
    assert_eq!(bot.players.get(&2).unwrap().game_id, game_id);

    text(&mut bot, 2, "Bob", "Topic B");
    let sent = drain(&mut bot);
    assert!(sent[0].1.ends_with("0 : Bob : 1\n"));
    text(&mut bot, 2, "Bob", "");
    assert_eq!(drain(&mut bot), vec![(2, "Error::General: Tried to add empty topic".to_string(), None)]);

    press(&mut bot, 2, "Bob", "playing leave");
    assert_eq!(drain(&mut bot), vec![(2, replies::greeting(), Some(2))]);
    assert_eq!(bot.games.get(&game_id).unwrap().players.len(), 1);
}

fn joined(bot: &mut TelegramBot, uid: i64, name: &str, game_id: i32, topic: &str) {
    text(bot, uid, name, "hello");
    press(bot, uid, name, "join");
    text(bot, uid, name, &game_id.to_string());
    text(bot, uid, name, topic);
    drain(bot);
}

#[test]
fn a_full_round() {
    let mut bot = TelegramBot::new(MASTER);
    let game_id = created_game(&mut bot);
    joined(&mut bot, 2, "Bob", game_id, "tb");
    joined(&mut bot, 3, "Cid", game_id, "tc");

    // Ann, who created the game, has no topic yet.
    press(&mut bot, 2, "Bob", "guess");
    assert_eq!(drain(&mut bot), vec![(2, "Error::General: Player Ann has 0 topics".to_string(), None)]);

    bot.players.get_mut(&1).unwrap().state = PlayerState::Playing;
    text(&mut bot, 1, "Ann", "ta");
    drain(&mut bot);

    press(&mut bot, 2, "Bob", "guess");
    let sent = drain(&mut bot);
    assert_eq!(sent.len(), 3);
    let game = bot.games.get(&game_id).unwrap();
    let topic = game.topic.clone().unwrap();
    assert!(topic == "ta" || topic == "tc");
    assert_eq!(game.guesser, Ok(1));
    let reader = game.reader.clone().unwrap();
    let to_guesser: Vec<_> = sent.iter().filter(|m| m.0 == 2).collect();
    assert_eq!(to_guesser.len(), 1);
    assert_eq!(to_guesser[0].1, format!("The game is on!\nTopic: {}\nGuess who's topic this is", topic));
    assert_eq!(to_guesser[0].2, Some(3));
    for uid in [1i64, 3] {
        assert!(sent.contains(&(uid, format!("Bob is guessing, who's lying about:\n{}", topic), None)));
        assert!(matches!(state(&bot, uid), PlayerState::OtherGuessing));
    }
    assert!(matches!(state(&bot, 2), PlayerState::ThisGuessing));

    text(&mut bot, 3, "Cid", "who?");
    assert_eq!(drain(&mut bot), vec![(3, format!("Bob is guessing, who's lying about:\n{}", topic), None)]);
    press(&mut bot, 3, "Cid", "anything");
    assert_eq!(drain(&mut bot), vec![(3, format!("Bob is guessing, who's lying about:\n{}", topic), None)]);
    text(&mut bot, 2, "Bob", "again?");
    assert_eq!(
        drain(&mut bot),
        vec![(2, format!("The game is on!\nTopic: {}\nGuess who's topic this is", topic), Some(3))]
    );

    let not_a_number = IncomingCallback { from: user(2, "Bob"), data: Some("guess".to_string()) };
    assert!(!bot.can_receive_callback(&not_a_number));

    // Bob names the reader: both get a point.
    press(&mut bot, 2, "Bob", &reader.to_string());
    let sent = drain(&mut bot);
    assert_eq!(sent.len(), 3);
    let game = bot.games.get(&game_id).unwrap();
    let points: Vec<i32> = (0..3).map(|i| game.players[i].points).collect();
    let reader_place = game.players.get_index_of(&reader).unwrap();
    for (i, p) in points.iter().enumerate() {
        let expected = if i == 1 || i == reader_place { 1 } else { 0 };
        assert_eq!(*p, expected);
    }
    for uid in [1i64, 2, 3] {
        assert!(matches!(state(&bot, uid), PlayerState::Playing));
        assert!(sent.iter().any(|m| m.0 == uid && m.1 == replies::playing(game, game_id) && m.2 == Some(2)));
    }
}

#[test]
fn master_hears_of_bad_updates() {
    let mut bot = TelegramBot::new(MASTER);
    bot.unknown_update();
    bot.update_failed();
    assert_eq!(
        drain(&mut bot),
        vec![
            (MASTER, "Unknown update kind received".to_string(), None),
            (MASTER, "Receiving update failed".to_string(), None)
        ]
    );
}

#[test]
fn empty_callback_and_unknown_user() {
    let mut bot = TelegramBot::new(MASTER);
    bot.receive_callback(IncomingCallback { from: user(4, "Dan"), data: None });
    press(&mut bot, 4, "Dan", "create");
    assert_eq!(
        drain(&mut bot),
        vec![
            (4, "Error::General: Empty callback received".to_string(), None),
            (4, "Error::General: Unexpected callback received".to_string(), None)
        ]
    );
}

#[test]
fn keyboards_and_replies() {
    let k = keyboards::greeting();
    assert_eq!(k.rows.len(), 2);
    match &k.rows[0][1] {
        Button::Callback { text, data } => {
            assert_eq!(text, "Create Game");
            assert_eq!(data, "create");
        }
        _ => panic!("wrong button"),
    }
    match &keyboards::local().rows[0][0] {
        Button::Url { url, .. } => assert_eq!(url, "https://en.wikipedia.org/wiki/Special:Random"),
        _ => panic!("wrong button"),
    }
    let mut game = sotpal::sotpal::Sotpal::new();
    assert!(game.add_player(-3, "Zed".to_string()).is_ok());
    let k = keyboards::guessing(&game);
    match &k.rows[0][0] {
        Button::Callback { text, data } => {
            assert_eq!(text, "Zed");
            assert_eq!(data, "-3");
        }
        _ => panic!("wrong button"),
    }
    assert_eq!(replies::local_draw("T".to_string(), 2), "The chosen topic is:\nT\n\nYou still have 2 other topics.");
    assert_eq!(replies::guessed_player(), "Guesser believed you were saying the truth\nYou get a point!");
    assert_eq!(replies::other_guessing("N".to_string(), "T".to_string()), "N is guessing, who's lying about:\nT");
    let p = BotPlayer::new(4);
    assert_eq!((p.id, p.game_id), (4, 0));
}
