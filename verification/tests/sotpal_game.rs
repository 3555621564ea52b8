use sotpal::sotpal::Sotpal;
use sotpal::utils::Error;

#[test]
fn test_add_player_topic() {
    let mut game = Sotpal::new();
    let player1_id = 0;
    assert!(game.add_player(player1_id, "TestName".to_string()).is_ok());
    assert!(game.add_player(player1_id, "TestName2".to_string()).is_err());
    assert_eq!(1, game.players.len());

    let test_topic = "test topic".to_string();
    assert!(game.add_topic(player1_id, test_topic.clone()).is_ok());
    assert!(game.add_topic(player1_id + 1, test_topic).is_err());
}

#[test]
fn sotpal_test_draw_topic() {
    let mut game = Sotpal::new();
    let player1_id = 0;
    assert!(game.add_player(player1_id, "TestName".to_string()).is_ok());
    let test_topic = "test topic".to_string();
    assert!(game.add_topic(player1_id, test_topic.clone()).is_ok());
    assert!(game.draw_topic(-1).is_err());
    assert!(game.draw_topic(player1_id).is_err());

    let player2_id = 1;
    assert!(game.add_player(player2_id, "TestName 2".to_string()).is_ok());
    let test_topic2 = "test topic 2".to_string();
    assert!(game.add_topic(player2_id, test_topic2.clone()).is_ok());

    let player3_id = 3;
    assert!(game.add_player(player3_id, "TestName 3".to_string()).is_ok());
    let test_topic3 = "test topic 3".to_string();
    assert!(game.add_topic(player3_id, test_topic3.clone()).is_ok());

    assert!(game.ready().is_ok());
    assert!(game.draw_topic(-1).is_err());
    assert!(game.draw_topic(player2_id).is_ok());

    assert!(game.add_topic(player1_id, "test topic 1".to_string()).is_ok());
    assert!(game.add_topic(player3_id, "test topic 3".to_string()).is_ok());
    assert!(game.draw_topic(player1_id).is_ok());
}

fn message(r: Result<(), Error>) -> String {
    match r {
        Ok(()) => "ok".to_string(),
        Err(Error::General(s)) => s,
    }
}

fn three_ready_players() -> Sotpal {
    let mut game = Sotpal::new();
    assert!(game.add_player(10, "Ann".to_string()).is_ok());
    assert!(game.add_player(20, "Bob".to_string()).is_ok());
    assert!(game.add_player(30, "Cid".to_string()).is_ok());
    assert!(game.add_topic(10, "a1".to_string()).is_ok());
    assert!(game.add_topic(20, "b1".to_string()).is_ok());
    assert!(game.add_topic(20, "b2".to_string()).is_ok());
    assert!(game.add_topic(30, "c1".to_string()).is_ok());
    game
}

#[test]
fn new_game_has_no_round() {
    let game = Sotpal::new();
    assert_eq!(game.players.len(), 0);
    assert_eq!(game.topic, Err(Error::General("Topic requested, but none set".to_string())));
    assert_eq!(game.guesser, Err(Error::General("Guesser requested, but none set".to_string())));
    assert_eq!(game.reader, Err(Error::General("Reader requested, but none set".to_string())));
}

#[test]
fn add_player_errors() {
    let mut game = Sotpal::new();
    assert_eq!(message(game.add_player(1, "".to_string())), "Tried to create a player with empty name");
    assert_eq!(game.players.len(), 0);
    assert!(game.add_player(1, "Ann".to_string()).is_ok());
    assert_eq!(message(game.add_player(1, "Bob".to_string())), "Tried to create a player that already exist");
    assert_eq!(game.players.len(), 1);
    assert!(game.is_a_player(1));
    assert!(!game.is_a_player(2));
    assert_eq!(game.players[0].name, "Ann");
}

#[test]
fn remove_player_swaps_last_in() {
    let mut game = Sotpal::new();
    assert!(game.add_player(1, "Ann".to_string()).is_ok());
    assert!(game.add_player(2, "Bob".to_string()).is_ok());
    assert!(game.add_player(3, "Cid".to_string()).is_ok());
    assert_eq!(message(game.remove_player(9)), "Tried to remove a non existent player");
    assert_eq!(game.players.len(), 3);
    assert!(game.remove_player(1).is_ok());
    assert!(!game.is_a_player(1));
    assert_eq!(game.players.len(), 2);
    assert_eq!(game.players[0].name, "Cid");
    assert_eq!(game.players[1].name, "Bob");
}

#[test]
fn remove_after_add_restores_players() {
    let mut game = three_ready_players();
    let before = game.print_players();
    assert!(game.add_player(40, "Dan".to_string()).is_ok());
    assert!(game.remove_player(40).is_ok());
    assert_eq!(game.print_players(), before);
    assert_eq!(game.players.len(), 3);
}

#[test]
fn add_topic_errors() {
    let mut game = Sotpal::new();
    assert!(game.add_player(1, "Ann".to_string()).is_ok());
    assert_eq!(message(game.add_topic(2, "t".to_string())), "Player does not exist");
    assert_eq!(message(game.add_topic(1, "".to_string())), "Tried to add empty topic");
    assert_eq!(game.players[0].topics.len(), 0);
    assert!(game.add_topic(1, "t".to_string()).is_ok());
    assert_eq!(game.players[0].topics, vec!["t".to_string()]);
}

#[test]
fn ready_reasons() {
    let mut game = Sotpal::new();
    assert_eq!(message(game.ready()), "Too few players");
    assert!(game.add_player(1, "Ann".to_string()).is_ok());
    assert!(game.add_player(2, "Bob".to_string()).is_ok());
    assert!(game.add_player(3, "Cid".to_string()).is_ok());
    assert!(game.add_topic(1, "a".to_string()).is_ok());
    assert_eq!(message(game.ready()), "Player Bob has 0 topics");
    assert!(game.add_topic(3, "c".to_string()).is_ok());
    assert_eq!(message(game.ready()), "Player Bob has 0 topics");
    assert!(game.add_topic(2, "b".to_string()).is_ok());
    assert_eq!(message(game.ready()), "ok");
}

#[test]
fn draw_topic_errors_leave_round() {
    let mut game = Sotpal::new();
    assert_eq!(game.draw_topic(1), Err(Error::General("Too few players".to_string())));
    assert_eq!(game.topic, Err(Error::General("Topic requested, but none set".to_string())));
    let mut game = three_ready_players();
    assert_eq!(game.draw_topic(99), Err(Error::General("Unknown guesser".to_string())));
    assert_eq!(game.topic, Err(Error::General("Unknown guesser".to_string())));
    assert_eq!(game.guesser, Err(Error::General("Guesser requested, but none set".to_string())));
}

#[test]
fn draw_topic_with_skips_guesser() {
    // Players in order: 10 (a1), 20 (b1, b2), 30 (c1); the guesser is 10.
    let mut game = three_ready_players();
    let r = game.draw_topic_with(10, 0, 1);
    assert_eq!(r, Ok("b2".to_string()));
    assert_eq!(game.topic, Ok("b2".to_string()));
    assert_eq!(game.guesser, Ok(10));
    assert_eq!(game.reader, Ok(20));
    assert_eq!(game.players[1].topics, vec!["b1".to_string()]);
    assert_eq!(game.players[0].topics, vec!["a1".to_string()]);

    // The guesser is 20, in the middle: pick 1 is the third player.
    let mut game = three_ready_players();
    assert_eq!(game.draw_topic_with(20, 1, 0), Ok("c1".to_string()));
    assert_eq!(game.reader, Ok(30));
    assert_eq!(game.players[2].topics.len(), 0);
    assert_eq!(game.players[1].topics.len(), 2);
}

#[test]
fn draw_topic_takes_one_topic_of_another_player() {
    for _ in 0..20 {
        let mut game = three_ready_players();
        let topic = game.draw_topic(20).unwrap();
        assert!(topic == "a1" || topic == "c1");
        assert_eq!(game.topic, Ok(topic.clone()));
        assert_eq!(game.guesser, Ok(20));
        let total: usize = (0..3).map(|i| game.players[i].topics.len()).sum();
        assert_eq!(total, 3);
        assert_eq!(game.players[1].topics.len(), 2);
        if topic == "a1" {
            assert_eq!(game.reader, Ok(10));
        } else {
            assert_eq!(game.reader, Ok(30));
        }
    }
}

#[test]
fn reset_topic_forgets_topic() {
    let mut game = three_ready_players();
    assert!(game.draw_topic(10).is_ok());
    game.reset_topic();
    assert_eq!(game.topic, Err(Error::General("Topic requested, but none set".to_string())));
    assert_eq!(game.guesser, Ok(10));
}

#[test]
fn give_point_counts() {
    let mut game = three_ready_players();
    assert!(game.give_point(20).is_ok());
    assert!(game.give_point(20).is_ok());
    assert_eq!(game.players[1].points, 2);
    assert_eq!(message(game.give_point(5)), "Player does not exist");
    game.players[0].points = i32::MAX;
    assert!(game.give_point(10).is_ok());
    assert_eq!(game.players[0].points, i32::MAX);
}

#[test]
fn print_players_lists_in_order() {
    let mut game = three_ready_players();
    assert!(game.give_point(30).is_ok());
    assert_eq!(
        game.print_players(),
        "Ann has 0 points and 1 topics\nBob has 0 points and 2 topics\nCid has 1 points and 1 topics\n"
    );
    assert_eq!(Sotpal::new().print_players(), "");
}

#[test]
fn error_text() {
    assert_eq!(Error::General("boom".to_string()).to_string(), "Error::General: boom");
}

#[test]
fn add_topic_keeps_game_ready() {
    let mut game = three_ready_players();
    assert!(game.ready().is_ok());
    assert!(game.add_topic(30, "c2".to_string()).is_ok());
    assert!(game.ready().is_ok());
    assert_eq!(game.players[2].topics, vec!["c1".to_string(), "c2".to_string()]);
}

#[test]
fn guess_button_data_reads_back() {
    for id in [0, 7, -3, i32::MAX, i32::MIN] {
        assert_eq!(sotpal::utils::parse_i32(&id.to_string()), Ok(id));
    }
}
