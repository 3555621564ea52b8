use sotpal::sotpal::player::Player;
use sotpal::utils::Error;

#[test]
fn test_add_topic() {
    let player_name = "Test Name".to_string();
    let mut player = Player::new(player_name.clone());
    assert_eq!(player.name, player_name);
    assert_eq!(player.points, 0);
    assert_eq!(player.topics.len(), 0);

    let topic = "test topic".to_string();
    assert!(player.add_topic(topic.clone()).is_ok());
    assert_eq!(player.topics.len(), 1);
    assert_eq!(player.topics[0], topic);
    assert!(player.add_topic("".to_string()).is_err());
    assert_eq!(player.topics.len(), 1);
}

#[test]
fn player_test_draw_topic() {
    let player_name = "Test Name".to_string();
    let mut player = Player::new(player_name.clone());

    let topic = "test topic".to_string();
    assert!(player.add_topic(topic.clone()).is_ok());
    if let Ok(t) = player.draw_topic() {
        assert_eq!(t, topic);
    };

    assert!(player.add_topic("test topic".to_string()).is_ok());
    assert!(player.add_topic("test topic 2".to_string()).is_ok());
    assert!(player.add_topic("test topic 3".to_string()).is_ok());
    assert!(player.add_topic("test topic 4".to_string()).is_ok());

    assert_eq!(player.topics.len(), 4);
    assert!(player.draw_topic().is_ok());
    assert_eq!(player.topics.len(), 3);
    assert!(player.draw_topic().is_ok());
    assert_eq!(player.topics.len(), 2);
    assert!(player.draw_topic().is_ok());
    assert_eq!(player.topics.len(), 1);
    assert!(player.draw_topic().is_ok());
    assert_eq!(player.topics.len(), 0);
    assert!(player.draw_topic().is_err());
}

#[test]
fn player_errors_and_draw_at() {
    let mut player = Player::new("P".to_string());
    assert_eq!(player.add_topic("".to_string()), Err(Error::General("Tried to add empty topic".to_string())));
    assert_eq!(player.draw_topic(), Err(Error::General("No topics to get".to_string())));
    assert_eq!(player.draw_topic_at(0), Err(Error::General("No topics to get".to_string())));
    assert!(!player.is_ready());
    assert!(player.add_topic("x".to_string()).is_ok());
    assert!(player.add_topic("y".to_string()).is_ok());
    assert!(player.add_topic("z".to_string()).is_ok());
    assert!(player.is_ready());
    assert_eq!(player.draw_topic_at(1), Ok("y".to_string()));
    assert_eq!(player.topics, vec!["x".to_string(), "z".to_string()]);
}

#[test]
fn draw_last_after_add_restores() {
    let mut player = Player::new("P".to_string());
    assert!(player.add_topic("x".to_string()).is_ok());
    assert!(player.add_topic("new".to_string()).is_ok());
    assert_eq!(player.draw_topic_at(1), Ok("new".to_string()));
    assert_eq!(player.topics, vec!["x".to_string()]);
}

#[test]
fn print_formats_numbers() {
    let mut player = Player::new("Neg".to_string());
    player.points = -120;
    assert_eq!(player.print(), "Neg has -120 points and 0 topics");
    player.points = i32::MIN;
    assert_eq!(player.print(), "Neg has -2147483648 points and 0 topics");
    player.points = 1007;
    assert!(player.add_topic("t".to_string()).is_ok());
    assert_eq!(player.print(), "Neg has 1007 points and 1 topics");
}
