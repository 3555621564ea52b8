pub mod keyboards;
pub mod replies;

use vstd::prelude::*;

verus! {

/// Where a user of the bot stands.
#[derive(Clone)]
pub enum PlayerState {
    /// Choosing between a local game, a new game and joining one.
    Greeting,
    /// Playing alone: the topics collected so far.
    Local(Vec<String>),
    /// In a game, collecting topics.
    Playing,
    /// About to send the id of a game to join.
    Joining,
    /// Guessing whose topic the round's topic is.
    ThisGuessing,
    /// In a round where someone else guesses.
    OtherGuessing,
}

/// Where a user stands, as plain values.
pub enum StateView {
    Greeting,
    Local(Seq<Seq<char>>),
    Playing,
    Joining,
    ThisGuessing,
    OtherGuessing,
}

impl View for PlayerState {
    type V = StateView;

    open spec fn view(&self) -> StateView {
        match self {
            PlayerState::Greeting => StateView::Greeting,
            PlayerState::Local(topics) => StateView::Local(topics@.map_values(|t: String| t@)),
            PlayerState::Playing => StateView::Playing,
            PlayerState::Joining => StateView::Joining,
            PlayerState::ThisGuessing => StateView::ThisGuessing,
            PlayerState::OtherGuessing => StateView::OtherGuessing,
        }
    }
}

/// A user of the bot: the id of the user's player in games, the game the user
/// belongs to, and where the user stands.
#[derive(Clone)]
pub struct Player {
    pub id: i32,
    pub game_id: i32,
    pub state: PlayerState,
}

/// A user of the bot, as plain values.
pub struct PlayerView {
    pub id: i32,
    pub game_id: i32,
    pub state: StateView,
}

impl View for Player {
    type V = PlayerView;

    open spec fn view(&self) -> PlayerView {
        PlayerView { id: self.id, game_id: self.game_id, state: self.state@ }
    }
}

/// A copy of a state, with copies of the topics of a local game.
pub fn copy_state(state: &PlayerState) -> (r: PlayerState)
    ensures
        r@ == state@,
{
    match state {
        PlayerState::Greeting => PlayerState::Greeting,
        PlayerState::Local(topics) => {
            let copy = topics.clone();
            proof {
                assert forall|i: int| 0 <= i < topics@.len() implies copy@[i] == topics@[i] by {
                    assert(cloned::<String>(topics[i], copy[i]));
                }
                assert(copy@.map_values(|t: String| t@) =~= topics@.map_values(|t: String| t@));
            }
            PlayerState::Local(copy)
        },
        PlayerState::Playing => PlayerState::Playing,
        PlayerState::Joining => PlayerState::Joining,
        PlayerState::ThisGuessing => PlayerState::ThisGuessing,
        PlayerState::OtherGuessing => PlayerState::OtherGuessing,
    }
}

impl Player {
    /// A user with the given player id, in no game, at the greeting.
    pub fn new(id: i32) -> (r: Self)
        ensures
            r.id == id,
            r.game_id == 0,
            r.state is Greeting,
    {
        Player { id, game_id: 0, state: PlayerState::Greeting }
    }
}

} // verus!
