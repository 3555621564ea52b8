pub mod player;

use indexmap::IndexMap;
use vstd::prelude::*;

use crate::player_map::{
    has_id, id_at, insert_player, new_player_map, player_at, player_at_mut, player_count,
    player_entries, position_of, remove_player, swap_removed,
};
use crate::random::random_below;
use crate::utils::{copy_result, fails_with, Error, Result};
use player::{empty_topic_message, player_line, Player};

verus! {

/// A game: its players, keyed by id in the order in which they joined, and the
/// current round: its topic, the id of the player who guesses and the id of
/// the player whose topic it is (each an error while no round was drawn).
pub struct Sotpal {
    pub players: IndexMap<i32, Player>,
    pub topic: Result<String>,
    pub guesser: Result<i32>,
    pub reader: Result<i32>,
}

/// Message of the topic before any round and after a reset.
pub open spec fn no_topic_set_message() -> Seq<char> {
    "Topic requested, but none set"@
}

/// Message of the guesser before any round.
pub open spec fn no_guesser_message() -> Seq<char> {
    "Guesser requested, but none set"@
}

/// Message of the reader before any round.
pub open spec fn no_reader_message() -> Seq<char> {
    "Reader requested, but none set"@
}

pub open spec fn empty_name_message() -> Seq<char> {
    "Tried to create a player with empty name"@
}

pub open spec fn duplicate_player_message() -> Seq<char> {
    "Tried to create a player that already exist"@
}

pub open spec fn missing_player_message() -> Seq<char> {
    "Tried to remove a non existent player"@
}

pub open spec fn too_few_players_message() -> Seq<char> {
    "Too few players"@
}

pub open spec fn unknown_player_message() -> Seq<char> {
    "Player does not exist"@
}

pub open spec fn unknown_guesser_message() -> Seq<char> {
    "Unknown guesser"@
}

/// The message for a player who has no topic to offer.
pub open spec fn idle_player_message(name: Seq<char>) -> Seq<char> {
    "Player "@ + name + " has 0 topics"@
}

/// No two entries share an id.
pub open spec fn ids_distinct(s: Seq<(i32, Player)>) -> bool {
    forall|i: int, j: int| 0 <= i < s.len() && 0 <= j < s.len() && i != j ==> s[i].0 != s[j].0
}

/// The place of the entry with id `id` (meaningful where `has_id(s, id)`).
pub open spec fn position(s: Seq<(i32, Player)>, id: i32) -> int {
    choose|i: int| 0 <= i < s.len() && s[i].0 == id
}

/// The first of the first `n` entries whose player has no topic, if any.
pub open spec fn first_idle(s: Seq<(i32, Player)>, n: nat) -> Option<int>
    decreases n,
{
    if n == 0 {
        None
    } else {
        match first_idle(s, (n - 1) as nat) {
            Some(i) => Some(i),
            None => if s[n - 1].1.topics@.len() == 0 {
                Some(n - 1)
            } else {
                None
            },
        }
    }
}

/// Why a game with these entries cannot start, if it cannot: fewer than three
/// players, or (the first) player with no topic.
pub open spec fn not_ready_reason(s: Seq<(i32, Player)>) -> Option<Seq<char>> {
    if s.len() < 3 {
        Some(too_few_players_message())
    } else {
        match first_idle(s, s.len()) {
            Some(i) => Some(idle_player_message(s[i].1.name@)),
            None => None,
        }
    }
}

/// The place of the player picked by `pick` among all players but the one at
/// `skipped`: the places before `skipped` keep their number, those after it
/// are counted one lower.
pub open spec fn picked(pick: int, skipped: int) -> int {
    if pick < skipped {
        pick
    } else {
        pick + 1
    }
}

/// `after` is `before` with a new player appended last: id `id`, name `name`,
/// no points and no topics.
pub open spec fn player_appended(
    before: Seq<(i32, Player)>,
    after: Seq<(i32, Player)>,
    id: i32,
    name: String,
) -> bool {
    &&& after.len() == before.len() + 1
    &&& after.drop_last() == before
    &&& after.last().0 == id
    &&& after.last().1.name == name
    &&& after.last().1.points == 0
    &&& after.last().1.topics@.len() == 0
}

/// The number of topics that the players hold together.
pub open spec fn total_topics(s: Seq<(i32, Player)>) -> int
    decreases s.len(),
{
    if s.len() == 0 {
        0
    } else {
        total_topics(s.drop_last()) + s.last().1.topics@.len()
    }
}

/// `after` is `before` with topic `k` taken from the player at `j`.
pub open spec fn topic_taken(
    before: Seq<(i32, Player)>,
    after: Seq<(i32, Player)>,
    j: int,
    k: int,
) -> bool {
    &&& after.len() == before.len()
    &&& forall|i: int| 0 <= i < before.len() && i != j ==> after[i] == before[i]
    &&& after[j].0 == before[j].0
    &&& after[j].1.name == before[j].1.name
    &&& after[j].1.points == before[j].1.points
    &&& after[j].1.topics@ == before[j].1.topics@.remove(k)
}

/// `after` is `before` with `topic` appended to the topics of the player at `j`.
pub open spec fn topic_appended(
    before: Seq<(i32, Player)>,
    after: Seq<(i32, Player)>,
    j: int,
    topic: String,
) -> bool {
    &&& after.len() == before.len()
    &&& forall|i: int| 0 <= i < before.len() && i != j ==> after[i] == before[i]
    &&& after[j].0 == before[j].0
    &&& after[j].1.name == before[j].1.name
    &&& after[j].1.points == before[j].1.points
    &&& after[j].1.topics@ == before[j].1.topics@.push(topic)
}

/// `after` is `before` with one more point for the player at `j`, unless
/// that player's score is already `i32::MAX`.
pub open spec fn point_given(before: Seq<(i32, Player)>, after: Seq<(i32, Player)>, j: int) -> bool {
    &&& after.len() == before.len()
    &&& forall|i: int| 0 <= i < before.len() && i != j ==> after[i] == before[i]
    &&& after[j].0 == before[j].0
    &&& after[j].1.name == before[j].1.name
    &&& after[j].1.topics == before[j].1.topics
    &&& after[j].1.points == if before[j].1.points < i32::MAX {
        before[j].1.points + 1
    } else {
        before[j].1.points as int
    }
}

/// What `add_player` leaves: the round kept; an empty name or a taken id
/// refused with the players unchanged; otherwise the player appended.
pub open spec fn add_player_outcome(before: Sotpal, after: Sotpal, id: i32, name: String, r: Result<()>) -> bool {
    &&& after.round_kept(before)
    &&& if name@.len() == 0 {
        fails_with(r, empty_name_message()) && after.entries() == before.entries()
    } else if has_id(before.entries(), id) {
        fails_with(r, duplicate_player_message()) && after.entries() == before.entries()
    } else {
        r is Ok && player_appended(before.entries(), after.entries(), id, name)
    }
}

/// What `remove_player` leaves: the round kept; an unknown id refused with
/// the players unchanged; otherwise the player swap-removed.
pub open spec fn remove_player_outcome(before: Sotpal, after: Sotpal, id: i32, r: Result<()>) -> bool {
    &&& after.round_kept(before)
    &&& if !has_id(before.entries(), id) {
        fails_with(r, missing_player_message()) && after.entries() == before.entries()
    } else {
        r is Ok && after.entries() == swap_removed(before.entries(), position(before.entries(), id))
    }
}

/// What `add_topic` leaves: the round kept; an unknown player or an empty
/// topic refused with the players unchanged; otherwise the topic appended to
/// that player's topics.
pub open spec fn add_topic_outcome(before: Sotpal, after: Sotpal, player_id: i32, topic: String, r: Result<()>) -> bool {
    &&& after.round_kept(before)
    &&& if !has_id(before.entries(), player_id) {
        fails_with(r, unknown_player_message()) && after.entries() == before.entries()
    } else if topic@.len() == 0 {
        fails_with(r, empty_topic_message()) && after.entries() == before.entries()
    } else {
        r is Ok && topic_appended(
            before.entries(),
            after.entries(),
            position(before.entries(), player_id),
            topic,
        )
    }
}

/// What a round with guesser `guesser_id` leaves, whatever was drawn: a game
/// that cannot start is left as it was and the reason returned; an unknown
/// guesser is returned as the failure and recorded as the topic; otherwise
/// some topic `k` of some player `j` other than the guesser is taken from
/// that player, returned and recorded with the guesser and `j`'s id.
pub open spec fn draw_topic_outcome(before: Sotpal, after: Sotpal, guesser_id: i32, r: Result<String>) -> bool {
    match not_ready_reason(before.entries()) {
        Some(m) => fails_with(r, m) && after == before,
        None => if !has_id(before.entries(), guesser_id) {
            &&& fails_with(r, unknown_guesser_message())
            &&& after.topic == r
            &&& after.entries() == before.entries()
            &&& after.guesser == before.guesser
            &&& after.reader == before.reader
        } else {
            exists|j: int, k: int| #[trigger] drawn_from(before, after, guesser_id, r, j, k)
        },
    }
}

/// The round took topic `k` of the player at `j`, who is not the guesser.
pub open spec fn drawn_from(before: Sotpal, after: Sotpal, guesser_id: i32, r: Result<String>, j: int, k: int) -> bool {
    &&& 0 <= j < before.entries().len()
    &&& j != position(before.entries(), guesser_id)
    &&& 0 <= k < before.entries()[j].1.topics@.len()
    &&& r == Ok::<String, Error>(before.entries()[j].1.topics@[k])
    &&& after.topic == r
    &&& after.guesser == Ok::<i32, Error>(guesser_id)
    &&& after.reader == Ok::<i32, Error>(before.entries()[j].0)
    &&& topic_taken(before.entries(), after.entries(), j, k)
}

/// What `give_point` leaves: the round kept; an unknown player refused with
/// the players unchanged; otherwise one point more for that player.
pub open spec fn give_point_outcome(before: Sotpal, after: Sotpal, id: i32, r: Result<()>) -> bool {
    &&& after.round_kept(before)
    &&& if !has_id(before.entries(), id) {
        fails_with(r, unknown_player_message()) && after.entries() == before.entries()
    } else {
        r is Ok && point_given(before.entries(), after.entries(), position(before.entries(), id))
    }
}

/// The listing of the players: one line per player, in order, each ending in
/// a newline.
pub open spec fn players_text(s: Seq<(i32, Player)>) -> Seq<char>
    decreases s.len(),
{
    if s.len() == 0 {
        Seq::empty()
    } else {
        let p = s.last().1;
        players_text(s.drop_last()) + player_line(p.name@, p.points as int, p.topics@.len() as int)
            + "\n"@
    }
}

impl Sotpal {
    /// The players in order, as (id, player) pairs.
    pub open spec fn entries(&self) -> Seq<(i32, Player)> {
        player_entries(self.players)
    }

    /// The topic, guesser and reader are those of `other`.
    pub open spec fn round_kept(&self, other: Self) -> bool {
        &&& self.topic == other.topic
        &&& self.guesser == other.guesser
        &&& self.reader == other.reader
    }

    /// A game is well formed when no two players share an id.
    pub open spec fn wf(&self) -> bool {
        ids_distinct(self.entries())
    }

    /// An empty game with no topic drawn.
    pub fn new() -> (r: Self)
        ensures
            r.wf(),
            r.entries() == Seq::<(i32, Player)>::empty(),
            fails_with(r.topic, no_topic_set_message()),
            fails_with(r.guesser, no_guesser_message()),
            fails_with(r.reader, no_reader_message()),
    {
        proof {
            reveal_strlit("Topic requested, but none set");
            reveal_strlit("Guesser requested, but none set");
            reveal_strlit("Reader requested, but none set");
        }
        Sotpal {
            players: new_player_map(),
            topic: Err(Error::General(String::from_str("Topic requested, but none set"))),
            guesser: Err(Error::General(String::from_str("Guesser requested, but none set"))),
            reader: Err(Error::General(String::from_str("Reader requested, but none set"))),
        }
    }

    /// Whether some player has the id `id`.
    pub fn is_a_player(&self, id: i32) -> (r: bool)
        ensures
            r == has_id(self.entries(), id),
    {
        position_of(&self.players, id).is_some()
    }

    /// Adds a player with the given id and name at the end of the players;
    /// refuses an empty name and an id already taken.
    pub fn add_player(&mut self, id: i32, name: String) -> (r: Result<()>)
        requires
            old(self).wf(),
        ensures
            final(self).wf(),
            add_player_outcome(*old(self), *final(self), id, name, r),
    {
        proof {
            reveal_strlit("");
            reveal_strlit("Tried to create a player with empty name");
            reveal_strlit("Tried to create a player that already exist");
            if name@.len() == 0 {
                assert(name@ =~= ""@);
            }
        }
        if name == String::from_str("") {
            Err(Error::General(String::from_str("Tried to create a player with empty name")))
        } else if position_of(&self.players, id).is_some() {
            Err(Error::General(String::from_str("Tried to create a player that already exist")))
        } else {
            let player = Player::new(name);
            let _ = insert_player(&mut self.players, id, player);
            proof {
                let s = self.entries();
                assert(s.drop_last() =~= old(self).entries());
                assert forall|i: int, j: int|
                    0 <= i < s.len() && 0 <= j < s.len() && i != j implies s[i].0 != s[j].0 by {
                    if i == s.len() - 1 {
                        assert(old(self).entries()[j].0 != id);
                    } else if j == s.len() - 1 {
                        assert(old(self).entries()[i].0 != id);
                    }
                }
            }
            Ok(())
        }
    }

    /// Removes the player with id `id`: the last player takes its place.
    /// Refuses an id that no player has.
    pub fn remove_player(&mut self, id: i32) -> (r: Result<()>)
        requires
            old(self).wf(),
        ensures
            final(self).wf(),
            remove_player_outcome(*old(self), *final(self), id, r),
    {
        proof {
            reveal_strlit("Tried to remove a non existent player");
        }
        if position_of(&self.players, id).is_none() {
            Err(Error::General(String::from_str("Tried to remove a non existent player")))
        } else {
            let _ = remove_player(&mut self.players, id);
            proof {
                let s = old(self).entries();
                let k = choose|i: int| 0 <= i < s.len() && #[trigger] s[i].0 == id
                    && self.entries() == swap_removed(s, i);
                assert(position(s, id) == k);
                let t = self.entries();
                assert forall|i: int, j: int|
                    0 <= i < t.len() && 0 <= j < t.len() && i != j implies t[i].0 != t[j].0 by {
                    let oi = if i == k { s.len() - 1 } else { i };
                    let oj = if j == k { s.len() - 1 } else { j };
                    assert(t[i] == s[oi]);
                    assert(t[j] == s[oj]);
                }
            }
            Ok(())
        }
    }

    /// Checks that the game can start: at least three players, and each with
    /// at least one topic (the first player without one is named).
    pub fn ready(&mut self) -> (r: Result<()>)
        ensures
            *final(self) == *old(self),
            match not_ready_reason(old(self).entries()) {
                None => r is Ok,
                Some(m) => fails_with(r, m),
            },
    {
        proof {
            reveal_strlit("Too few players");
            reveal_strlit("Player ");
            reveal_strlit(" has 0 topics");
        }
        let n = player_count(&self.players);
        if n < 3 {
            return Err(Error::General(String::from_str("Too few players")));
        }
        let mut i: usize = 0;
        while i < n
            invariant
                i <= n,
                n == self.entries().len(),
                n >= 3,
                first_idle(self.entries(), i as nat) is None,
                *self == *old(self),
            decreases n - i,
        {
            let player = player_at(&self.players, i);
            if !player.is_ready() {
                let mut message = String::from_str("Player ");
                message.append(player.name.as_str());
                message.append(" has 0 topics");
                proof {
                    assert(first_idle(self.entries(), (i + 1) as nat) == Some(i as int));
                    lemma_first_idle_stays(self.entries(), (i + 1) as nat, n as nat);
                }
                return Err(Error::General(message));
            }
            i = i + 1;
        }
        Ok(())
    }

    /// Appends a topic to the topics of the player with id `player_id`;
    /// refuses an unknown player and an empty topic.
    pub fn add_topic(&mut self, player_id: i32, topic: String) -> (r: Result<()>)
        requires
            old(self).wf(),
        ensures
            final(self).wf(),
            add_topic_outcome(*old(self), *final(self), player_id, topic, r),
    {
        proof {
            reveal_strlit("Player does not exist");
        }
        match position_of(&self.players, player_id) {
            Some(i) => {
                let player = player_at_mut(&mut self.players, i);
                let r = player.add_topic(topic);
                proof {
                    let s = old(self).entries();
                    assert(position(s, player_id) == i as int);
                    assert(self.entries() =~= s.update(i as int, (s[i as int].0, *player)));
                    if topic@.len() == 0 {
                        assert(*player == s[i as int].1);
                        assert(self.entries() =~= s);
                    }
                    let t = self.entries();
                    assert forall|a: int, b: int|
                        0 <= a < t.len() && 0 <= b < t.len() && a != b implies t[a].0 != t[b].0 by {
                        assert(t[a].0 == s[a].0);
                        assert(t[b].0 == s[b].0);
                    }
                }
                r
            },
            None => Err(Error::General(String::from_str("Player does not exist"))),
        }
    }

    /// A round with the random draws given: `pick` chooses the player among all
    /// players but the guesser (see `picked`), `topic_pick` the topic among
    /// that player's topics, which is removed from them and becomes the
    /// topic of the round. Fails, leaving the game as it was, when the game
    /// is not ready; fails and records the failure as the topic when the
    /// guesser is not a player.
    pub fn draw_topic_with(&mut self, guesser_id: i32, pick: usize, topic_pick: usize) -> (r: Result<String>)
        requires
            old(self).wf(),
            not_ready_reason(old(self).entries()) is None && has_id(old(self).entries(), guesser_id)
                ==> pick + 1 < old(self).entries().len() && topic_pick < old(self).entries()[picked(
                pick as int,
                position(old(self).entries(), guesser_id),
            )].1.topics@.len(),
        ensures
            final(self).wf(),
            match not_ready_reason(old(self).entries()) {
                Some(m) => fails_with(r, m) && *final(self) == *old(self),
                None => if !has_id(old(self).entries(), guesser_id) {
                    fails_with(r, unknown_guesser_message()) && final(self).topic == r
                        && final(self).entries() == old(self).entries()
                        && final(self).guesser == old(self).guesser
                        && final(self).reader == old(self).reader
                } else {
                    let j = picked(pick as int, position(old(self).entries(), guesser_id));
                    &&& r == Ok::<String, Error>(old(self).entries()[j].1.topics@[topic_pick as int])
                    &&& final(self).topic == r
                    &&& final(self).guesser == Ok::<i32, Error>(guesser_id)
                    &&& final(self).reader == Ok::<i32, Error>(old(self).entries()[j].0)
                    &&& topic_taken(old(self).entries(), final(self).entries(), j, topic_pick as int)
                },
            },
    {
        proof {
            reveal_strlit("Unknown guesser");
        }
        match self.ready() {
            Err(e) => {
                return Err(e);
            },
            Ok(_) => {},
        }
        match position_of(&self.players, guesser_id) {
            None => {
                self.topic = Err(Error::General(String::from_str("Unknown guesser")));
            },
            Some(g) => {
                proof {
                    assert(*self == *old(self));
                    assert(old(self).entries()[g as int].0 == guesser_id);
                    assert(has_id(old(self).entries(), guesser_id));
                    assert(not_ready_reason(old(self).entries()) is None);
                    assert(position(old(self).entries(), guesser_id) == g as int);
                    lemma_not_ready_none_means_all_ready(old(self).entries());
                }
                let count = player_count(&self.players);
                let j = if pick < g {
                    pick
                } else {
                    pick + 1
                };
                proof {
                    assert(j < count);
                }
                let reader = match id_at(&self.players, j) {
                    Some(id) => id,
                    None => guesser_id,
                };
                let player = player_at_mut(&mut self.players, j);
                let drawn = player.draw_topic_at(topic_pick);
                self.topic = drawn;
                self.guesser = Ok(guesser_id);
                self.reader = Ok(reader);
                proof {
                    let s = old(self).entries();
                    let t = self.entries();
                    assert forall|a: int, b: int|
                        0 <= a < t.len() && 0 <= b < t.len() && a != b implies t[a].0 != t[b].0 by {
                        assert(t[a].0 == s[a].0);
                        assert(t[b].0 == s[b].0);
                    }
                }
            },
        }
        copy_result(&self.topic)
    }

    /// A round: chooses at random a player other than the guesser, removes
    /// one of that player's topics at random and makes it the topic of the
    /// round. Failures as for `draw_topic_with`.
    pub fn draw_topic(&mut self, guesser_id: i32) -> (r: Result<String>)
        requires
            old(self).wf(),
        ensures
            final(self).wf(),
            draw_topic_outcome(*old(self), *final(self), guesser_id, r),
    {
        let mut pick: usize = 0;
        let mut topic_pick: usize = 0;
        if self.ready().is_ok() {
            match position_of(&self.players, guesser_id) {
                Some(g) => {
                    proof {
                        lemma_not_ready_none_means_all_ready(self.entries());
                        assert(position(self.entries(), guesser_id) == g as int);
                    }
                    let n = player_count(&self.players);
                    pick = random_below(n - 1);
                    let j = if pick < g {
                        pick
                    } else {
                        pick + 1
                    };
                    topic_pick = random_below(player_at(&self.players, j).topics.len());
                },
                None => {},
            }
        }
        let ghost before = *self;
        let r = self.draw_topic_with(guesser_id, pick, topic_pick);
        proof {
            let s = before.entries();
            if not_ready_reason(s) is None && has_id(s, guesser_id) {
                let j = picked(pick as int, position(s, guesser_id));
                assert(drawn_from(before, *self, guesser_id, r, j, topic_pick as int));
            }
        }
        r
    }

    /// Gives one point to the player with id `id` (a score already at
    /// `i32::MAX` stays there); refuses an unknown player.
    pub fn give_point(&mut self, id: i32) -> (r: Result<()>)
        requires
            old(self).wf(),
        ensures
            final(self).wf(),
            give_point_outcome(*old(self), *final(self), id, r),
    {
        proof {
            reveal_strlit("Player does not exist");
        }
        match position_of(&self.players, id) {
            Some(i) => {
                let player = player_at_mut(&mut self.players, i);
                if player.points < i32::MAX {
                    player.points = player.points + 1;
                }
                proof {
                    let s = old(self).entries();
                    assert(position(s, id) == i as int);
                    let t = self.entries();
                    assert forall|a: int, b: int|
                        0 <= a < t.len() && 0 <= b < t.len() && a != b implies t[a].0 != t[b].0 by {
                        assert(t[a].0 == s[a].0);
                        assert(t[b].0 == s[b].0);
                    }
                }
                Ok(())
            },
            None => Err(Error::General(String::from_str("Player does not exist"))),
        }
    }

    /// Forgets the topic of the round.
    pub fn reset_topic(&mut self)
        ensures
            final(self).players == old(self).players,
            final(self).guesser == old(self).guesser,
            final(self).reader == old(self).reader,
            fails_with(final(self).topic, no_topic_set_message()),
    {
        proof {
            reveal_strlit("Topic requested, but none set");
        }
        self.topic = Err(Error::General(String::from_str("Topic requested, but none set")));
    }

    /// One line per player, in order: `<name> has <points> points and <n> topics`.
    pub fn print_players(&self) -> (r: String)
        ensures
            r@ == players_text(self.entries()),
    {
        proof {
            reveal_strlit("");
            reveal_strlit("\n");
        }
        let n = player_count(&self.players);
        let mut text = String::from_str("");
        let mut i: usize = 0;
        proof {
            assert(self.entries().take(0) =~= Seq::<(i32, Player)>::empty());
        }
        while i < n
            invariant
                i <= n,
                n == self.entries().len(),
                text@ == players_text(self.entries().take(i as int)),
            decreases n - i,
        {
            let player = player_at(&self.players, i);
            let line = player.print();
            text.append(line.as_str());
            text.append("\n");
            proof {
                let s = self.entries();
                assert(s.take(i + 1).drop_last() =~= s.take(i as int));
                assert(s.take(i + 1).last() == s[i as int]);
            }
            i = i + 1;
        }
        proof {
            assert(self.entries().take(n as int) =~= self.entries());
        }
        text
    }
}

/// A game can start exactly when it has at least three players and each
/// player is ready (has a topic).
pub proof fn law_ready_iff_all_players_ready(s: Seq<(i32, Player)>)
    ensures
        not_ready_reason(s) is None <==> (s.len() >= 3 && forall|i: int|
            0 <= i < s.len() ==> #[trigger] s[i].1.topics@.len() >= 1),
{
    if not_ready_reason(s) is None {
        lemma_not_ready_none_means_all_ready(s);
    } else if s.len() >= 3 {
        let i = lemma_first_idle_some(s, s.len());
        assert(s[i].1.topics@.len() == 0);
    }
}

/// A player with a non-empty name and an id that no player has always
/// joins the game, last, whatever names the other players have; the players
/// before keep their places.
pub proof fn law_new_player_always_joins(before: Sotpal, after: Sotpal, id: i32, name: String, r: Result<()>)
    requires
        add_player_outcome(before, after, id, name, r),
        name@.len() > 0,
        !has_id(before.entries(), id),
    ensures
        r is Ok,
        after.entries().len() == before.entries().len() + 1,
        forall|k: int| 0 <= k < before.entries().len() ==> #[trigger] after.entries()[k] == before.entries()[k],
        after.entries()[before.entries().len() as int].0 == id,
        after.entries()[before.entries().len() as int].1.name == name,
        after.entries()[before.entries().len() as int].1.points == 0,
        after.entries()[before.entries().len() as int].1.topics@.len() == 0,
{
    assert forall|k: int| 0 <= k < before.entries().len() implies #[trigger] after.entries()[k] == before.entries()[k] by {
        assert(after.entries().drop_last()[k] == after.entries()[k]);
    }
}

/// Removing the player that was just added gives back the players as they
/// were before.
pub proof fn law_remove_undoes_add(
    before: Seq<(i32, Player)>,
    after: Seq<(i32, Player)>,
    id: i32,
    name: String,
)
    requires
        ids_distinct(before),
        !has_id(before, id),
        player_appended(before, after, id, name),
    ensures
        has_id(after, id),
        swap_removed(after, position(after, id)) == before,
{
    let last = after.len() - 1;
    assert(after[last].0 == id);
    let p = position(after, id);
    if p != last {
        assert(after[p] == before[p]);
    }
    assert(p == last);
    assert(swap_removed(after, p) =~= before);
}

/// Adding a player adds its id and keeps every other id, and ids stay
/// distinct.
pub proof fn law_add_player_ids(
    before: Seq<(i32, Player)>,
    after: Seq<(i32, Player)>,
    id: i32,
    name: String,
    other: i32,
)
    requires
        ids_distinct(before),
        !has_id(before, id),
        player_appended(before, after, id, name),
    ensures
        ids_distinct(after),
        has_id(after, id),
        other != id ==> (has_id(after, other) <==> has_id(before, other)),
{
    let last = after.len() - 1;
    assert(after[last].0 == id);
    assert forall|i: int| 0 <= i < before.len() implies #[trigger] after[i] == before[i] by {
        assert(after.drop_last()[i] == after[i]);
    }
    if other != id && has_id(after, other) {
        let k = choose|k: int| 0 <= k < after.len() && #[trigger] after[k].0 == other;
        assert(k != last);
        assert(before[k].0 == other);
    }
    if other != id && has_id(before, other) {
        let k = choose|k: int| 0 <= k < before.len() && #[trigger] before[k].0 == other;
        assert(after[k].0 == other);
    }
    assert forall|i: int, j: int|
        0 <= i < after.len() && 0 <= j < after.len() && i != j implies after[i].0 != after[j].0 by {
        if i == last {
            assert(before[j].0 != id);
        } else if j == last {
            assert(before[i].0 != id);
        }
    }
}

/// Removing a player removes exactly its id: one player fewer, every other
/// id kept, and ids stay distinct.
pub proof fn law_remove_player_ids(s: Seq<(i32, Player)>, id: i32, other: i32)
    requires
        ids_distinct(s),
        has_id(s, id),
    ensures
        swap_removed(s, position(s, id)).len() == s.len() - 1,
        ids_distinct(swap_removed(s, position(s, id))),
        !has_id(swap_removed(s, position(s, id)), id),
        other != id ==> (has_id(swap_removed(s, position(s, id)), other) <==> has_id(s, other)),
{
    let p = position(s, id);
    let t = swap_removed(s, p);
    let last = s.len() - 1;
    assert forall|i: int| 0 <= i < t.len() implies #[trigger] t[i] == s[if i == p { last } else { i }] by {}
    assert forall|i: int, j: int|
        0 <= i < t.len() && 0 <= j < t.len() && i != j implies t[i].0 != t[j].0 by {
        assert(t[i] == s[if i == p { last } else { i }]);
        assert(t[j] == s[if j == p { last } else { j }]);
    }
    if has_id(t, id) {
        let k = choose|k: int| 0 <= k < t.len() && #[trigger] t[k].0 == id;
        assert(t[k] == s[if k == p { last } else { k }]);
    }
    if other != id && has_id(t, other) {
        let k = choose|k: int| 0 <= k < t.len() && #[trigger] t[k].0 == other;
        assert(t[k] == s[if k == p { last } else { k }]);
    }
    if other != id && has_id(s, other) {
        let k = choose|k: int| 0 <= k < s.len() && #[trigger] s[k].0 == other;
        assert(k != p);
        if k == last {
            assert(t[p].0 == other);
        } else {
            assert(t[k].0 == other);
        }
    }
}

/// A round takes exactly one topic out of the game.
pub proof fn law_round_takes_one_topic(
    before: Seq<(i32, Player)>,
    after: Seq<(i32, Player)>,
    j: int,
    k: int,
)
    requires
        0 <= j < before.len(),
        0 <= k < before[j].1.topics@.len(),
        topic_taken(before, after, j, k),
    ensures
        total_topics(after) + 1 == total_topics(before),
    decreases before.len(),
{
    let n = before.len() - 1;
    if j == n {
        assert(after.drop_last() =~= before.drop_last());
    } else {
        let b = before.drop_last();
        let a = after.drop_last();
        assert(topic_taken(b, a, j, k));
        law_round_takes_one_topic(b, a, j, k);
        assert(after.last() == before.last());
    }
}

/// A round in a game that can start, guessed by one of its players, always
/// yields a topic: one taken from another player.
pub proof fn law_ready_round_succeeds(before: Sotpal, after: Sotpal, guesser_id: i32, r: Result<String>)
    requires
        draw_topic_outcome(before, after, guesser_id, r),
        not_ready_reason(before.entries()) is None,
        has_id(before.entries(), guesser_id),
    ensures
        r is Ok,
        after.topic == r,
        after.guesser == Ok::<i32, Error>(guesser_id),
        total_topics(after.entries()) + 1 == total_topics(before.entries()),
{
    let (j, k) = choose|j: int, k: int| #[trigger] drawn_from(before, after, guesser_id, r, j, k);
    law_round_takes_one_topic(before.entries(), after.entries(), j, k);
}

/// The topic a round yields is the one taken out: it came from a player
/// other than the guesser, whose topics left, with it added back, are that
/// player's topics before; every other player is unchanged.
pub proof fn law_round_takes_shown_topic(before: Sotpal, after: Sotpal, guesser_id: i32, topic: String)
    requires
        before.wf(),
        draw_topic_outcome(before, after, guesser_id, Ok::<String, Error>(topic)),
    ensures
        exists|j: int|
            0 <= j < before.entries().len() && before.entries()[j].0 != guesser_id
                && after.entries()[j].1.topics@.to_multiset().insert(topic)
                == #[trigger] before.entries()[j].1.topics@.to_multiset() && after.entries().len()
                == before.entries().len() && forall|i: int|
                0 <= i < before.entries().len() && i != j ==> after.entries()[i] == before.entries()[i],
{
    broadcast use vstd::multiset::group_multiset_axioms;

    let s = before.entries();
    let (j, k) = choose|j: int, k: int| #[trigger] drawn_from(before, after, guesser_id, Ok::<String, Error>(topic), j, k);
    let p = position(s, guesser_id);
    assert(s[p].0 == guesser_id);
    assert(s[j].0 != guesser_id);
    let old_topics = s[j].1.topics@;
    vstd::seq_lib::to_multiset_remove(old_topics, k);
    vstd::seq_lib::to_multiset_contains(old_topics, topic);
    assert(old_topics.contains(topic));
    assert(after.entries()[j].1.topics@.to_multiset().insert(topic) =~= old_topics.to_multiset());
}

/// Adding a topic puts it last among the topics of the player with that id
/// and nowhere else: one topic more in the game, every other player
/// unchanged.
pub proof fn law_add_topic_lands_with_player(before: Sotpal, after: Sotpal, player_id: i32, topic: String, r: Result<()>)
    requires
        before.wf(),
        add_topic_outcome(before, after, player_id, topic, r),
        r is Ok,
    ensures
        has_id(before.entries(), player_id),
        after.entries().len() == before.entries().len(),
        total_topics(after.entries()) == total_topics(before.entries()) + 1,
        forall|i: int|
            0 <= i < before.entries().len() ==> {
                &&& (#[trigger] after.entries()[i]).0 == before.entries()[i].0
                &&& before.entries()[i].0 == player_id ==> after.entries()[i].1.topics@.last() == topic
                    && after.entries()[i].1.topics@.drop_last() == before.entries()[i].1.topics@
                &&& before.entries()[i].0 != player_id ==> after.entries()[i] == before.entries()[i]
            },
{
    let s = before.entries();
    let t = after.entries();
    let p = position(s, player_id);
    assert(s[p].0 == player_id);
    assert forall|i: int| 0 <= i < s.len() implies {
        &&& (#[trigger] t[i]).0 == s[i].0
        &&& s[i].0 == player_id ==> t[i].1.topics@.last() == topic && t[i].1.topics@.drop_last() == s[i].1.topics@
        &&& s[i].0 != player_id ==> t[i] == s[i]
    } by {
        if i == p {
            assert(t[i].1.topics@.drop_last() =~= s[i].1.topics@);
        }
    }
    lemma_total_topics_one_more(s, t, p);
}

proof fn lemma_total_topics_one_more(s: Seq<(i32, Player)>, t: Seq<(i32, Player)>, p: int)
    requires
        0 <= p < s.len(),
        t.len() == s.len(),
        forall|i: int| 0 <= i < s.len() && i != p ==> t[i] == s[i],
        t[p].1.topics@.len() == s[p].1.topics@.len() + 1,
    ensures
        total_topics(t) == total_topics(s) + 1,
    decreases s.len(),
{
    if p == s.len() - 1 {
        assert(t.drop_last() =~= s.drop_last());
    } else {
        lemma_total_topics_one_more(s.drop_last(), t.drop_last(), p);
        assert(t.last() == s.last());
    }
}

/// Giving a point raises the score of the player with that id by one
/// (short of `i32::MAX`) and changes nothing else.
pub proof fn law_point_goes_to_player(before: Sotpal, after: Sotpal, id: i32, r: Result<()>)
    requires
        before.wf(),
        give_point_outcome(before, after, id, r),
    ensures
        after.entries().len() == before.entries().len(),
        forall|i: int|
            0 <= i < before.entries().len() ==> {
                &&& (#[trigger] after.entries()[i]).0 == before.entries()[i].0
                &&& after.entries()[i].1.name == before.entries()[i].1.name
                &&& after.entries()[i].1.topics == before.entries()[i].1.topics
                &&& after.entries()[i].1.points == if before.entries()[i].0 == id
                    && before.entries()[i].1.points < i32::MAX {
                    before.entries()[i].1.points + 1
                } else {
                    before.entries()[i].1.points as int
                }
            },
{
    let s = before.entries();
    if has_id(s, id) {
        let p = position(s, id);
        assert forall|i: int| 0 <= i < s.len() && i != p implies s[i].0 != id by {}
    }
}

/// Adding a topic keeps a game that can start able to start.
pub proof fn law_add_topic_keeps_ready(
    before: Seq<(i32, Player)>,
    after: Seq<(i32, Player)>,
    j: int,
    topic: String,
)
    requires
        0 <= j < before.len(),
        not_ready_reason(before) is None,
        topic_appended(before, after, j, topic),
    ensures
        not_ready_reason(after) is None,
{
    law_ready_iff_all_players_ready(before);
    assert forall|i: int| 0 <= i < after.len() implies #[trigger] after[i].1.topics@.len() >= 1 by {
        if i != j {
            assert(after[i] == before[i]);
            assert(before[i].1.topics@.len() >= 1);
        }
    }
    law_ready_iff_all_players_ready(after);
}

/// A game that cannot start because of an idle player names the first one.
proof fn lemma_first_idle_some(s: Seq<(i32, Player)>, n: nat) -> (i: int)
    requires
        n <= s.len(),
        first_idle(s, n) is Some,
    ensures
        first_idle(s, n) == Some(i),
        0 <= i < n,
        s[i].1.topics@.len() == 0,
    decreases n,
{
    match first_idle(s, (n - 1) as nat) {
        Some(_) => lemma_first_idle_some(s, (n - 1) as nat),
        None => n - 1,
    }
}

/// Once some of the first `m` entries has no topic, the first such entry
/// stays the first among any longer prefix.
pub proof fn lemma_first_idle_stays(s: Seq<(i32, Player)>, m: nat, n: nat)
    requires
        m <= n,
        first_idle(s, m) is Some,
    ensures
        first_idle(s, n) == first_idle(s, m),
    decreases n - m,
{
    if m < n {
        lemma_first_idle_stays(s, m, (n - 1) as nat);
    }
}

/// A game that is ready has at least three players and each has a topic.
pub proof fn lemma_not_ready_none_means_all_ready(s: Seq<(i32, Player)>)
    requires
        not_ready_reason(s) is None,
    ensures
        s.len() >= 3,
        forall|i: int| 0 <= i < s.len() ==> #[trigger] s[i].1.topics@.len() > 0,
{
    assert forall|i: int| 0 <= i < s.len() implies #[trigger] s[i].1.topics@.len() > 0 by {
        lemma_first_idle_none(s, s.len(), i);
    }
}

proof fn lemma_first_idle_none(s: Seq<(i32, Player)>, n: nat, i: int)
    requires
        n <= s.len(),
        first_idle(s, n) is None,
        0 <= i < n,
    ensures
        s[i].1.topics@.len() > 0,
    decreases n,
{
    if i < n - 1 {
        lemma_first_idle_none(s, (n - 1) as nat, i);
    }
}

} // verus!
