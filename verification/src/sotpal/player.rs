use vstd::prelude::*;

use crate::random::random_below;
use crate::utils::{append_count, append_decimal, decimal, fails_with, Error, Result};

verus! {

/// One participant of a game: a name, a score, and the topics the player has
/// read and may still be asked about.
pub struct Player {
    pub name: String,
    pub points: i32,
    pub topics: Vec<String>,
}

/// The message of the error for an empty topic.
pub open spec fn empty_topic_message() -> Seq<char> {
    "Tried to add empty topic"@
}

/// The message of the error for drawing from a player with no topics.
pub open spec fn no_topics_message() -> Seq<char> {
    "No topics to get"@
}

/// The text of each topic, in order.
pub open spec fn texts(topics: Seq<String>) -> Seq<Seq<char>> {
    topics.map_values(|t: String| t@)
}

/// The line that describes a player: name, points and number of topics.
pub open spec fn player_line(name: Seq<char>, points: int, topic_count: int) -> Seq<char> {
    name + " has "@ + decimal(points) + " points and "@ + decimal(topic_count) + " topics"@
}

impl Player {
    /// A player with the given name, no points and no topics.
    pub fn new(name: String) -> (r: Self)
        ensures
            r.name == name,
            r.points == 0,
            r.topics@ == Seq::<String>::empty(),
    {
        Player { name, points: 0, topics: Vec::new() }
    }

    /// Adds a topic at the end of the player's topics; an empty topic is refused.
    pub fn add_topic(&mut self, topic: String) -> (r: Result<()>)
        ensures
            topic@.len() > 0 ==> r is Ok && final(self).topics@ == old(self).topics@.push(topic),
            topic@.len() == 0 ==> fails_with(r, empty_topic_message()) && *final(self) == *old(self),
            final(self).name == old(self).name,
            final(self).points == old(self).points,
    {
        proof {
            reveal_strlit("");
            reveal_strlit("Tried to add empty topic");
            if topic@.len() == 0 {
                assert(topic@ =~= ""@);
            }
        }
        if topic != String::from_str("") {
            self.topics.push(topic);
            Ok(())
        } else {
            Err(Error::General(String::from_str("Tried to add empty topic")))
        }
    }

    /// Removes and returns the topic at `index`; fails when the player has
    /// no topics.
    pub fn draw_topic_at(&mut self, index: usize) -> (r: Result<String>)
        requires
            old(self).topics@.len() > 0 ==> index < old(self).topics@.len(),
        ensures
            old(self).topics@.len() == 0 ==> fails_with(r, no_topics_message()) && *final(self) == *old(self),
            old(self).topics@.len() > 0 ==> r == Ok::<String, Error>(old(self).topics@[index as int])
                && final(self).topics@ == old(self).topics@.remove(index as int),
            final(self).name == old(self).name,
            final(self).points == old(self).points,
    {
        proof {
            reveal_strlit("No topics to get");
        }
        if self.topics.len() == 0 {
            Err(Error::General(String::from_str("No topics to get")))
        } else {
            Ok(self.topics.remove(index))
        }
    }

    /// Removes and returns a topic chosen at random; fails when the player has
    /// no topics.
    pub fn draw_topic(&mut self) -> (r: Result<String>)
        ensures
            old(self).topics@.len() == 0 ==> fails_with(r, no_topics_message()) && *final(self) == *old(self),
            old(self).topics@.len() > 0 ==> exists|i: int|
                0 <= i < old(self).topics@.len() && r == Ok::<String, Error>(old(self).topics@[i])
                    && final(self).topics@ == old(self).topics@.remove(i),
            final(self).name == old(self).name,
            final(self).points == old(self).points,
    {
        if self.topics.len() == 0 {
            self.draw_topic_at(0)
        } else {
            let index = random_below(self.topics.len());
            self.draw_topic_at(index)
        }
    }

    /// Whether the player has at least one topic.
    pub fn is_ready(&self) -> (r: bool)
        ensures
            r == (self.topics@.len() >= 1),
    {
        self.topics.len() >= 1
    }

    /// `<name> has <points> points and <n> topics`.
    pub fn print(&self) -> (r: String)
        ensures
            r@ == player_line(self.name@, self.points as int, self.topics@.len() as int),
    {
        proof {
            reveal_strlit(" has ");
            reveal_strlit(" points and ");
            reveal_strlit(" topics");
        }
        let mut r = self.name.clone();
        r.append(" has ");
        append_decimal(&mut r, self.points as i64);
        r.append(" points and ");
        append_count(&mut r, self.topics.len());
        r.append(" topics");
        r
    }
}

/// Drawing the last topic right after adding a topic gives that topic back
/// and leaves the topics as they were before it was added.
pub proof fn law_draw_last_undoes_add(topics: Seq<String>, topic: String)
    ensures
        topics.push(topic)[topics.len() as int] == topic,
        topics.push(topic).remove(topics.len() as int) == topics,
{
    assert(topics.push(topic).remove(topics.len() as int) =~= topics);
}

} // verus!
