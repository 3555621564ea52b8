use vstd::prelude::*;

use crate::player_map::{id_at, player_at, player_count};
use crate::sotpal::Sotpal;
use crate::utils::{
    append_decimal, decimal, law_parse_reads_decimal, parse_i32_spec, IntParseFailure,
};

verus! {

/// A button under a message: it opens a link, or sends data back to the bot.
pub enum Button {
    Url { text: String, url: String },
    Callback { text: String, data: String },
}

/// What a button shows and does, as text.
pub enum ButtonView {
    Url(Seq<char>, Seq<char>),
    Callback(Seq<char>, Seq<char>),
}

impl View for Button {
    type V = ButtonView;

    open spec fn view(&self) -> ButtonView {
        match self {
            Button::Url { text, url } => ButtonView::Url(text@, url@),
            Button::Callback { text, data } => ButtonView::Callback(text@, data@),
        }
    }
}

/// Rows of buttons under a message.
pub struct Keyboard {
    pub rows: Vec<Vec<Button>>,
}

impl View for Keyboard {
    type V = Seq<Seq<ButtonView>>;

    open spec fn view(&self) -> Seq<Seq<ButtonView>> {
        self.rows@.map_values(|row: Vec<Button>| row@.map_values(|b: Button| b@))
    }
}

pub open spec fn random_page_url() -> Seq<char> {
    "https://en.wikipedia.org/wiki/Special:Random"@
}

pub open spec fn example_url() -> Seq<char> {
    "https://www.youtube.com/watch?v=3UAOs9B9UH8&list=PLfx61sxf1Yz2I-c7eMRk9wBUUDCJkU7H0&index=1"@
}

pub open spec fn greeting_view() -> Seq<Seq<ButtonView>> {
    seq![
        seq![ButtonView::Url("Example"@, example_url()), ButtonView::Callback("Create Game"@, "create"@)],
        seq![ButtonView::Callback("Local Game"@, "local"@), ButtonView::Callback("Join Game"@, "join"@)],
    ]
}

pub open spec fn local_view() -> Seq<Seq<ButtonView>> {
    seq![
        seq![ButtonView::Url("Random Wiki Page"@, random_page_url()), ButtonView::Callback("Draw Topic"@, "local draw"@)],
        seq![ButtonView::Callback("Leave"@, "local leave"@)],
    ]
}

pub open spec fn playing_view() -> Seq<Seq<ButtonView>> {
    seq![
        seq![ButtonView::Url("Random Wiki Page"@, random_page_url()), ButtonView::Callback("Guess"@, "guess"@)],
        seq![ButtonView::Callback("Leave"@, "playing leave"@)],
    ]
}

/// One row per player, in order: a button with the player's name that sends
/// the player's id.
pub open spec fn guessing_view(s: Seq<(i32, crate::sotpal::player::Player)>) -> Seq<Seq<ButtonView>> {
    s.map_values(|e: (i32, crate::sotpal::player::Player)| seq![ButtonView::Callback(e.1.name@, decimal(e.0 as int))])
}

fn url_button(text: &str, url: &str) -> (b: Button)
    ensures
        b@ == ButtonView::Url(text@, url@),
{
    Button::Url { text: String::from_str(text), url: String::from_str(url) }
}

fn callback_button(text: &str, data: &str) -> (b: Button)
    ensures
        b@ == ButtonView::Callback(text@, data@),
{
    Button::Callback { text: String::from_str(text), data: String::from_str(data) }
}

fn two_rows(first: Vec<Button>, second: Vec<Button>) -> (k: Keyboard)
    ensures
        k@ == seq![first@.map_values(|b: Button| b@), second@.map_values(|b: Button| b@)],
{
    let mut rows: Vec<Vec<Button>> = Vec::new();
    rows.push(first);
    rows.push(second);
    let k = Keyboard { rows };
    proof {
        assert(k@ =~= seq![k.rows@[0]@.map_values(|b: Button| b@), k.rows@[1]@.map_values(|b: Button| b@)]);
    }
    k
}

/// A link to an example game, and buttons to create, play locally or join.
pub fn greeting() -> (k: Keyboard)
    ensures
        k@ == greeting_view(),
{
    proof {
        reveal_strlit("Example");
        reveal_strlit("https://www.youtube.com/watch?v=3UAOs9B9UH8&list=PLfx61sxf1Yz2I-c7eMRk9wBUUDCJkU7H0&index=1");
        reveal_strlit("Create Game");
        reveal_strlit("create");
        reveal_strlit("Local Game");
        reveal_strlit("local");
        reveal_strlit("Join Game");
        reveal_strlit("join");
    }
    let mut first: Vec<Button> = Vec::new();
    first.push(url_button("Example", "https://www.youtube.com/watch?v=3UAOs9B9UH8&list=PLfx61sxf1Yz2I-c7eMRk9wBUUDCJkU7H0&index=1"));
    first.push(callback_button("Create Game", "create"));
    let mut second: Vec<Button> = Vec::new();
    second.push(callback_button("Local Game", "local"));
    second.push(callback_button("Join Game", "join"));
    proof {
        assert(first@.map_values(|b: Button| b@) =~= greeting_view()[0]);
        assert(second@.map_values(|b: Button| b@) =~= greeting_view()[1]);
    }
    let k = two_rows(first, second);
    proof {
        assert(k@ =~= greeting_view());
    }
    k
}

/// A link to a random page, a button to draw a topic and one to leave.
pub fn local() -> (k: Keyboard)
    ensures
        k@ == local_view(),
{
    proof {
        reveal_strlit("Random Wiki Page");
        reveal_strlit("https://en.wikipedia.org/wiki/Special:Random");
        reveal_strlit("Draw Topic");
        reveal_strlit("local draw");
        reveal_strlit("Leave");
        reveal_strlit("local leave");
    }
    let mut first: Vec<Button> = Vec::new();
    first.push(url_button("Random Wiki Page", "https://en.wikipedia.org/wiki/Special:Random"));
    first.push(callback_button("Draw Topic", "local draw"));
    let mut second: Vec<Button> = Vec::new();
    second.push(callback_button("Leave", "local leave"));
    proof {
        assert(first@.map_values(|b: Button| b@) =~= local_view()[0]);
        assert(second@.map_values(|b: Button| b@) =~= local_view()[1]);
    }
    let k = two_rows(first, second);
    proof {
        assert(k@ =~= local_view());
    }
    k
}

/// A link to a random page, a button to start guessing and one to leave.
pub fn playing() -> (k: Keyboard)
    ensures
        k@ == playing_view(),
{
    proof {
        reveal_strlit("Random Wiki Page");
        reveal_strlit("https://en.wikipedia.org/wiki/Special:Random");
        reveal_strlit("Guess");
        reveal_strlit("guess");
        reveal_strlit("Leave");
        reveal_strlit("playing leave");
    }
    let mut first: Vec<Button> = Vec::new();
    first.push(url_button("Random Wiki Page", "https://en.wikipedia.org/wiki/Special:Random"));
    first.push(callback_button("Guess", "guess"));
    let mut second: Vec<Button> = Vec::new();
    second.push(callback_button("Leave", "playing leave"));
    proof {
        assert(first@.map_values(|b: Button| b@) =~= playing_view()[0]);
        assert(second@.map_values(|b: Button| b@) =~= playing_view()[1]);
    }
    let k = two_rows(first, second);
    proof {
        assert(k@ =~= playing_view());
    }
    k
}

/// One button per player of the game, to name whose topic it is.
pub fn guessing(game: &Sotpal) -> (k: Keyboard)
    ensures
        k@ == guessing_view(game.entries()),
{
    proof {
        reveal_strlit("");
    }
    let n = player_count(&game.players);
    let mut rows: Vec<Vec<Button>> = Vec::new();
    let mut i: usize = 0;
    while i < n
        invariant
            i <= n,
            n == game.entries().len(),
            rows@.len() == i,
            forall|j: int|
                0 <= j < i ==> (#[trigger] rows@[j])@.map_values(|b: Button| b@) == seq![
                    ButtonView::Callback(game.entries()[j].1.name@, decimal(game.entries()[j].0 as int)),
                ],
        decreases n - i,
    {
        let player = player_at(&game.players, i);
        let id = match id_at(&game.players, i) {
            Some(id) => id,
            None => 0,
        };
        let mut data = String::from_str("");
        append_decimal(&mut data, id as i64);
        proof {
            reveal_strlit("");
            assert(data@ =~= decimal(game.entries()[i as int].0 as int));
        }
        let mut row: Vec<Button> = Vec::new();
        row.push(Button::Callback { text: player.name.clone(), data });
        proof {
            assert(row@.map_values(|b: Button| b@) =~= seq![
                ButtonView::Callback(game.entries()[i as int].1.name@, decimal(game.entries()[i as int].0 as int)),
            ]);
        }
        rows.push(row);
        i = i + 1;
    }
    let k = Keyboard { rows };
    proof {
        assert(k@ =~= guessing_view(game.entries()));
    }
    k
}

/// Every button of the guessing keyboard names its player and carries the
/// player's id in decimal, which reads back as that id: a guess made with
/// these buttons names exactly the player pressed.
pub proof fn law_guess_buttons_read_back(s: Seq<(i32, crate::sotpal::player::Player)>, i: int)
    requires
        0 <= i < s.len(),
    ensures
        guessing_view(s)[i] == seq![ButtonView::Callback(s[i].1.name@, decimal(s[i].0 as int))],
        parse_i32_spec(decimal(s[i].0 as int)) == Ok::<int, IntParseFailure>(s[i].0 as int),
{
    law_parse_reads_decimal(s[i].0);
}

} // verus!
