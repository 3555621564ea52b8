use indexmap::IndexMap;
use vstd::prelude::*;

use crate::sotpal::player::Player;

verus! {

/// `indexmap::IndexMap`, the insertion-ordered map that holds a game's players.
#[verifier::external_type_specification]
#[verifier::external_body]
#[verifier::reject_recursive_types(K)]
#[verifier::reject_recursive_types(V)]
#[verifier::reject_recursive_types(S)]
pub struct ExIndexMap<K, V, S>(IndexMap<K, V, S>);

/// The entries of a player map, as (id, player) pairs in the map's order.
pub uninterp spec fn player_entries(m: IndexMap<i32, Player>) -> Seq<(i32, Player)>;

/// Some entry of `s` has the id `id`.
pub open spec fn has_id(s: Seq<(i32, Player)>, id: i32) -> bool {
    exists|i: int| 0 <= i < s.len() && #[trigger] s[i].0 == id
}

/// `s` with its entry at `i` replaced by its last entry, and the last entry
/// dropped: what `swap_remove` leaves.
pub open spec fn swap_removed(s: Seq<(i32, Player)>, i: int) -> Seq<(i32, Player)> {
    s.update(i, s.last()).drop_last()
}

/// `IndexMap::new`: the contract claims that the new map has no entries.
#[verifier::external_body]
pub(crate) fn new_player_map() -> (r: IndexMap<i32, Player>)
    ensures
        player_entries(r) == Seq::<(i32, Player)>::empty(),
{
    IndexMap::new()
}

/// `IndexMap::len`: the contract claims that it is the number of entries.
#[verifier::external_body]
pub(crate) fn player_count(m: &IndexMap<i32, Player>) -> (r: usize)
    ensures
        r == player_entries(*m).len(),
{
    m.len()
}

/// `IndexMap::get_index_of`: the contract claims that a returned index holds
/// an entry with the id, and that `None` comes only when no entry has it.
#[verifier::external_body]
pub(crate) fn position_of(m: &IndexMap<i32, Player>, id: i32) -> (r: Option<usize>)
    ensures
        r matches Some(i) ==> i < player_entries(*m).len() && player_entries(*m)[i as int].0 == id,
        r is None ==> !has_id(player_entries(*m), id),
{
    m.get_index_of(&id)
}

/// `IndexMap::insert`: the contract claims that a new id is appended last,
/// and that for an id already present the entry that holds it keeps its
/// place, takes the new value, and the old value is returned.
#[verifier::external_body]
pub(crate) fn insert_player(m: &mut IndexMap<i32, Player>, id: i32, player: Player) -> (r: Option<Player>)
    ensures
        !has_id(player_entries(*old(m)), id) ==> r is None
            && player_entries(*final(m)) == player_entries(*old(m)).push((id, player)),
        has_id(player_entries(*old(m)), id) ==> exists|i: int|
            0 <= i < player_entries(*old(m)).len() && #[trigger] player_entries(*old(m))[i].0 == id
                && r == Some(player_entries(*old(m))[i].1)
                && player_entries(*final(m)) == player_entries(*old(m)).update(i, (id, player)),
{
    m.insert(id, player)
}

/// `IndexMap::remove`, which is `swap_remove`: the contract claims that an
/// absent id leaves the map as it was, and that otherwise the entry with the
/// id is replaced by the last entry, the last place is dropped, and the
/// removed value is returned.
#[verifier::external_body]
pub(crate) fn remove_player(m: &mut IndexMap<i32, Player>, id: i32) -> (r: Option<Player>)
    ensures
        !has_id(player_entries(*old(m)), id) ==> r is None
            && player_entries(*final(m)) == player_entries(*old(m)),
        has_id(player_entries(*old(m)), id) ==> exists|i: int|
            0 <= i < player_entries(*old(m)).len() && #[trigger] player_entries(*old(m))[i].0 == id
                && r == Some(player_entries(*old(m))[i].1)
                && player_entries(*final(m)) == swap_removed(player_entries(*old(m)), i),
{
    m.remove(&id)
}

/// `IndexMap`'s `Index<usize>`: the contract claims that it is the value of
/// the entry at `index` (it panics out of bounds, hence the `requires`).
#[verifier::external_body]
pub(crate) fn player_at(m: &IndexMap<i32, Player>, index: usize) -> (r: &Player)
    requires
        index < player_entries(*m).len(),
    ensures
        *r == player_entries(*m)[index as int].1,
{
    &m[index]
}

/// `IndexMap::get_index`, keeping the id: the contract claims that for an
/// index in bounds it is the id of the entry at that index.
#[verifier::external_body]
pub(crate) fn id_at(m: &IndexMap<i32, Player>, index: usize) -> (r: Option<i32>)
    ensures
        index < player_entries(*m).len() ==> r == Some(player_entries(*m)[index as int].0),
        index >= player_entries(*m).len() ==> r is None,
{
    m.get_index(index).map(|entry| *entry.0)
}

/// `IndexMap`'s `IndexMut<usize>`: the contract claims that it gives the
/// value of the entry at `index`, and that what is written through it becomes
/// that entry's value, the id and all other entries staying as they were.
#[verifier::external_body]
pub(crate) fn player_at_mut(m: &mut IndexMap<i32, Player>, index: usize) -> (r: &mut Player)
    requires
        index < player_entries(*old(m)).len(),
    ensures
        *r == player_entries(*old(m))[index as int].1,
        player_entries(*final(m)) == player_entries(*old(m)).update(
            index as int,
            (player_entries(*old(m))[index as int].0, *final(r)),
        ),
{
    &mut m[index]
}

} // verus!
