//! A seat-table sketch for future multi-table play: seats hold their
//! players by value and refer to them by id, never through shared
//! references.

use vstd::prelude::*;

use crate::player::{init_players, Player};

verus! {

pub type SeatId = u32;

/// A fixed ring of seats: the seat ids in order, each seat's player
/// (or an empty seat), and the button and action markers.
pub struct Table {
    pub seats: Vec<SeatId>,
    pub seat_count: usize,
    pub seat_players: Vec<Option<Player>>,
    pub button: SeatId,
    pub action: SeatId,
}

/// A full table of `seat_count` fresh players, each staked with
/// `chips`, the button and the action on seat 0.
pub fn init_table(seat_count: usize, chips: u32) -> (t: Table)
    requires
        seat_count <= 0xffff_ffff,
    ensures
        t.seat_count == seat_count,
        t.seats@.len() == seat_count,
        forall|i: int| 0 <= i < seat_count ==> t.seats@[i] == i,
        t.seat_players@.len() == seat_count,
        forall|i: int| 0 <= i < seat_count ==> ((#[trigger] t.seat_players@[i]) matches Some(p)
            && p.id == i && p.chips == chips && !p.in_hand),
        t.button == 0,
        t.action == 0,
{
    let mut players = init_players(seat_count as u32, false, chips);
    let ghost all = players@;

    let mut seats: Vec<SeatId> = Vec::new();
    let mut seat_players: Vec<Option<Player>> = Vec::new();
    let mut i: usize = 0;
    while i < seat_count
        invariant
            i <= seat_count,
            all.len() == seat_count,
            players@ =~= all.skip(i as int),
            seats@.len() == i,
            forall|j: int| 0 <= j < i ==> seats@[j] == j,
            seat_players@.len() == i,
            forall|j: int| 0 <= j < i ==> (#[trigger] seat_players@[j]) == Some(all[j]),
            forall|j: int| 0 <= j < all.len() ==> (#[trigger] all[j]).id == j && all[j].chips
                == chips && !all[j].in_hand,
        decreases seat_count - i,
    {
        seats.push(i as u32);
        let p = players.remove(0);
        proof {
            assert(p == all[i as int]);
            assert(players@ =~= all.skip(i + 1));
        }
        seat_players.push(Some(p));
        i += 1;
    }

    Table { seats, seat_count, seat_players, button: 0, action: 0 }
}

} // verus!
