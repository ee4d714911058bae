//! Session setup: build a roster and a table, then play to
//! completion.

use vstd::prelude::*;

use crate::gamestate::{init_blinds, init_game_state, sum_chips, GameState};
use crate::player::{init_players, Player};

verus! {

proof fn lemma_sum_chips_const(s: Seq<Player>, c: u32)
    requires
        forall|i: int| 0 <= i < s.len() ==> (#[trigger] s[i].chips) == c,
    ensures
        sum_chips(s) == s.len() * c,
    decreases s.len(),
{
    if s.len() > 0 {
        lemma_sum_chips_const(s.drop_last(), c);
        assert(s.len() * c == (s.len() - 1) * c + c) by (nonlinear_arith);
    }
}

/// Stake a fresh roster, post the given blinds, and run a whole
/// session to completion: the roster holds two to ten players, every
/// stack starts with at least one chip, both blinds are positive, and
/// the chips on the table fit the table bound.
pub fn play_game(
    num_players: u32,
    user_player: bool,
    starting_stack: u32,
    sb: u32,
    bb: u32,
    ante: Option<u32>,
)
    requires
        2 <= num_players <= 10,
        starting_stack >= 1,
        sb >= 1,
        bb >= 1,
        num_players * starting_stack <= 0x7fff_ffff,
{
    let players = init_players(num_players, user_player, starting_stack);
    proof {
        lemma_sum_chips_const(players@, starting_stack);
    }
    let blinds = init_blinds(sb, bb, ante);
    let mut game_state = init_game_state(players, blinds);

    game_state.play();
}

} // verus!
