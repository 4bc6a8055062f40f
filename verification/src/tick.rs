//! Orchestration of one fixed-rate simulation tick.
//!
//! The driver calls [`tick`] once per timer event; everything the
//! game decides per tick (move, death check, eat, score, grow,
//! relocate food) happens here in this exact order.

use vstd::prelude::*;

use crate::entities::Food;
use crate::entities::Snake;
use crate::entities::spec_board_full;
use crate::entities::spec_cols;
use crate::entities::spec_moved;
use crate::entities::spec_out_of_bounds;
use crate::entities::spec_rows;
use crate::entities::spec_valid_cell;
use crate::enums::GameState;
use crate::game::Game;

verus! {

/// Ideal coordinates of the snake's head after this tick's move.
pub open spec fn spec_next_head(s: Snake) -> (int, int) {
    spec_moved(s.spec_head().position, s.spec_direction(), s.spec_size())
}

/// The head cell after this tick's move, as stored coordinates; only
/// meaningful when the move stays within the machine range.
pub open spec fn spec_moved_pos(s: Snake) -> (i64, i64) {
    (spec_next_head(s).0 as i64, spec_next_head(s).1 as i64)
}

/// Whether this tick's move kills the snake: it was already dead, or
/// the moved head leaves the playable field, or it lands on a cell of
/// the moved body.
pub open spec fn spec_dies(s: Snake, screen: (u32, u32)) -> bool {
    ||| s.spec_dead()
    ||| spec_out_of_bounds(
        spec_moved_pos(s),
        (screen.0 as i64, screen.1 as i64),
        s.spec_size(),
    )
    ||| exists|k: int|
        0 <= k < s.spec_body_after_move().len() && s.spec_body_after_move()[k].position
            == spec_moved_pos(s)
}

/// Whether this tick's move lands the snake's head on the food.
pub open spec fn spec_eats(s: Snake, f: Food) -> bool {
    f.spec_position() == spec_moved_pos(s)
}

/// Advances the simulation by one tick, in the order the game fixes:
/// the snake moves, death is detected (ending the tick at once), then
/// the food is tested for being eaten, the score and the body grow on
/// an eat, and eaten food is relocated off the snake. Returns whether
/// the round has ended.
pub fn tick(
    snake: &mut Snake,
    food: &mut Food,
    game: &mut Game,
    screen_size: &(u32, u32),
) -> (game_over: bool)
    requires
        i64::MIN <= spec_next_head(*old(snake)).0 <= i64::MAX,
        i64::MIN <= spec_next_head(*old(snake)).1 <= i64::MAX,
        i64::MIN <= screen_size.0 - old(snake).spec_size() <= i64::MAX,
        (!spec_dies(*old(snake), *screen_size) && spec_eats(*old(snake), *old(food)))
            ==> old(game).score < u32::MAX && old(food).spec_size() > 0 && spec_cols(
            old(food).spec_size(),
            *screen_size,
        ) > 0 && spec_rows(old(food).spec_size(), *screen_size) > 2,
    ensures
        game_over == spec_dies(*old(snake), *screen_size),
        final(snake).spec_dead() == game_over,
        final(snake).spec_head().position == spec_moved_pos(*old(snake)),
        final(snake).spec_direction() == old(snake).spec_direction(),
        final(snake).spec_size() == old(snake).spec_size(),
        final(game).state == (if game_over {
            GameState::GameOver
        } else {
            old(game).state
        }),
        final(game).score as int == (if !game_over && spec_eats(*old(snake), *old(food)) {
            old(game).score + 1
        } else {
            old(game).score as int
        }),
        game_over ==> final(snake).spec_body() == old(snake).spec_body_after_move(),
        game_over ==> *final(food) == *old(food),
        !game_over ==> !final(food).spec_eaten(),
        !game_over ==> final(food).spec_size() == old(food).spec_size(),
        (!game_over && !spec_eats(*old(snake), *old(food))) ==> final(snake).spec_body() == old(
            snake,
        ).spec_body_after_move() && final(food).spec_position() == old(food).spec_position(),
        (!game_over && spec_eats(*old(snake), *old(food)) && old(snake).spec_body().len() > 0)
            ==> final(snake).spec_body() == old(snake).spec_body_after_move().push(
            old(snake).spec_body_after_move().last(),
        ),
        (!game_over && spec_eats(*old(snake), *old(food)) && old(snake).spec_body().len() == 0)
            ==> final(snake).spec_body().len() == 0,
        (!game_over && spec_eats(*old(snake), *old(food)) && !spec_board_full(
            *final(snake),
            old(food).spec_size(),
            *screen_size,
        )) ==> spec_valid_cell(
            final(food).spec_position(),
            old(food).spec_size(),
            *screen_size,
        ) && !final(snake).spec_occupies(final(food).spec_position()),
        (!game_over && spec_eats(*old(snake), *old(food)) && spec_board_full(
            *final(snake),
            old(food).spec_size(),
            *screen_size,
        )) ==> final(food).spec_position() == old(food).spec_position(),
    {
        snake.update();
        let bounds = (screen_size.0 as i64, screen_size.1 as i64);
        snake.check_state(&bounds);
        if snake.dead() {
            game.update_state(GameState::GameOver);
            return true;
        }
        food.is_eaten(&*snake);
        if food.eaten() {
            game.add_score();
            snake.grow();
        }
        food.update(screen_size, Some(&*snake));
        false
    }

} // verus!
