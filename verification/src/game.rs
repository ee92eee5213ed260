//! The game: two bats and a ball, taken through one frame at a time.

use vstd::prelude::*;
use crate::ball::{advanced, exits, flown, is_serve, Ball};
use crate::bat::{pressed, rested, slid, Bat};
use crate::geometry::Screen;
use crate::units::{BAT_INSET, BAT_WIDTH};

verus! {

/// Which of the four keys are held during a frame.
#[derive(Clone, Copy, Debug, PartialEq, Eq, Structural)]
pub struct Keys {
    pub first_up: bool,
    pub first_down: bool,
    pub second_up: bool,
    pub second_down: bool,
}

/// The pieces of the game: the bat on the left, the bat on the right and
/// the ball.
pub struct Game<K> {
    pub first: Bat<K>,
    pub second: Bat<K>,
    pub ball: Ball,
}

impl<K> Game<K> {
    /// Every piece is well formed.
    pub open spec fn wf(&self) -> bool {
        &&& self.first.wf()
        &&& self.second.wf()
        &&& self.ball.wf()
    }

    /// A game at its start: both bats at rest halfway down the screen, each
    /// at its inset from its edge, and a ball just served.
    pub fn new(first_controls: (K, K), second_controls: (K, K), screen: &Screen) -> (game: Game<K>)
        requires
            screen.wf(),
        ensures
            game.wf(),
            game.first@ == rested(BAT_INSET as int, *screen),
            game.second@ == rested(screen.width - BAT_INSET - BAT_WIDTH, *screen),
            game.first.bindings() == first_controls,
            game.second.bindings() == second_controls,
            is_serve(game.ball@, *screen),
    {
        Game {
            first: Bat::new(BAT_INSET, first_controls, screen),
            second: Bat::new(screen.width - BAT_INSET - BAT_WIDTH, second_controls, screen),
            ball: Ball::new(screen),
        }
    }

    /// One frame of `dt` microseconds: each bat reads its keys, each bat
    /// moves, then the ball moves against the bats where they now are. A
    /// ball that leaves the screen sideways is replaced by a fresh serve.
    /// Returns whether it did.
    pub fn frame(&mut self, keys: &Keys, dt: u32, screen: &Screen) -> (scored: bool)
        requires
            old(self).wf(),
            screen.wf(),
        ensures
            final(self).wf(),
            final(self).first@ == slid(
                pressed(old(self).first@, keys.first_up, keys.first_down),
                dt,
                *screen,
            ),
            final(self).second@ == slid(
                pressed(old(self).second@, keys.second_up, keys.second_down),
                dt,
                *screen,
            ),
            final(self).first.bindings() == old(self).first.bindings(),
            final(self).second.bindings() == old(self).second.bindings(),
            scored == exits(advanced(old(self).ball@, dt), *screen),
            !scored ==> final(self).ball@ == flown(
                old(self).ball@,
                dt,
                final(self).first@.rect,
                final(self).second@.rect,
                *screen,
            ),
            scored ==> is_serve(final(self).ball@, *screen),
    {
        self.first.input(keys.first_up, keys.first_down);
        self.second.input(keys.second_up, keys.second_down);
        self.first.update(dt, screen);
        self.second.update(dt, screen);
        let scored: bool = self.ball.update(dt, &self.first, &self.second, screen);
        if scored {
            self.ball = Ball::new(screen);
        }
        scored
    }
}

} // verus!
