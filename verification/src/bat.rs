//! The bats: each reads two keys, moves up or down and stays on the screen.

use vstd::prelude::*;
use crate::geometry::{Rect, Region, Screen};
use crate::units::{BAT_CONTACT_WIDTH, BAT_HEIGHT, BAT_SPEED, POSITION_LIMIT};

verus! {

/// The model of a bat: the rectangle that the ball can touch and the
/// vertical speed that the keys ask for.
pub struct BatView {
    pub rect: Region,
    pub velocity: int,
}

impl BatView {
    /// The rectangle has a bat's size and a height that a position can
    /// have, and the speed is one that the keys can ask for.
    pub open spec fn wf(self) -> bool {
        &&& self.rect.w == BAT_CONTACT_WIDTH
        &&& self.rect.h == BAT_HEIGHT
        &&& -BAT_HEIGHT <= self.rect.y <= POSITION_LIMIT
        &&& (self.velocity == -BAT_SPEED || self.velocity == 0 || self.velocity == BAT_SPEED)
    }
}

/// `v` halved, rounded towards zero.
pub open spec fn halved(v: int) -> int {
    if v >= 0 {
        v / 2
    } else {
        -((-v) / 2)
    }
}

/// A bat at rest whose left edge is at `xpos`, halfway down the screen.
pub open spec fn rested(xpos: int, screen: Screen) -> BatView {
    BatView {
        rect: Region {
            x: xpos,
            y: halved(screen.height - BAT_HEIGHT),
            w: BAT_CONTACT_WIDTH as int,
            h: BAT_HEIGHT as int,
        },
        velocity: 0,
    }
}

/// The vertical speed that the two keys ask for: up alone is upwards, down
/// alone is downwards, both or neither is rest.
pub open spec fn steered(up: bool, down: bool) -> int {
    if up && !down {
        -BAT_SPEED
    } else if down && !up {
        BAT_SPEED as int
    } else {
        0
    }
}

/// The bat after it has read its keys.
pub open spec fn pressed(b: BatView, up: bool, down: bool) -> BatView {
    BatView { rect: b.rect, velocity: steered(up, down) }
}

/// The top edge `y` of a rectangle of height `h`, brought down to the top of
/// the screen and then up to its bottom where it had passed them.
pub open spec fn kept_on_screen(y: int, h: int, screen_height: int) -> int {
    let lowered = if y < 0 {
        0
    } else {
        y
    };
    if lowered + h > screen_height {
        screen_height - h
    } else {
        lowered
    }
}

/// The bat after `dt` microseconds: moved at its speed, then kept on the
/// screen. Its speed stays as it was, also where an edge stopped it.
pub open spec fn slid(b: BatView, dt: u32, screen: Screen) -> BatView {
    BatView {
        rect: b.rect.at_height(
            kept_on_screen(b.rect.y + b.velocity * dt, b.rect.h, screen.height as int),
        ),
        velocity: b.velocity,
    }
}

/// Reading the same keys a second time changes nothing.
pub proof fn lemma_input_settles(b: BatView, up: bool, down: bool)
    ensures
        pressed(pressed(b, up, down), up, down) == pressed(b, up, down),
{
}

/// On a screen that is at least as high as a bat, a bat that has moved lies
/// between the screen's top and bottom edges.
pub proof fn lemma_bat_stays_on_screen(b: BatView, dt: u32, screen: Screen)
    requires
        b.wf(),
        screen.wf(),
        screen.height >= BAT_HEIGHT,
    ensures
        0 <= slid(b, dt, screen).rect.top(),
        slid(b, dt, screen).rect.bottom() <= screen.height,
{
}

/// A player's bat. `K` is whatever names a key.
pub struct Bat<K> {
    rect: Rect,
    velocity: i64,
    controls: (K, K),
}

impl<K> Bat<K> {
    /// The bat's model.
    pub closed spec fn view(&self) -> BatView {
        BatView { rect: self.rect@, velocity: self.velocity as int }
    }

    /// The keys that move the bat up and down, in this order.
    pub closed spec fn bindings(&self) -> (K, K) {
        self.controls
    }

    /// The bat's model is well formed.
    pub open spec fn wf(&self) -> bool {
        self@.wf()
    }

    /// A bat at rest whose left edge is at `xpos`, halfway down the screen.
    pub fn new(xpos: i64, controls: (K, K), screen: &Screen) -> (bat: Bat<K>)
        requires
            screen.wf(),
        ensures
            bat@ == rested(xpos as int, *screen),
            bat.bindings() == controls,
            bat.wf(),
    {
        let room: i64 = screen.height - BAT_HEIGHT;
        let y: i64 = if room >= 0 {
            room / 2
        } else {
            -((-room) / 2)
        };
        Bat {
            rect: Rect { x: xpos, y, w: BAT_CONTACT_WIDTH, h: BAT_HEIGHT },
            velocity: 0,
            controls,
        }
    }

    /// Sets the speed that the two keys ask for; `up` and `down` say whether
    /// the key of that direction is held.
    pub fn input(&mut self, up: bool, down: bool)
        requires
            old(self).wf(),
        ensures
            final(self)@ == pressed(old(self)@, up, down),
            final(self).bindings() == old(self).bindings(),
            final(self).wf(),
    {
        if up && !down {
            self.velocity = -BAT_SPEED;
        } else if down && !up {
            self.velocity = BAT_SPEED;
        } else {
            self.velocity = 0;
        }
    }

    /// Moves the bat for `dt` microseconds and keeps it on the screen.
    pub fn update(&mut self, dt: u32, screen: &Screen)
        requires
            old(self).wf(),
            screen.wf(),
        ensures
            final(self)@ == slid(old(self)@, dt, *screen),
            final(self).bindings() == old(self).bindings(),
            final(self).wf(),
            screen.height >= BAT_HEIGHT ==> 0 <= final(self)@.rect.top(),
            screen.height >= BAT_HEIGHT ==> final(self)@.rect.bottom() <= screen.height,
    {
        assert(-3_435_973_836_800_000 <= self.velocity * dt <= 3_435_973_836_800_000)
            by (nonlinear_arith)
            requires
                -800_000 <= self.velocity <= 800_000,
                0 <= dt <= 0xffff_ffff,
        ;
        let step: i64 = self.velocity * (dt as i64);
        let mut y: i64 = self.rect.y + step;
        if y < 0 {
            y = 0;
        }
        if y + self.rect.h > screen.height {
            y = screen.height - self.rect.h;
        }
        self.rect.y = y;
    }

    /// The rectangle that the ball can touch.
    pub fn rect(&self) -> (rect: Rect)
        ensures
            rect@ == self@.rect,
    {
        self.rect
    }

    /// The vertical speed that the keys last asked for.
    pub fn velocity(&self) -> (velocity: i64)
        ensures
            velocity == self@.velocity,
    {
        self.velocity
    }

    /// The keys that move the bat up and down, in this order.
    pub fn controls(&self) -> (controls: &(K, K))
        ensures
            *controls == self.bindings(),
    {
        &self.controls
    }
}

} // verus!
