//! The rider's controls and the bike's fate: facing, brake, throttle, jump,
//! and whether the bike is still in one piece.
//!
//! One substep of the simulation goes through the bike in this order:
//! [`Bike::update`] reads the rider's input and says what the drivetrain
//! does, [`Bike::advance_jump`] moves a running jump along its clock, and
//! [`Bike::wheel_contact`] and [`Bike::head_contact`] take in what the
//! wheels and the rider's head ran into.

use vstd::prelude::*;
use crate::level::{CollisionInfo, PolygonType};

verus! {

/// Which way the bike faces, and which way a jump leans.
#[derive(Clone, Copy, PartialEq, Eq, Structural, Debug)]
pub enum Direction {
    Right,
    Left,
}

/// What the rider does with the wheels during one substep.
#[derive(Clone, Copy, PartialEq, Eq, Structural, Debug)]
pub enum WheelInput {
    Coast,
    Brake,
    Accelerate,
}

/// The rider's input for one substep.
#[derive(Clone, Copy, Debug)]
pub struct Input {
    /// The key that turns the bike around is down.
    pub toggle_dir: bool,
    pub wheel: WheelInput,
    /// The direction of a jump, while a jump key is down.
    pub jump: Option<Direction>,
}

/// What the brake does during one substep.
#[derive(Clone, Copy, PartialEq, Eq, Structural, Debug)]
pub enum Brake {
    /// The brake is open; the wheels turn freely.
    Off,
    /// The brake closes in this substep: the angle of each wheel against
    /// the frame is taken as the brake's rest angle, and the brake holds.
    Engage,
    /// The brake stays closed and holds the wheels at their rest angles.
    Hold,
}

/// A jump on its way.
#[derive(Clone, Copy, PartialEq, Eq, Structural, Debug)]
pub struct Jump {
    pub dir: Direction,
}

/// What the drivetrain does in one substep, as [`Bike::update`] decides it.
#[derive(Clone, Copy, PartialEq, Eq, Structural, Debug)]
pub struct Controls {
    /// The facing during this substep.
    pub dir: Direction,
    pub brake: Brake,
    /// The engine drives the wheel `dir.driven_wheel()` in this substep.
    pub gas: bool,
    /// A jump starts in this substep, in this direction.
    pub jump: Option<Direction>,
}

/// The state of the bike that the rules decide on.
#[derive(Clone, Copy, Debug)]
pub struct Bike {
    pub alive: bool,
    pub breaking: bool,
    pub dir: Direction,
    pub prev_toggle_dir: bool,
    pub jump: Option<Jump>,
}

impl Default for Direction {
    /// A bike faces right unless it is turned around.
    fn default() -> (dir: Direction)
        ensures
            dir == Direction::Right,
    {
        Direction::Right
    }
}

impl Default for Bike {
    /// A bike that is not in play: destroyed, facing right, brake open, no
    /// jump on its way.
    fn default() -> (bike: Bike)
        ensures
            !bike.alive,
            !bike.breaking,
            bike.dir == Direction::Right,
            !bike.prev_toggle_dir,
            bike.jump is None,
    {
        Bike {
            alive: false,
            breaking: false,
            dir: Direction::Right,
            prev_toggle_dir: false,
            jump: None,
        }
    }
}

impl Input {
    /// What two keys for the wheels stand for: the brake key alone brakes,
    /// the gas key alone accelerates, and with both or none the wheels coast.
    pub open spec fn wheel_of_keys(brake: bool, gas: bool) -> WheelInput {
        if brake && !gas {
            WheelInput::Brake
        } else if gas && !brake {
            WheelInput::Accelerate
        } else {
            WheelInput::Coast
        }
    }

    /// What two keys for the jump stand for: one of them alone asks for a
    /// jump its way, both or none ask for none.
    pub open spec fn jump_of_keys(left: bool, right: bool) -> Option<Direction> {
        if left && !right {
            Some(Direction::Left)
        } else if right && !left {
            Some(Direction::Right)
        } else {
            None
        }
    }

    /// The input that the keys stand for that are down in a substep: the key
    /// that turns the bike around, the two keys for the wheels and the two
    /// keys for the jump.
    pub fn from_keys(toggle_dir: bool, brake: bool, gas: bool, left: bool, right: bool) -> (input:
        Input)
        ensures
            input.toggle_dir == toggle_dir,
            input.wheel == Self::wheel_of_keys(brake, gas),
            input.jump == Self::jump_of_keys(left, right),
    {
        Input {
            toggle_dir,
            wheel: match (brake, gas) {
                (true, false) => WheelInput::Brake,
                (false, true) => WheelInput::Accelerate,
                _ => WheelInput::Coast,
            },
            jump: match (left, right) {
                (true, false) => Some(Direction::Left),
                (false, true) => Some(Direction::Right),
                _ => None,
            },
        }
    }
}

impl Direction {
    /// The opposite direction.
    pub open spec fn flipped(self) -> Direction {
        match self {
            Direction::Right => Direction::Left,
            Direction::Left => Direction::Right,
        }
    }

    /// The wheel that the engine drives when the bike faces this way: the
    /// rear one, which is wheel 0 when facing right and wheel 1 when facing
    /// left.
    pub open spec fn spec_driven_wheel(self) -> int {
        match self {
            Direction::Right => 0,
            Direction::Left => 1,
        }
    }

    /// The sense of rotation that goes with this direction: 1 for right,
    /// -1 for left.
    pub open spec fn spec_sign(self) -> int {
        match self {
            Direction::Right => 1,
            Direction::Left => -1,
        }
    }

    /// The opposite direction.
    pub fn flip(self) -> (dir: Direction)
        ensures
            dir == self.flipped(),
    {
        match self {
            Direction::Right => Direction::Left,
            Direction::Left => Direction::Right,
        }
    }

    /// The wheel that the engine drives when the bike faces this way.
    pub fn driven_wheel(self) -> (wheel: usize)
        ensures
            wheel == self.spec_driven_wheel(),
    {
        match self {
            Direction::Right => 0,
            Direction::Left => 1,
        }
    }

    /// The sense of rotation that goes with this direction.
    pub fn sign(self) -> (sign: i8)
        ensures
            sign == self.spec_sign(),
    {
        match self {
            Direction::Right => 1,
            Direction::Left => -1,
        }
    }
}

impl Bike {
    /// The facing after the rider's input: it turns around when the toggle
    /// key goes down, and only then.
    pub open spec fn facing_after(self, input: Input) -> Direction {
        if input.toggle_dir && !self.prev_toggle_dir {
            self.dir.flipped()
        } else {
            self.dir
        }
    }

    /// What the brake does under the rider's input.
    pub open spec fn brake_after(self, input: Input) -> Brake {
        if !(input.wheel is Brake) {
            Brake::Off
        } else if self.breaking {
            Brake::Hold
        } else {
            Brake::Engage
        }
    }

    /// Whether the engine drives: the rider accelerates, and the driven
    /// wheel turns slower than the top speed.
    pub open spec fn gas_after(self, input: Input, below_max_speed: Seq<bool>) -> bool {
        input.wheel is Accelerate && below_max_speed[self.facing_after(input).spec_driven_wheel()]
    }

    /// The jump that the rider's input starts: none while a jump is on its
    /// way.
    pub open spec fn jump_started(self, input: Input) -> Option<Direction> {
        if self.jump is None {
            input.jump
        } else {
            None
        }
    }

    /// The bike after [`Bike::update`].
    pub open spec fn after_update(self, input: Input) -> Bike {
        Bike {
            alive: self.alive,
            breaking: input.wheel is Brake,
            dir: self.facing_after(input),
            prev_toggle_dir: input.toggle_dir,
            jump: match self.jump_started(input) {
                Some(dir) => Some(Jump { dir }),
                None => self.jump,
            },
        }
    }

    /// What [`Bike::update`] tells the drivetrain.
    pub open spec fn controls(self, input: Input, below_max_speed: Seq<bool>) -> Controls {
        Controls {
            dir: self.facing_after(input),
            brake: self.brake_after(input),
            gas: self.gas_after(input, below_max_speed),
            jump: self.jump_started(input),
        }
    }

    /// The bike after [`Bike::advance_jump`].
    pub open spec fn after_jump_clock(self, expired: bool) -> Bike {
        Bike {
            jump: if expired {
                None
            } else {
                self.jump
            },
            ..self
        }
    }

    /// The push that [`Bike::advance_jump`] asks to take back.
    pub open spec fn jump_reversed(self, crossed: bool) -> Option<Direction> {
        match self.jump {
            Some(jump) if crossed => Some(jump.dir),
            _ => None,
        }
    }

    /// A bike at the start of an attempt: in one piece, facing right, brake
    /// open, no jump on its way.
    pub fn new() -> (bike: Bike)
        ensures
            bike.alive,
            !bike.breaking,
            bike.dir == Direction::Right,
            !bike.prev_toggle_dir,
            bike.jump is None,
    {
        Bike {
            alive: true,
            breaking: false,
            dir: Direction::Right,
            prev_toggle_dir: false,
            jump: None,
        }
    }

    /// Takes in the rider's input for one substep and decides what the
    /// drivetrain does.
    ///
    /// `below_max_speed[i]` tells whether wheel `i` turns slower than the top
    /// speed, its spin taken in the sense in which the engine drives it
    /// (`Direction::sign` of the facing under which it is the driven wheel).
    ///
    /// The facing turns around when the toggle key goes down. The brake
    /// engages when the rider starts to brake, holds while the rider keeps
    /// braking, and is open otherwise. The engine drives the rear wheel
    /// while the rider accelerates and that wheel is below the top speed. A
    /// jump starts when a jump key is down and no jump is on its way.
    pub fn update(&mut self, input: &Input, below_max_speed: [bool; 2]) -> (controls: Controls)
        ensures
            *final(self) == old(self).after_update(*input),
            controls == old(self).controls(*input, below_max_speed@),
    {
        if input.toggle_dir && !self.prev_toggle_dir {
            self.dir = self.dir.flip();
        }
        self.prev_toggle_dir = input.toggle_dir;

        let breaking = match input.wheel {
            WheelInput::Brake => true,
            _ => false,
        };
        let brake = if !breaking {
            Brake::Off
        } else if self.breaking {
            Brake::Hold
        } else {
            Brake::Engage
        };
        self.breaking = breaking;

        let gas = match input.wheel {
            WheelInput::Accelerate => below_max_speed[self.dir.driven_wheel()],
            _ => false,
        };

        let jump = match (input.jump, self.jump) {
            (Some(dir), None) => {
                self.jump = Some(Jump { dir });
                Some(dir)
            },
            _ => None,
        };

        Controls { dir: self.dir, brake, gas, jump }
    }

    /// Moves a jump along its clock.
    ///
    /// `crossed` tells that the clock has passed the end of the push in this
    /// substep, `expired` that it has passed the end of the pause that
    /// follows. When the push ends, its direction is returned, for the caller
    /// to take the push back. When the pause ends, the jump is over and the
    /// next one may start. Without a jump nothing happens.
    pub fn advance_jump(&mut self, crossed: bool, expired: bool) -> (reversed: Option<Direction>)
        ensures
            *final(self) == old(self).after_jump_clock(expired),
            reversed == old(self).jump_reversed(crossed),
    {
        match self.jump {
            Some(jump) => {
                if expired {
                    self.jump = None;
                }
                if crossed {
                    Some(jump.dir)
                } else {
                    None
                }
            },
            None => None,
        }
    }

    /// Takes in what a wheel ran into, and says whether the wheel rolls.
    ///
    /// `approaching` tells whether the wheel moves into the surface it
    /// touches. Lava destroys the bike, a wall does not. On either, a wheel
    /// that moves into the surface rolls along it from now on; a wheel that
    /// touches nothing, or moves away from what it touches, flies freely.
    pub fn wheel_contact(&mut self, contact: &Option<CollisionInfo>, approaching: bool) -> (rolls:
        bool)
        ensures
            *final(self) == (Bike {
                alive: old(self).alive && !(*contact matches Some(c) && c.tpe is Lava),
                ..*old(self)
            }),
            rolls == (*contact is Some && approaching),
    {
        match contact {
            Some(c) => {
                match c.tpe {
                    PolygonType::Lava => {
                        self.alive = false;
                    },
                    PolygonType::Wall => {},
                }
                approaching
            },
            None => false,
        }
    }

    /// Takes in what the rider's head ran into: any contact destroys the
    /// bike.
    pub fn head_contact(&mut self, contact: &Option<CollisionInfo>)
        ensures
            *final(self) == (Bike { alive: old(self).alive && *contact is None, ..*old(self) }),
    {
        if contact.is_some() {
            self.alive = false;
        }
    }
}

/// A jump starts only from rest and ends only by its clock: whatever the
/// input, a jump that is on its way goes on unchanged through
/// [`Bike::update`] and starts no other.
pub proof fn lemma_no_jump_during_jump(bike: Bike, input: Input, below_max_speed: Seq<bool>)
    requires
        bike.jump is Some,
    ensures
        bike.after_update(input).jump == bike.jump,
        bike.controls(input, below_max_speed).jump is None,
{
}

/// From rest a jump starts exactly when a jump key is down, and it leans
/// the way the key says.
pub proof fn lemma_jump_starts_on_input(bike: Bike, input: Input, below_max_speed: Seq<bool>)
    requires
        bike.jump is None,
    ensures
        bike.controls(input, below_max_speed).jump == input.jump,
        bike.after_update(input).jump is Some <==> input.jump is Some,
        input.jump matches Some(dir) ==> bike.after_update(input).jump == Some(Jump { dir }),
{
}

/// The clock never starts a jump or turns one around: after
/// [`Bike::advance_jump`] the jump is the one before, or over.
pub proof fn lemma_clock_only_ends_jump(bike: Bike, expired: bool)
    ensures
        bike.after_jump_clock(expired).jump == bike.jump || bike.after_jump_clock(expired).jump
            is None,
        bike.after_jump_clock(expired).jump is None <==> bike.jump is None || expired,
{
}

/// The facing turns around on the substep in which the toggle key goes
/// down and stays as it is while the key is held or up.
pub proof fn lemma_facing_turns_on_key_down(bike: Bike, first: Input, second: Input)
    requires
        first.toggle_dir,
        second.toggle_dir,
    ensures
        bike.after_update(first).after_update(second).dir == bike.after_update(first).dir,
        !bike.prev_toggle_dir ==> bike.after_update(first).dir == bike.dir.flipped(),
        bike.prev_toggle_dir ==> bike.after_update(first).dir == bike.dir,
{
}

/// The engine never drives a wheel that has reached the top speed, and
/// never drives unless the rider accelerates.
pub proof fn lemma_no_gas_at_top_speed(bike: Bike, input: Input, below_max_speed: Seq<bool>)
    ensures
        bike.controls(input, below_max_speed).gas ==> input.wheel is Accelerate
            && below_max_speed[bike.controls(input, below_max_speed).dir.spec_driven_wheel()],
{
}

/// Neither the rider's input nor the jump's clock puts a destroyed bike
/// back together.
pub proof fn lemma_destroyed_stays_destroyed(bike: Bike, input: Input, expired: bool)
    requires
        !bike.alive,
    ensures
        !bike.after_update(input).alive,
        !bike.after_jump_clock(expired).alive,
{
}

} // verus!
