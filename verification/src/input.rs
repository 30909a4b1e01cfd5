//! The discrete part of player control: which keys steer the camera or the
//! player, the movement keys held, jumping, and how deep the player stands
//! in water.

use vstd::prelude::*;
use crate::types::{CONTENTS_EMPTY, CONTENTS_WATER};

verus! {

/// The keys the game reacts to.
#[derive(Clone, Copy, Debug, PartialEq, Eq, Structural)]
pub enum Key {
    W,
    A,
    S,
    D,
    F,
    G,
    Space,
    Other,
}

/// Whether a key went down or up.
#[derive(Clone, Copy, Debug, PartialEq, Eq, Structural)]
pub enum KeyState {
    Pressed,
    Released,
}

/// Where a key event goes.
#[derive(Clone, Copy, Debug, PartialEq, Eq)]
pub struct Routing {
    /// Whether the free-flying camera is active after the event.
    pub noclip: bool,
    /// Whether the player is to be moved to the camera's position.
    pub snap_to_camera: bool,
    /// Whether the key goes to the camera controller (else to the player).
    pub to_camera: bool,
}

/// Decides where a key event goes: F switches to the free camera, G back to
/// the player (moving it to the camera); the key then goes to whichever of
/// the two is active.
pub fn route_key(noclip: bool, key: Key, state: KeyState) -> (r: Routing)
    ensures
        r.noclip == (if state == KeyState::Pressed && key == Key::F {
            true
        } else if state == KeyState::Pressed && key == Key::G {
            false
        } else {
            noclip
        }),
        r.snap_to_camera == (state == KeyState::Pressed && key == Key::G),
        r.to_camera == r.noclip,
{
    let mut nc = noclip;
    let mut snap = false;
    if state == KeyState::Pressed {
        if key == Key::F {
            nc = true;
        }
        if key == Key::G {
            nc = false;
            snap = true;
        }
    }
    Routing { noclip: nc, snap_to_camera: snap, to_camera: nc }
}

/// The movement bit of the jump button.
pub const BUTTON_JUMP: i32 = 2;

/// Vertical speed given by a jump from the ground.
pub const JUMP_VELOCITY: i32 = 270;

/// Vertical speed given when swimming up.
pub const SWIM_UP_VELOCITY: i32 = 100;

/// The points at which the water depth of the player is probed, from the
/// feet up.
#[derive(Clone, Copy, Debug, PartialEq, Eq, Structural)]
pub enum WaterProbe {
    Feet,
    Waist,
    Eyes,
}

/// The water level reached when the contents at `p` are a liquid.
pub open spec fn probe_level(p: WaterProbe) -> i32 {
    match p {
        WaterProbe::Feet => 1,
        WaterProbe::Waist => 2,
        WaterProbe::Eyes => 3,
    }
}

/// The probe after `p`, if any.
pub open spec fn next_probe(p: WaterProbe) -> Option<WaterProbe> {
    match p {
        WaterProbe::Feet => Some(WaterProbe::Waist),
        WaterProbe::Waist => Some(WaterProbe::Eyes),
        WaterProbe::Eyes => None,
    }
}

/// The discrete state of the player.
#[derive(Clone, Copy, Debug, PartialEq, Eq)]
pub struct PlayerControl {
    /// Forward movement held: 1 forward (W), -1 backward (S), 0 none.
    pub forward: i32,
    /// Sideways movement held: 1 right (D), -1 left (A), 0 none.
    pub side: i32,
    /// Button bits (`BUTTON_JUMP`).
    pub movement: i32,
    /// The entity the player stands on, or -1 in the air.
    pub on_ground: i32,
    /// 0 dry, 1 feet, 2 waist, 3 eyes under a liquid.
    pub water_level: i32,
    /// The contents at the feet when in a liquid.
    pub water_type: i32,
}

impl PlayerControl {
    /// The state is one the controls can reach: each axis at rest or
    /// pointing one way, and a water level from 0 (dry) to 3 (eyes under).
    pub open spec fn well_formed(self) -> bool {
        &&& -1 <= self.forward <= 1
        &&& -1 <= self.side <= 1
        &&& 0 <= self.water_level <= 3
    }
}

/// The new value of an axis after a key of direction `dir` (1 or -1) goes
/// down or up: pressing sets the direction, releasing clears it only when
/// the axis still points that way.
pub open spec fn axis_after(axis: i32, dir: i32, state: KeyState) -> i32 {
    if state == KeyState::Pressed {
        dir
    } else if (dir > 0 && axis > 0) || (dir < 0 && axis < 0) {
        0
    } else {
        axis
    }
}

/// The state after key `key` goes down or up.
pub open spec fn spec_after_key(p: PlayerControl, key: Key, state: KeyState) -> PlayerControl {
    match key {
        Key::W => PlayerControl { forward: axis_after(p.forward, 1, state), ..p },
        Key::S => PlayerControl { forward: axis_after(p.forward, -1i32, state), ..p },
        Key::A => PlayerControl { side: axis_after(p.side, -1i32, state), ..p },
        Key::D => PlayerControl { side: axis_after(p.side, 1, state), ..p },
        Key::Space => PlayerControl {
            movement: if state == KeyState::Pressed {
                p.movement | BUTTON_JUMP
            } else {
                p.movement & !BUTTON_JUMP
            },
            ..p
        },
        _ => p,
    }
}

/// The state after swimming up or jumping: off the ground.
pub open spec fn lifted(p: PlayerControl) -> PlayerControl {
    PlayerControl { on_ground: -1i32, ..p }
}

/// The state after a jump from the ground: off the ground, button held.
pub open spec fn jumped(p: PlayerControl) -> PlayerControl {
    PlayerControl { on_ground: -1i32, movement: p.movement | BUTTON_JUMP, ..p }
}

/// The state when a water measurement starts.
pub open spec fn water_reset(p: PlayerControl) -> PlayerControl {
    PlayerControl { water_level: 0, water_type: CONTENTS_WATER, ..p }
}

/// The state after liquid was found at `probe` with contents `contents`.
pub open spec fn in_liquid(p: PlayerControl, probe: WaterProbe, contents: i32) -> PlayerControl {
    PlayerControl {
        water_level: probe_level(probe),
        water_type: if probe == WaterProbe::Feet {
            contents
        } else {
            p.water_type
        },
        ..p
    }
}

/// The vertical speed given and the state after the jump step of a
/// movement frame: nothing unless the jump button is held; then a swim up
/// in deep water, a jump from the ground, and nothing in the air.
pub open spec fn spec_jump_if_held(p: PlayerControl) -> (Option<i32>, PlayerControl) {
    if p.movement & BUTTON_JUMP == 0 {
        (None, p)
    } else if p.water_level >= 2 {
        (Some(SWIM_UP_VELOCITY), lifted(p))
    } else if p.on_ground == -1 {
        (None, p)
    } else {
        (Some(JUMP_VELOCITY), lifted(p))
    }
}

fn axis_update(axis: i32, dir: i32, state: KeyState) -> (r: i32)
    ensures
        r == axis_after(axis, dir, state),
{
    if state == KeyState::Pressed {
        dir
    } else if (dir > 0 && axis > 0) || (dir < 0 && axis < 0) {
        0
    } else {
        axis
    }
}

impl PlayerControl {
    /// A player standing nowhere, dry, with no key held.
    pub fn new() -> (r: PlayerControl)
        ensures
            r.forward == 0 && r.side == 0 && r.movement == 0,
            r.on_ground == -1,
            r.water_level == 0,
            r.water_type == CONTENTS_EMPTY,
            r.well_formed(),
    {
        PlayerControl {
            forward: 0,
            side: 0,
            movement: 0,
            on_ground: -1,
            water_level: 0,
            water_type: CONTENTS_EMPTY,
        }
    }

    /// Applies a key event: W/S steer forward and back, A/D left and right,
    /// Space holds the jump button.
    pub fn process_keyboard(&mut self, key: Key, state: KeyState)
        ensures
            *final(self) == spec_after_key(*old(self), key, state),
            old(self).well_formed() ==> final(self).well_formed(),
    {
        match key {
            Key::W => {
                self.forward = axis_update(self.forward, 1, state);
            },
            Key::S => {
                self.forward = axis_update(self.forward, -1, state);
            },
            Key::A => {
                self.side = axis_update(self.side, -1, state);
            },
            Key::D => {
                self.side = axis_update(self.side, 1, state);
            },
            Key::Space => {
                if state == KeyState::Pressed {
                    self.movement = self.movement | BUTTON_JUMP;
                } else {
                    self.movement = self.movement & !BUTTON_JUMP;
                }
            },
            _ => {},
        }
    }

    /// The jump button: in deep water the player swims up; on the ground it
    /// jumps; in the air nothing happens. Returns the vertical speed to give
    /// the player, if any.
    pub fn jump_button(&mut self) -> (r: Option<i32>)
        ensures
            old(self).water_level >= 2 ==> r == Some(SWIM_UP_VELOCITY) && *final(self) == lifted(
                *old(self),
            ),
            old(self).water_level < 2 && old(self).on_ground == -1 ==> r == None::<i32> && *final(self) == *old(self),
            old(self).water_level < 2 && old(self).on_ground != -1 ==> r == Some(JUMP_VELOCITY)
                && *final(self) == jumped(*old(self)),
            old(self).well_formed() ==> final(self).well_formed(),
    {
        if self.water_level >= 2 {
            self.on_ground = -1;
            return Some(SWIM_UP_VELOCITY);
        }
        if self.on_ground == -1 {
            return None;
        }
        self.on_ground = -1;
        self.movement = self.movement | BUTTON_JUMP;
        Some(JUMP_VELOCITY)
    }

    /// The jump step of a movement frame: the jump button acts while it is
    /// held.
    pub fn jump_if_held(&mut self) -> (r: Option<i32>)
        ensures
            (r, *final(self)) == spec_jump_if_held(*old(self)),
            old(self).well_formed() ==> final(self).well_formed(),
    {
        if self.movement & BUTTON_JUMP != 0 {
            let ghost m = self.movement;
            assert(m & 2 != 0 ==> m | 2 == m) by (bit_vector);
            self.jump_button()
        } else {
            let ghost m = self.movement;
            assert(m & 2 == 0 ==> m & !2i32 == m) by (bit_vector);
            self.movement = self.movement & !BUTTON_JUMP;
            None
        }
    }

    /// Starts measuring the water depth: dry until a probe finds liquid.
    /// Returns the first point to probe.
    pub fn begin_water_check(&mut self) -> (r: WaterProbe)
        ensures
            r == WaterProbe::Feet,
            *final(self) == water_reset(*old(self)),
            old(self).well_formed() ==> final(self).well_formed(),
    {
        self.water_level = 0;
        self.water_type = CONTENTS_WATER;
        WaterProbe::Feet
    }

    /// Takes the contents found at `probe`. A liquid there raises the water
    /// level to that probe (the contents at the feet give the liquid's type)
    /// and asks for the next probe; anything else ends the measurement.
    pub fn water_check_step(&mut self, probe: WaterProbe, contents: i32) -> (r: Option<WaterProbe>)
        ensures
            contents <= CONTENTS_WATER ==> r == next_probe(probe) && *final(self) == in_liquid(
                *old(self),
                probe,
                contents,
            ),
            contents > CONTENTS_WATER ==> r == None::<WaterProbe> && *final(self) == *old(self),
            old(self).well_formed() ==> final(self).well_formed(),
    {
        if contents <= CONTENTS_WATER {
            match probe {
                WaterProbe::Feet => {
                    self.water_type = contents;
                    self.water_level = 1;
                    Some(WaterProbe::Waist)
                },
                WaterProbe::Waist => {
                    self.water_level = 2;
                    Some(WaterProbe::Eyes)
                },
                WaterProbe::Eyes => {
                    self.water_level = 3;
                    None
                },
            }
        } else {
            None
        }
    }
}

/// Pressing a key and releasing it again undoes the press: a movement key
/// leaves its axis at rest, the jump key clears the jump bit and keeps the
/// other button bits, and any other key changes nothing.
pub proof fn lemma_press_release(p: PlayerControl, key: Key)
    ensures
        ({
            let q = spec_after_key(spec_after_key(p, key, KeyState::Pressed), key, KeyState::Released);
            &&& (key == Key::W || key == Key::S) ==> q == (PlayerControl { forward: 0, ..p })
            &&& (key == Key::A || key == Key::D) ==> q == (PlayerControl { side: 0, ..p })
            &&& key == Key::Space ==> q == (PlayerControl { movement: p.movement & !BUTTON_JUMP, ..p })
            &&& (key != Key::W && key != Key::S && key != Key::A && key != Key::D && key != Key::Space)
                ==> q == p
        }),
{
    let m = p.movement;
    assert((m | 2i32) & !2i32 == m & !2i32) by (bit_vector);
}

/// Holding the jump button out of deep water jumps once: the jump leaves
/// the ground, so the next jump step does nothing until the player is
/// standing again.
pub proof fn lemma_one_jump_per_landing(p: PlayerControl)
    requires
        p.water_level < 2,
    ensures
        spec_jump_if_held(spec_jump_if_held(p).1).0 == None::<i32>,
        spec_jump_if_held(spec_jump_if_held(p).1).1 == spec_jump_if_held(p).1,
{
}

/// The state after a whole water measurement from `p`: `begin_water_check`,
/// then `water_check_step` at the feet, the waist and the eyes with the
/// contents found there, each probe taken only while the ones below it found
/// liquid.
pub open spec fn measured(p: PlayerControl, feet: i32, waist: i32, eyes: i32) -> PlayerControl {
    let q = water_reset(p);
    if feet > CONTENTS_WATER {
        q
    } else {
        let q1 = in_liquid(q, WaterProbe::Feet, feet);
        if waist > CONTENTS_WATER {
            q1
        } else {
            let q2 = in_liquid(q1, WaterProbe::Waist, waist);
            if eyes > CONTENTS_WATER {
                q2
            } else {
                in_liquid(q2, WaterProbe::Eyes, eyes)
            }
        }
    }
}

/// A water measurement counts the probe points, from the feet up, that are
/// in a liquid, and takes the liquid's type at the feet; it changes nothing
/// else.
pub proof fn lemma_water_level_counts_probes(p: PlayerControl, feet: i32, waist: i32, eyes: i32)
    ensures
        ({
            let q = measured(p, feet, waist, eyes);
            &&& q.water_level == (if feet > CONTENTS_WATER {
                0i32
            } else if waist > CONTENTS_WATER {
                1i32
            } else if eyes > CONTENTS_WATER {
                2i32
            } else {
                3i32
            })
            &&& q.water_type == (if feet > CONTENTS_WATER {
                CONTENTS_WATER
            } else {
                feet
            })
            &&& q == (PlayerControl { water_level: q.water_level, water_type: q.water_type, ..p })
        }),
{
}

/// What each movement key does, whatever the state: pressing W, S, A or D
/// points its axis its way (forward, back, left, right); releasing it
/// brings the axis to rest only while the axis still points that way, so
/// releasing a key keeps the movement of the opposite key still held.
/// Nothing else in the state changes.
pub proof fn lemma_movement_keys(p: PlayerControl)
    ensures
        spec_after_key(p, Key::W, KeyState::Pressed) == (PlayerControl { forward: 1, ..p }),
        spec_after_key(p, Key::S, KeyState::Pressed) == (PlayerControl { forward: -1i32, ..p }),
        spec_after_key(p, Key::A, KeyState::Pressed) == (PlayerControl { side: -1i32, ..p }),
        spec_after_key(p, Key::D, KeyState::Pressed) == (PlayerControl { side: 1, ..p }),
        spec_after_key(p, Key::W, KeyState::Released) == (PlayerControl {
            forward: if p.forward > 0 { 0 } else { p.forward },
            ..p
        }),
        spec_after_key(p, Key::S, KeyState::Released) == (PlayerControl {
            forward: if p.forward < 0 { 0 } else { p.forward },
            ..p
        }),
        spec_after_key(p, Key::A, KeyState::Released) == (PlayerControl {
            side: if p.side < 0 { 0 } else { p.side },
            ..p
        }),
        spec_after_key(p, Key::D, KeyState::Released) == (PlayerControl {
            side: if p.side > 0 { 0 } else { p.side },
            ..p
        }),
{
}

/// Holding two opposite keys: the one pressed last steers, and releasing
/// the other one keeps it steering.
pub proof fn lemma_opposite_keys(p: PlayerControl)
    ensures
        ({
            let q = spec_after_key(spec_after_key(p, Key::A, KeyState::Pressed), Key::D, KeyState::Pressed);
            &&& q.side == 1
            &&& spec_after_key(q, Key::A, KeyState::Released).side == 1
        }),
        ({
            let q = spec_after_key(spec_after_key(p, Key::D, KeyState::Pressed), Key::A, KeyState::Pressed);
            &&& q.side == -1
            &&& spec_after_key(q, Key::D, KeyState::Released).side == -1
        }),
        ({
            let q = spec_after_key(spec_after_key(p, Key::W, KeyState::Pressed), Key::S, KeyState::Pressed);
            &&& q.forward == -1
            &&& spec_after_key(q, Key::W, KeyState::Released).forward == -1
        }),
        ({
            let q = spec_after_key(spec_after_key(p, Key::S, KeyState::Pressed), Key::W, KeyState::Pressed);
            &&& q.forward == 1
            &&& spec_after_key(q, Key::S, KeyState::Released).forward == 1
        }),
{
}

/// The jump key holds the jump bit: pressing it sets the bit, releasing it
/// clears it, and the other button bits are kept either way.
pub proof fn lemma_jump_key(p: PlayerControl)
    ensures
        spec_after_key(p, Key::Space, KeyState::Pressed).movement & BUTTON_JUMP == BUTTON_JUMP,
        spec_after_key(p, Key::Space, KeyState::Released).movement & BUTTON_JUMP == 0,
        spec_after_key(p, Key::Space, KeyState::Pressed).movement & !BUTTON_JUMP == p.movement
            & !BUTTON_JUMP,
        spec_after_key(p, Key::Space, KeyState::Released).movement & !BUTTON_JUMP == p.movement
            & !BUTTON_JUMP,
        spec_after_key(p, Key::Space, KeyState::Pressed) == (PlayerControl {
            movement: spec_after_key(p, Key::Space, KeyState::Pressed).movement,
            ..p
        }),
        spec_after_key(p, Key::Space, KeyState::Released) == (PlayerControl {
            movement: spec_after_key(p, Key::Space, KeyState::Released).movement,
            ..p
        }),
{
    let m = p.movement;
    let a = spec_after_key(p, Key::Space, KeyState::Pressed).movement;
    let r = spec_after_key(p, Key::Space, KeyState::Released).movement;
    assert(a == m | 2i32);
    assert(r == m & !2i32);
    assert((m | 2i32) & 2i32 == 2i32) by (bit_vector);
    assert((m & !2i32) & 2i32 == 0i32) by (bit_vector);
    assert((m | 2i32) & !2i32 == m & !2i32) by (bit_vector);
    assert((m & !2i32) & !2i32 == m & !2i32) by (bit_vector);
}

} // verus!
