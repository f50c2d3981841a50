//! Character definitions and the instances that play them.

use vstd::prelude::*;
use vstd::string::StringExecFns;
use vstd::utf8::encode_utf8;
use crate::base::sircle::Sircle;
use crate::base::vector2::{clamp_i64, saturating_sum, Vector2, UNIT};
use crate::client::renderer::Texture;
use crate::game::networking::CharacterInput;
use crate::game::physic::{
    AnimationFrame, AnimationState, ColisionSircle, ColisionState, Direction, HoldSize, State,
};
use crate::text::{parse_number, parse_unsigned};

verus! {

/// How far an instance moves sideways in one tick while a direction is held,
/// in hundredths of a world unit.
pub const STEP: i64 = 5;

/// The frames of a character, one sequence for each action.
#[derive(Clone, Debug)]
pub struct Animations {
    pub idling: Vec<AnimationFrame>,
    pub running: Vec<AnimationFrame>,
    pub jump: Vec<AnimationFrame>,
    pub rizing: Vec<AnimationFrame>,
    pub falling: Vec<AnimationFrame>,
    pub light_attack: Vec<AnimationFrame>,
    pub heavy_attack: Vec<AnimationFrame>,
    pub air_born_light_attack: Vec<AnimationFrame>,
    pub air_born_heavy_attack: Vec<AnimationFrame>,
}

impl Animations {
    /// The frames of the action that `state` plays.
    pub open spec fn frames(&self, state: AnimationState) -> Seq<AnimationFrame> {
        match state {
            AnimationState::Idling(_, _) => self.idling@,
            AnimationState::Running(_, _) => self.running@,
            AnimationState::Jump(_, _) => self.jump@,
            AnimationState::Rizing(_, _) => self.rizing@,
            AnimationState::Falling(_, _) => self.falling@,
            AnimationState::LightAttack(_, _) => self.light_attack@,
            AnimationState::HeavyAttack(_, _) => self.heavy_attack@,
            AnimationState::AirBornLightAttack(_, _) => self.air_born_light_attack@,
            AnimationState::AirBornHeavyAttack(_, _) => self.air_born_heavy_attack@,
        }
    }

    /// No frame for any action.
    pub fn new() -> (a: Animations)
        ensures
            forall|state: AnimationState| (#[trigger] a.frames(state)).len() == 0,
    {
        Animations {
            idling: Vec::new(),
            running: Vec::new(),
            jump: Vec::new(),
            rizing: Vec::new(),
            falling: Vec::new(),
            light_attack: Vec::new(),
            heavy_attack: Vec::new(),
            air_born_light_attack: Vec::new(),
            air_born_heavy_attack: Vec::new(),
        }
    }

    /// The animations of the built-in character: one idle frame, held for 128
    /// ticks, that can be hurt in a circle of half a unit standing on the
    /// ground and shows the placeholder picture; no frame for any other action.
    pub fn test() -> (a: Animations)
        ensures
            a.idling@.len() == 1,
            a.idling@[0].hold == 128,
            a.idling@[0].hurt_sircles@ == seq![
                ColisionSircle {
                    colision_shape: Sircle { radius: 50, position: Vector2 { x: 0, y: 50 } },
                    state: ColisionState::Vulnerable,
                },
            ],
            a.idling@[0].hit_sircles@.len() == 0,
            a.idling@[0].events@.len() == 0,
            forall|state: AnimationState|
                !(state is Idling) ==> (#[trigger] a.frames(state)).len() == 0,
    {
        let mut hurt_sircles: Vec<ColisionSircle> = Vec::new();
        hurt_sircles.push(
            ColisionSircle {
                colision_shape: Sircle { radius: 50, position: Vector2 { x: 0, y: 50 } },
                state: ColisionState::Vulnerable,
            },
        );
        let empty_frame = AnimationFrame {
            hurt_sircles,
            hit_sircles: Vec::new(),
            events: Vec::new(),
            texture: Texture::new(),
            hold: 128,
        };
        let mut idling: Vec<AnimationFrame> = Vec::new();
        idling.push(empty_frame);
        let a = Animations {
            idling,
            running: Vec::new(),
            jump: Vec::new(),
            rizing: Vec::new(),
            falling: Vec::new(),
            light_attack: Vec::new(),
            heavy_attack: Vec::new(),
            air_born_light_attack: Vec::new(),
            air_born_heavy_attack: Vec::new(),
        };
        assert(a.idling@[0].hurt_sircles@ =~= seq![
            ColisionSircle {
                colision_shape: Sircle { radius: 50, position: Vector2 { x: 0, y: 50 } },
                state: ColisionState::Vulnerable,
            },
        ]);
        a
    }

    /// The frame that `state` shows, if the action has a frame at that index.
    pub fn frame(&self, state: AnimationState) -> (frame: Option<&AnimationFrame>)
        ensures
            match frame {
                Some(f) => frame_index(state) < self.frames(state).len() && *f == self.frames(
                    state,
                )[frame_index(state) as int],
                None => frame_index(state) >= self.frames(state).len(),
            },
    {
        let (frames, index) = match state {
            AnimationState::Idling(i, _) => (&self.idling, i),
            AnimationState::Running(i, _) => (&self.running, i),
            AnimationState::Jump(i, _) => (&self.jump, i),
            AnimationState::Rizing(i, _) => (&self.rizing, i),
            AnimationState::Falling(i, _) => (&self.falling, i),
            AnimationState::LightAttack(i, _) => (&self.light_attack, i),
            AnimationState::HeavyAttack(i, _) => (&self.heavy_attack, i),
            AnimationState::AirBornLightAttack(i, _) => (&self.air_born_light_attack, i),
            AnimationState::AirBornHeavyAttack(i, _) => (&self.air_born_heavy_attack, i),
        };
        if index < frames.len() {
            Some(&frames[index])
        } else {
            None
        }
    }
}

/// The index of the frame that an animation state shows.
pub open spec fn frame_index(state: AnimationState) -> usize {
    match state {
        AnimationState::Idling(i, _) => i,
        AnimationState::Running(i, _) => i,
        AnimationState::Jump(i, _) => i,
        AnimationState::Rizing(i, _) => i,
        AnimationState::Falling(i, _) => i,
        AnimationState::LightAttack(i, _) => i,
        AnimationState::HeavyAttack(i, _) => i,
        AnimationState::AirBornLightAttack(i, _) => i,
        AnimationState::AirBornHeavyAttack(i, _) => i,
    }
}

/// A character definition: the stats and frames that every instance of the
/// character shares. Weight, acceleration and speed count hundredths.
#[derive(Clone, Debug)]
pub struct Character {
    pub id: usize,
    pub name: String,
    pub weight: i64,
    pub air_jump_count: u32,
    pub aceleration: i64,
    pub max_speed: i64,
    pub colider: Sircle,
    pub animations: Animations,
}

impl Character {
    /// The stats that every built-in definition starts from.
    pub open spec fn has_base_stats(&self) -> bool {
        &&& self.id == 0
        &&& self.name@ == Seq::<char>::empty()
        &&& self.weight == UNIT
        &&& self.air_jump_count == 1
        &&& self.aceleration == 10 * UNIT
        &&& self.max_speed == 5 * UNIT
        &&& self.colider == (Sircle { radius: 30, position: Vector2 { x: 0, y: 30 } })
    }

    /// A definition with the base stats and no frame at all.
    pub fn new() -> (c: Character)
        ensures
            c.has_base_stats(),
            forall|state: AnimationState| (#[trigger] c.animations.frames(state)).len() == 0,
    {
        Character {
            id: 0,
            name: String::new(),
            weight: UNIT,
            air_jump_count: 1,
            aceleration: 10 * UNIT,
            max_speed: 5 * UNIT,
            colider: Sircle { radius: 30, position: Vector2 { x: 0, y: 30 } },
            animations: Animations::new(),
        }
    }

    /// The built-in character with id 0: the base stats and one idle frame
    /// held for 128 ticks.
    pub fn default() -> (c: Character)
        ensures
            c.has_base_stats(),
            c.animations.idling@.len() == 1,
            c.animations.idling@[0].hold == 128,
            forall|state: AnimationState|
                !(state is Idling) ==> (#[trigger] c.animations.frames(state)).len() == 0,
    {
        Character {
            id: 0,
            name: String::new(),
            weight: UNIT,
            air_jump_count: 1,
            aceleration: 10 * UNIT,
            max_speed: 5 * UNIT,
            colider: Sircle { radius: 30, position: Vector2 { x: 0, y: 30 } },
            animations: Animations::test(),
        }
    }
}

/// The bytes of the ending that a definition file's name has.
pub open spec fn definition_suffix() -> Seq<u8> {
    seq![46u8, 106u8, 115u8, 111u8, 110u8]
}

/// The character id that a file name stands for: the name is a decimal
/// number that fits `u32`, followed by `.json`. No other name stands for one.
pub open spec fn file_character_id(name: Seq<u8>) -> Option<u32> {
    if name.len() > 5 && name.subrange(name.len() - 5, name.len() as int) == definition_suffix() {
        match parse_unsigned(name.subrange(0, name.len() - 5), u32::MAX as nat) {
            Some(id) => Some(id as u32),
            None => None,
        }
    } else {
        None
    }
}

/// Tells which character a definition file holds, by its name.
pub fn character_id_of_file(name: &str) -> (id: Option<u32>)
    ensures
        id == file_character_id(encode_utf8(name@)),
{
    let bytes = name.as_bytes();
    let n = bytes.len();
    if n <= 5 {
        return None;
    }
    if bytes[n - 5] != 46 || bytes[n - 4] != 106 || bytes[n - 3] != 115 || bytes[n - 2] != 111
        || bytes[n - 1] != 110 {
        assert(bytes@.subrange(n - 5, n as int)[0] == bytes@[n - 5]);
        assert(bytes@.subrange(n - 5, n as int)[1] == bytes@[n - 4]);
        assert(bytes@.subrange(n - 5, n as int)[2] == bytes@[n - 3]);
        assert(bytes@.subrange(n - 5, n as int)[3] == bytes@[n - 2]);
        assert(bytes@.subrange(n - 5, n as int)[4] == bytes@[n - 1]);
        return None;
    }
    assert(bytes@.subrange(n - 5, n as int) =~= definition_suffix());
    let stem = vstd::slice::slice_subrange(bytes, 0, n - 5);
    match parse_number(stem, u32::MAX as u64) {
        Some(v) => Some(v as u32),
        None => None,
    }
}

/// One entity in the world.
#[derive(Clone, Copy, Debug, PartialEq, Eq, Structural)]
pub struct CharacterInstance {
    pub character: u32,
    pub object_id: u32,
    pub position: Vector2,
    pub velocity: Vector2,
    pub direction: Direction,
    pub airborn: bool,
    pub vournable: ColisionState,
    pub state: State,
    pub damage: i64,
    pub animation: AnimationState,
    pub input: CharacterInput,
}

/// The instance that enters the world: at the origin, at rest, facing right,
/// in the air, vulnerable, free to act, unhurt, on the first idle frame and
/// with no input.
pub open spec fn fresh_instance(character: u32, id: u32) -> CharacterInstance {
    CharacterInstance {
        character,
        object_id: id,
        position: Vector2 { x: 0, y: 0 },
        velocity: Vector2 { x: 0, y: 0 },
        direction: Direction::Right,
        airborn: true,
        vournable: ColisionState::Vulnerable,
        state: State::Actionable,
        damage: 0,
        animation: AnimationState::Idling(0, 0),
        input: CharacterInput {
            dir: None,
            light_attack: false,
            heavy_attack: false,
            special: false,
            jump: false,
        },
    }
}

/// The frame after the one at `frame` in a sequence of `len` frames: the
/// next one, or the first one behind the last.
pub open spec fn next_frame(frame: usize, len: nat) -> usize {
    if frame + 1 >= len {
        0
    } else {
        (frame + 1) as usize
    }
}

/// For how many ticks an animation state has held its frame.
pub open spec fn hold_count(state: AnimationState) -> HoldSize {
    match state {
        AnimationState::Idling(_, h) => h,
        AnimationState::Running(_, h) => h,
        AnimationState::Jump(_, h) => h,
        AnimationState::Rizing(_, h) => h,
        AnimationState::Falling(_, h) => h,
        AnimationState::LightAttack(_, h) => h,
        AnimationState::HeavyAttack(_, h) => h,
        AnimationState::AirBornLightAttack(_, h) => h,
        AnimationState::AirBornHeavyAttack(_, h) => h,
    }
}

/// The same action as `state`, at the given frame and hold count.
pub open spec fn at_frame(state: AnimationState, frame: usize, hold: HoldSize) -> AnimationState {
    match state {
        AnimationState::Idling(_, _) => AnimationState::Idling(frame, hold),
        AnimationState::Running(_, _) => AnimationState::Running(frame, hold),
        AnimationState::Jump(_, _) => AnimationState::Jump(frame, hold),
        AnimationState::Rizing(_, _) => AnimationState::Rizing(frame, hold),
        AnimationState::Falling(_, _) => AnimationState::Falling(frame, hold),
        AnimationState::LightAttack(_, _) => AnimationState::LightAttack(frame, hold),
        AnimationState::HeavyAttack(_, _) => AnimationState::HeavyAttack(frame, hold),
        AnimationState::AirBornLightAttack(_, _) => AnimationState::AirBornLightAttack(
            frame,
            hold,
        ),
        AnimationState::AirBornHeavyAttack(_, _) => AnimationState::AirBornHeavyAttack(
            frame,
            hold,
        ),
    }
}

/// One tick of an animation, whatever the action, against the frames of
/// that action. A frame that has been held for its hold duration gives way
/// to the next frame, the last one to the first; before that its hold count
/// goes up by one. An index at which the action has no frame falls back to
/// the first frame. The action stays the same.
pub open spec fn next_animation(animation: AnimationState, frames: Animations) -> AnimationState {
    let list = frames.frames(animation);
    let frame = frame_index(animation);
    let hold = hold_count(animation);
    if frame >= list.len() {
        at_frame(animation, 0, 0)
    } else if hold >= list[frame as int].hold {
        at_frame(animation, next_frame(frame, list.len()), 0)
    } else {
        at_frame(animation, frame, (hold + 1) as HoldSize)
    }
}

/// The animation after `ticks` ticks.
pub open spec fn animation_after(animation: AnimationState, frames: Animations, ticks: nat)
    -> AnimationState
    decreases ticks,
{
    if ticks == 0 {
        animation
    } else {
        next_animation(animation_after(animation, frames, (ticks - 1) as nat), frames)
    }
}

impl CharacterInstance {
    /// A fresh instance of `character` with the given id.
    pub fn new(character: u32, id: u32) -> (instance: CharacterInstance)
        ensures
            instance == fresh_instance(character, id),
    {
        CharacterInstance {
            character,
            object_id: id,
            position: Vector2 { x: 0, y: 0 },
            velocity: Vector2 { x: 0, y: 0 },
            direction: Direction::Right,
            airborn: true,
            vournable: ColisionState::Vulnerable,
            state: State::Actionable,
            damage: 0,
            animation: AnimationState::Idling(0, 0),
            input: CharacterInput::new(),
        }
    }

    /// The instance back at the origin, at rest, on the first idle frame.
    pub open spec fn restarted(self) -> CharacterInstance {
        CharacterInstance {
            animation: AnimationState::Idling(0, 0),
            position: Vector2 { x: 0, y: 0 },
            velocity: Vector2 { x: 0, y: 0 },
            ..self
        }
    }

    /// Puts the instance back at the origin, at rest, on the first idle frame.
    pub fn reset(&mut self)
        ensures
            *final(self) == old(self).restarted(),
    {
        self.animation = AnimationState::Idling(0, 0);
        self.position = Vector2 { x: 0, y: 0 };
        self.velocity = Vector2 { x: 0, y: 0 };
    }

    /// The instance after its animation has gone on by one tick.
    pub open spec fn animated(self, sheet: Character) -> CharacterInstance {
        CharacterInstance { animation: next_animation(self.animation, sheet.animations), ..self }
    }

    /// The instance after its input has moved it: a held direction turns it
    /// that way and shifts it by one step, as far as `i64` reaches.
    pub open spec fn moved(self) -> CharacterInstance {
        match self.input.dir {
            Some(dir) => CharacterInstance {
                direction: dir,
                position: Vector2 {
                    x: clamp_i64(self.position.x + dir.sign_of() * STEP) as i64,
                    y: self.position.y,
                },
                ..self
            },
            None => self,
        }
    }

    /// The instance one tick later.
    pub open spec fn stepped(self, sheet: Character) -> CharacterInstance {
        self.animated(sheet).moved()
    }

    /// The instance `ticks` ticks later, its input unchanged all the while.
    pub open spec fn stepped_by(self, sheet: Character, ticks: nat) -> CharacterInstance
        decreases ticks,
    {
        if ticks == 0 {
            self
        } else {
            self.stepped_by(sheet, (ticks - 1) as nat).stepped(sheet)
        }
    }

    /// Advances the instance by one tick: first its animation, then its place.
    pub fn update(&mut self, char_sheet: &Character)
        ensures
            *final(self) == old(self).stepped(*char_sheet),
    {
        self.update_animation(char_sheet);
        match self.input.dir {
            Some(dir) => {
                self.direction = dir;
                match dir {
                    Direction::Left => {
                        self.position.x = saturating_sum(self.position.x, -STEP);
                    },
                    Direction::Right => {
                        self.position.x = saturating_sum(self.position.x, STEP);
                    },
                }
            },
            None => {},
        }
    }

    /// Advances the animation by one tick.
    pub fn update_animation(&mut self, character: &Character)
        ensures
            *final(self) == old(self).animated(*character),
    {
        let anim = &character.animations;
        let (list, frame, hold) = match self.animation {
            AnimationState::Idling(f, h) => (&anim.idling, f, h),
            AnimationState::Running(f, h) => (&anim.running, f, h),
            AnimationState::Jump(f, h) => (&anim.jump, f, h),
            AnimationState::Rizing(f, h) => (&anim.rizing, f, h),
            AnimationState::Falling(f, h) => (&anim.falling, f, h),
            AnimationState::LightAttack(f, h) => (&anim.light_attack, f, h),
            AnimationState::HeavyAttack(f, h) => (&anim.heavy_attack, f, h),
            AnimationState::AirBornLightAttack(f, h) => (&anim.air_born_light_attack, f, h),
            AnimationState::AirBornHeavyAttack(f, h) => (&anim.air_born_heavy_attack, f, h),
        };
        let (frame, hold) = if frame >= list.len() {
            (0, 0)
        } else if hold >= list[frame].hold {
            if frame + 1 >= list.len() {
                (0, 0)
            } else {
                (frame + 1, 0)
            }
        } else {
            (frame, hold + 1)
        };
        self.animation = same_action(self.animation, frame, hold);
    }
}

/// The same action as `state`, at the given frame and hold count.
fn same_action(state: AnimationState, frame: usize, hold: HoldSize) -> (moved: AnimationState)
    ensures
        moved == at_frame(state, frame, hold),
{
    match state {
        AnimationState::Idling(_, _) => AnimationState::Idling(frame, hold),
        AnimationState::Running(_, _) => AnimationState::Running(frame, hold),
        AnimationState::Jump(_, _) => AnimationState::Jump(frame, hold),
        AnimationState::Rizing(_, _) => AnimationState::Rizing(frame, hold),
        AnimationState::Falling(_, _) => AnimationState::Falling(frame, hold),
        AnimationState::LightAttack(_, _) => AnimationState::LightAttack(frame, hold),
        AnimationState::HeavyAttack(_, _) => AnimationState::HeavyAttack(frame, hold),
        AnimationState::AirBornLightAttack(_, _) => AnimationState::AirBornLightAttack(
            frame,
            hold,
        ),
        AnimationState::AirBornHeavyAttack(_, _) => AnimationState::AirBornHeavyAttack(
            frame,
            hold,
        ),
    }
}

/// A frame holds for its hold duration: an animation of any action that has
/// just entered a frame shows it for the next `hold` ticks, counting up, and
/// moves on to the following frame, or from the last frame to the first, on
/// the tick after. It never shows an index at which its action has no frame.
pub proof fn lemma_frame_is_held(frames: Animations, start: AnimationState, ticks: nat)
    requires
        frame_index(start) < frames.frames(start).len(),
        hold_count(start) == 0,
        ticks <= frames.frames(start)[frame_index(start) as int].hold + 1,
    ensures
        animation_after(start, frames, ticks) == if ticks <= frames.frames(start)[frame_index(
            start,
        ) as int].hold {
            at_frame(start, frame_index(start), ticks as HoldSize)
        } else {
            at_frame(start, next_frame(frame_index(start), frames.frames(start).len()), 0)
        },
        frames.frames(animation_after(start, frames, ticks)) == frames.frames(start),
        frame_index(animation_after(start, frames, ticks)) < frames.frames(start).len(),
    decreases ticks,
{
    if ticks > 0 {
        lemma_frame_is_held(frames, start, (ticks - 1) as nat);
    }
}

/// Displacement is linear: while one direction is held and the place stays
/// within reach of `i64`, `ticks` ticks shift an instance by `ticks` steps,
/// and change nothing else about where it is.
pub proof fn lemma_linear_displacement(
    instance: CharacterInstance,
    sheet: Character,
    dir: Direction,
    ticks: nat,
)
    requires
        instance.input.dir == Some(dir),
        i64::MIN <= instance.position.x + ticks * STEP * dir.sign_of() <= i64::MAX,
    ensures
        instance.stepped_by(sheet, ticks).position.x == instance.position.x + ticks * STEP
            * dir.sign_of(),
        instance.stepped_by(sheet, ticks).position.y == instance.position.y,
        instance.stepped_by(sheet, ticks).input == instance.input,
        ticks > 0 ==> instance.stepped_by(sheet, ticks).direction == dir,
    decreases ticks,
{
    if ticks > 0 {
        let before = (ticks - 1) as nat;
        assert(i64::MIN <= instance.position.x + before * STEP * dir.sign_of() <= i64::MAX) by {
            assert(before * STEP * dir.sign_of() == ticks * STEP * dir.sign_of() - STEP
                * dir.sign_of()) by (nonlinear_arith)
                requires
                    before == ticks - 1,
            ;
        }
        lemma_linear_displacement(instance, sheet, dir, before);
        assert(ticks * STEP * dir.sign_of() == before * STEP * dir.sign_of() + STEP
            * dir.sign_of()) by (nonlinear_arith)
            requires
                before == ticks - 1,
        ;
    }
}

} // verus!
