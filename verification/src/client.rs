//! The player's side: how key strokes become the input record and the
//! requests that are sent to the server.

pub mod renderer;

use vstd::prelude::*;
use vstd::string::StringExecFns;
use crate::game::networking::{
    CharacterInput, CharacterSwitchRequest, GameControlPacket, JoinRequest,
};
use crate::game::physic::Direction;

verus! {

/// What a key stands for.
#[derive(Clone, Copy, Debug, PartialEq, Eq, Structural)]
pub enum InputEvents {
    Jump,
    Left,
    Right,
    Light,
    Heavy,
    Special,
    Switch(Option<u32>),
    Quit,
}

/// The keys that the game knows, and one for all the others.
#[derive(Clone, Copy, Debug, PartialEq, Eq, Structural)]
pub enum Key {
    KeyA,
    ArrowLeft,
    KeyD,
    ArrowRight,
    KeyW,
    KeyC,
    KeyX,
    KeyZ,
    ArrowDown,
    Escape,
    Backspace,
    Digit0,
    Digit1,
    Other,
}

/// What each key stands for.
pub open spec fn bound_to(key: Key) -> Option<InputEvents> {
    match key {
        Key::KeyA | Key::ArrowLeft => Some(InputEvents::Left),
        Key::KeyD | Key::ArrowRight => Some(InputEvents::Right),
        Key::KeyW | Key::KeyC => Some(InputEvents::Jump),
        Key::KeyX => Some(InputEvents::Light),
        Key::KeyZ => Some(InputEvents::Heavy),
        Key::ArrowDown => Some(InputEvents::Special),
        Key::Escape => Some(InputEvents::Quit),
        Key::Backspace => Some(InputEvents::Switch(None)),
        Key::Digit0 => Some(InputEvents::Switch(Some(0))),
        Key::Digit1 => Some(InputEvents::Switch(Some(1))),
        Key::Other => None,
    }
}

/// Tells what a key stands for.
pub fn binding(key: Key) -> (event: Option<InputEvents>)
    ensures
        event == bound_to(key),
{
    match key {
        Key::KeyA | Key::ArrowLeft => Some(InputEvents::Left),
        Key::KeyD | Key::ArrowRight => Some(InputEvents::Right),
        Key::KeyW | Key::KeyC => Some(InputEvents::Jump),
        Key::KeyX => Some(InputEvents::Light),
        Key::KeyZ => Some(InputEvents::Heavy),
        Key::ArrowDown => Some(InputEvents::Special),
        Key::Escape => Some(InputEvents::Quit),
        Key::Backspace => Some(InputEvents::Switch(None)),
        Key::Digit0 => Some(InputEvents::Switch(Some(0))),
        Key::Digit1 => Some(InputEvents::Switch(Some(1))),
        Key::Other => None,
    }
}

/// What the client sends next.
#[derive(Clone, Copy, Debug, PartialEq, Eq, Structural)]
pub enum InputTypeEvent {
    Normal,
    CharacterSwitch(Option<u32>),
    Join,
    Quit,
}

/// The state of the keys: the input record they add up to, which of the two
/// direction keys are down, and what is sent next.
#[derive(Clone, Copy, Debug, PartialEq, Eq, Structural)]
pub struct Controls {
    pub input: CharacterInput,
    pub left: bool,
    pub right: bool,
    pub pending: InputTypeEvent,
}

impl Controls {
    /// The controls after a key stroke. A button is down while its key is.
    /// A direction key that goes down sets the direction; one that goes up
    /// hands the direction to the other key if that is down, and to nothing
    /// if not. A switch key that goes down asks for a character switch, the
    /// quit key for the end, whichever way it goes.
    pub open spec fn after_key(self, event: InputEvents, pressed: bool) -> Controls {
        match event {
            InputEvents::Jump => Controls {
                input: CharacterInput { jump: pressed, ..self.input },
                ..self
            },
            InputEvents::Special => Controls {
                input: CharacterInput { special: pressed, ..self.input },
                ..self
            },
            InputEvents::Heavy => Controls {
                input: CharacterInput { heavy_attack: pressed, ..self.input },
                ..self
            },
            InputEvents::Light => Controls {
                input: CharacterInput { light_attack: pressed, ..self.input },
                ..self
            },
            InputEvents::Left => if pressed {
                Controls {
                    input: CharacterInput { dir: Some(Direction::Left), ..self.input },
                    left: true,
                    ..self
                }
            } else {
                Controls {
                    input: CharacterInput {
                        dir: if self.right {
                            Some(Direction::Right)
                        } else {
                            None
                        },
                        ..self.input
                    },
                    left: false,
                    ..self
                }
            },
            InputEvents::Right => if pressed {
                Controls {
                    input: CharacterInput { dir: Some(Direction::Right), ..self.input },
                    right: true,
                    ..self
                }
            } else {
                Controls {
                    input: CharacterInput {
                        dir: if self.left {
                            Some(Direction::Left)
                        } else {
                            None
                        },
                        ..self.input
                    },
                    right: false,
                    ..self
                }
            },
            InputEvents::Switch(target) => if pressed {
                Controls { pending: InputTypeEvent::CharacterSwitch(target), ..self }
            } else {
                self
            },
            InputEvents::Quit => Controls { pending: InputTypeEvent::Quit, ..self },
        }
    }

    /// No key down, and a join to be sent first.
    pub fn new() -> (controls: Controls)
        ensures
            controls == (Controls {
                input: CharacterInput {
                    dir: None,
                    light_attack: false,
                    heavy_attack: false,
                    special: false,
                    jump: false,
                },
                left: false,
                right: false,
                pending: InputTypeEvent::Join,
            }),
    {
        Controls {
            input: CharacterInput::new(),
            left: false,
            right: false,
            pending: InputTypeEvent::Join,
        }
    }

    /// Takes in one key stroke.
    pub fn key(&mut self, event: InputEvents, pressed: bool)
        ensures
            *final(self) == old(self).after_key(event, pressed),
    {
        match event {
            InputEvents::Jump => {
                self.input.jump = pressed;
            },
            InputEvents::Special => {
                self.input.special = pressed;
            },
            InputEvents::Heavy => {
                self.input.heavy_attack = pressed;
            },
            InputEvents::Light => {
                self.input.light_attack = pressed;
            },
            InputEvents::Left => {
                if pressed {
                    self.input.dir = Some(Direction::Left);
                    self.left = true;
                } else {
                    self.left = false;
                    if self.right {
                        self.input.dir = Some(Direction::Right);
                    } else {
                        self.input.dir = Option::None;
                    }
                }
            },
            InputEvents::Right => {
                if pressed {
                    self.input.dir = Some(Direction::Right);
                    self.right = true;
                } else {
                    self.right = false;
                    if self.left {
                        self.input.dir = Some(Direction::Left);
                    } else {
                        self.input.dir = Option::None;
                    }
                }
            },
            InputEvents::Switch(target) => {
                if pressed {
                    self.pending = InputTypeEvent::CharacterSwitch(target);
                }
            },
            InputEvents::Quit => {
                self.pending = InputTypeEvent::Quit;
            },
        }
    }

    /// Hands out what is to be sent now; after it, plain input is next.
    pub fn take_pending(&mut self) -> (now: InputTypeEvent)
        ensures
            now == old(self).pending,
            *final(self) == (Controls { pending: InputTypeEvent::Normal, ..*old(self) }),
    {
        let now = self.pending;
        self.pending = InputTypeEvent::Normal;
        now
    }
}

/// A request on its way to the server.
pub enum Outgoing {
    Control(GameControlPacket),
    Switch(CharacterSwitchRequest),
    Join(JoinRequest),
    Quit,
}

/// Who plays, and where: the player's name, the server's password and
/// address, and the time between two requests in milliseconds.
pub struct Client {
    pub name: String,
    pub password: String,
    pub addres: String,
    pub refresh_rate: u32,
}

impl Client {
    /// A client for the given player on the given server.
    pub fn new(password: String, name: String, addres: String, refresh_rate: u32) -> (client:
        Client)
        ensures
            client.password == password,
            client.name == name,
            client.addres == addres,
            client.refresh_rate == refresh_rate,
    {
        Client { name, password, addres, refresh_rate }
    }

    /// The player `User` without a password, on the local server, with a
    /// request every 30 milliseconds.
    pub fn default() -> (client: Client)
        ensures
            client.password@ == Seq::<char>::empty(),
            client.name@ == "User"@,
            client.addres@ == "localhost:3621"@,
            client.refresh_rate == 30,
    {
        Client::new(
            String::new(),
            String::from_str("User"),
            String::from_str("localhost:3621"),
            30,
        )
    }

    /// The request that is sent now, made of what is pending and of the
    /// input as it stands; after it, plain input is next.
    pub fn next_request(&self, controls: &mut Controls) -> (out: Outgoing)
        ensures
            *final(controls) == (Controls { pending: InputTypeEvent::Normal, ..*old(controls) }),
            match old(controls).pending {
                InputTypeEvent::Normal => out matches Outgoing::Control(packet)
                    && packet.server_password@ == self.password@ && packet.player@ == self.name@
                    && packet.input == old(controls).input,
                InputTypeEvent::CharacterSwitch(target) => out matches Outgoing::Switch(switch)
                    && switch.server_password@ == self.password@ && switch.player_name@
                    == self.name@ && switch.character == target,
                InputTypeEvent::Join => out matches Outgoing::Join(join) && join.server_password@
                    == self.password@ && join.player_name@ == self.name@,
                InputTypeEvent::Quit => out is Quit,
            },
    {
        match controls.take_pending() {
            InputTypeEvent::Normal => Outgoing::Control(
                GameControlPacket::new(self.password.clone(), self.name.clone(), controls.input),
            ),
            InputTypeEvent::CharacterSwitch(target) => Outgoing::Switch(
                CharacterSwitchRequest::new(self.password.clone(), self.name.clone(), target),
            ),
            InputTypeEvent::Join => Outgoing::Join(
                JoinRequest::new(self.password.clone(), self.name.clone()),
            ),
            InputTypeEvent::Quit => Outgoing::Quit,
        }
    }
}

} // verus!
