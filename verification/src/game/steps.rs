//! A request taken in steps, each of which needs the roster alone or the
//! world alone, so that whoever shares them between threads never has to
//! hold both at once.

use vstd::prelude::*;
use crate::game::character::fresh_instance;
use crate::game::map::{rebound, without_instance, WorldMap, WorldView};
use crate::game::networking::{GameControlPacket, JoinRequest, ResponseStatus};
use crate::game::{
    given_id, holds_player, join_outcome, live_instance, seat_of, seen, with_player, world_view,
    Game, PlayerView, Reply, ReplyView, Request, Roster,
};

verus! {

/// What is to be done with the roster.
pub enum RosterStep {
    /// Let the player of the request join.
    Join(JoinRequest),
    /// Take the input of the packet.
    Control(GameControlPacket),
    /// Note that the named player was heard from, on the way to a switch to
    /// the given character.
    Touch(String, Option<u32>),
    /// Put the named player in control of the given instance.
    Bind(String, Option<u32>),
}

/// What is to be done with the world.
pub enum WorldStep {
    /// Take the world as it stands for the answer.
    Snapshot,
    /// Switch the named player, who controls the first instance, to the
    /// second character.
    Switch(String, Option<u32>, Option<u32>),
}

/// How far a request has come.
pub enum Pending {
    Roster(RosterStep),
    World(WorldStep),
    Done(Reply),
}

/// How far a request has come, as plain values.
pub ghost enum PendingView {
    Roster(RosterStep),
    World(WorldStep),
    Done(ReplyView),
}

impl View for Pending {
    type V = PendingView;

    open spec fn view(&self) -> PendingView {
        match *self {
            Pending::Roster(step) => PendingView::Roster(step),
            Pending::World(step) => PendingView::World(step),
            Pending::Done(reply) => PendingView::Done(reply@),
        }
    }
}

/// The answer that ends a request with a bare status.
pub open spec fn refused(status: ResponseStatus) -> PendingView {
    PendingView::Done(ReplyView::Status(status))
}

/// Where a request starts. The index page, an unknown route, a payload that
/// could not be read and a wrong password are answered at once; the world is
/// read for a request that asks for it; everything else starts with the
/// roster.
pub open spec fn begun(request: Request, password: Seq<char>) -> PendingView {
    match request {
        Request::Index => PendingView::Done(ReplyView::Page),
        Request::World => PendingView::World(WorldStep::Snapshot),
        Request::Unknown => refused(ResponseStatus::NotFound),
        Request::Join(None) | Request::Control(None) | Request::Switch(None) => refused(
            ResponseStatus::ParseError,
        ),
        Request::Join(Some(join)) => if join.server_password@ != password {
            refused(ResponseStatus::Unauthorized)
        } else {
            PendingView::Roster(RosterStep::Join(join))
        },
        Request::Control(Some(packet)) => if packet.server_password@ != password {
            refused(ResponseStatus::Unauthorized)
        } else {
            PendingView::Roster(RosterStep::Control(packet))
        },
        Request::Switch(Some(switch)) => if switch.server_password@ != password {
            refused(ResponseStatus::Unauthorized)
        } else {
            PendingView::Roster(RosterStep::Touch(switch.player_name, switch.character))
        },
    }
}

/// What a step does to the roster, and what comes next. `id` is the id that
/// a player who joins is given. A player who is to be bound and has left the
/// roster in the meantime makes a server error.
pub open spec fn roster_step(players: Seq<PlayerView>, id: Seq<char>, step: RosterStep) -> (
    Seq<PlayerView>,
    PendingView,
) {
    match step {
        RosterStep::Join(join) => {
            let joined = join_outcome(players, id, join.player_name@);
            (
                joined.0,
                match joined.1 {
                    Ok(_) => PendingView::World(WorldStep::Snapshot),
                    Err(status) => refused(status),
                },
            )
        },
        RosterStep::Control(packet) => (
            with_player(
                players,
                packet.player@,
                |p: PlayerView| PlayerView { input: packet.input, last_ping: 0, ..p },
            ),
            if holds_player(players, packet.player@) {
                PendingView::World(WorldStep::Snapshot)
            } else {
                refused(ResponseStatus::NotFound)
            },
        ),
        RosterStep::Touch(name, wanted) => (
            with_player(players, name@, |p: PlayerView| seen(p)),
            if holds_player(players, name@) {
                PendingView::World(
                    WorldStep::Switch(name, players[seat_of(players, name@)].instance, wanted),
                )
            } else {
                refused(ResponseStatus::Unauthorized)
            },
        ),
        RosterStep::Bind(name, instance) => (
            with_player(players, name@, |p: PlayerView| PlayerView { instance, ..p }),
            if holds_player(players, name@) {
                PendingView::World(WorldStep::Snapshot)
            } else {
                refused(ResponseStatus::Error)
            },
        ),
    }
}

/// What a step does to the world, and what comes next. A switch without a
/// world is not implemented. With a world, a player without a live instance
/// who wants a character gets a fresh instance under the next id, or a
/// server error where the ids are used up; one with a live instance who
/// wants none has the instance taken out; both are bound to the outcome in
/// the step that follows. One with a live instance who wants a character has
/// the instance handed over and restarted, and one without who wants none
/// changes nothing; both are answered with the world at once.
pub open spec fn world_step(world: Option<WorldView>, step: WorldStep) -> (
    Option<WorldView>,
    PendingView,
) {
    match step {
        WorldStep::Snapshot => (world, PendingView::Done(ReplyView::World(world))),
        WorldStep::Switch(name, controlled, wanted) => match world {
            None => (world, refused(ResponseStatus::NotImplemented)),
            Some(w) => match (live_instance(controlled, w), wanted) {
                (None, Some(character)) => if w.current_id == u32::MAX {
                    (world, refused(ResponseStatus::Error))
                } else {
                    (
                        Some(
                            WorldView {
                                current_id: (w.current_id + 1) as u32,
                                characters: w.characters.push(
                                    fresh_instance(character, w.current_id),
                                ),
                                ..w
                            },
                        ),
                        PendingView::Roster(RosterStep::Bind(name, Some(w.current_id))),
                    )
                },
                (Some(id), None) => (
                    Some(WorldView { characters: without_instance(w.characters, id), ..w }),
                    PendingView::Roster(RosterStep::Bind(name, None)),
                ),
                (Some(id), Some(character)) => {
                    let after = Some(
                        WorldView { characters: rebound(w.characters, id, character), ..w },
                    );
                    (after, PendingView::Done(ReplyView::World(after)))
                },
                (None, None) => (world, PendingView::Done(ReplyView::World(world))),
            },
        },
    }
}

impl Game {
    /// Starts on a request.
    pub fn begin(request: Request, password: &String) -> (pending: Pending)
        ensures
            pending@ == begun(request, password@),
    {
        match request {
            Request::Index => Pending::Done(Reply::Page),
            Request::World => Pending::World(WorldStep::Snapshot),
            Request::Unknown => Pending::Done(Reply::Status(ResponseStatus::NotFound)),
            Request::Join(None) => Pending::Done(Reply::Status(ResponseStatus::ParseError)),
            Request::Control(None) => Pending::Done(Reply::Status(ResponseStatus::ParseError)),
            Request::Switch(None) => Pending::Done(Reply::Status(ResponseStatus::ParseError)),
            Request::Join(Some(join)) => {
                if *password == join.server_password {
                    Pending::Roster(RosterStep::Join(join))
                } else {
                    Pending::Done(Reply::Status(ResponseStatus::Unauthorized))
                }
            },
            Request::Control(Some(packet)) => {
                if *password == packet.server_password {
                    Pending::Roster(RosterStep::Control(packet))
                } else {
                    Pending::Done(Reply::Status(ResponseStatus::Unauthorized))
                }
            },
            Request::Switch(Some(switch)) => {
                if *password == switch.server_password {
                    Pending::Roster(RosterStep::Touch(switch.player_name, switch.character))
                } else {
                    Pending::Done(Reply::Status(ResponseStatus::Unauthorized))
                }
            },
        }
    }

    /// Does a step on the roster and tells what comes next.
    pub fn on_roster(step: RosterStep, players: &mut Roster) -> (next: Pending)
        ensures
            (final(players)@, next@) == roster_step(
                old(players)@,
                given_id(final(players)@),
                step,
            ),
    {
        match step {
            RosterStep::Join(join) => match Game::new_player(join, players) {
                Ok(_) => Pending::World(WorldStep::Snapshot),
                Err(status) => Pending::Done(Reply::Status(status)),
            },
            RosterStep::Control(packet) => match Game::update_player(packet, players) {
                Ok(_) => Pending::World(WorldStep::Snapshot),
                Err(status) => Pending::Done(Reply::Status(status)),
            },
            RosterStep::Touch(name, wanted) => match players.touch(&name) {
                Some(controlled) => Pending::World(WorldStep::Switch(name, controlled, wanted)),
                None => Pending::Done(Reply::Status(ResponseStatus::Unauthorized)),
            },
            RosterStep::Bind(name, instance) => {
                if players.bind(&name, instance) {
                    Pending::World(WorldStep::Snapshot)
                } else {
                    Pending::Done(Reply::Status(ResponseStatus::Error))
                }
            },
        }
    }

    /// Does a step on the world and tells what comes next.
    pub fn on_world(step: WorldStep, map: &mut Option<WorldMap>) -> (next: Pending)
        ensures
            (world_view(*final(map)), next@) == world_step(world_view(*old(map)), step),
    {
        match step {
            WorldStep::Snapshot => Pending::Done(Reply::World(Game::get_map_res(map))),
            WorldStep::Switch(name, controlled, wanted) => {
                match map {
                    None => Pending::Done(Reply::Status(ResponseStatus::NotImplemented)),
                    Some(world) => {
                        let live = match controlled {
                            Some(id) => match world.instance(id) {
                                Some(_) => Some(id),
                                None => None,
                            },
                            None => None,
                        };
                        match (live, wanted) {
                            (None, Some(character)) => {
                                if world.current_id() == u32::MAX {
                                    Pending::Done(Reply::Status(ResponseStatus::Error))
                                } else {
                                    let id = world.new_istance(character);
                                    Pending::Roster(RosterStep::Bind(name, Some(id)))
                                }
                            },
                            (Some(id), None) => {
                                world.remove_instance(id);
                                Pending::Roster(RosterStep::Bind(name, None))
                            },
                            (Some(id), Some(character)) => {
                                world.rebind(id, character);
                                Pending::Done(Reply::World(Some(world.clone())))
                            },
                            (None, None) => Pending::Done(Reply::World(Some(world.clone()))),
                        }
                    },
                }
            },
        }
    }
}

} // verus!
