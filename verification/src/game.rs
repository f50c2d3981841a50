//! The game server's state and rules: the roster of players, and what each
//! request and each tick does to roster and world.

pub mod character;
pub mod map;
pub mod networking;
pub mod physic;
pub mod steps;

use vstd::prelude::*;
use std::collections::HashMap;
use vstd::string::StringExecFns;
use crate::game::character::{fresh_instance, Character, CharacterInstance};
use crate::game::map::{
    holds_instance, lemma_place_of, lemma_same_ids, next_count, ordered_below, place_of, rebound,
    stepped_in, with_inputs, without_instance, WorldMap, WorldView,
};
use crate::game::steps::{roster_step, world_step, Pending, PendingView};
use crate::game::networking::{
    server_name, BodyType, CharacterInput, CharacterSwitchRequest, DateStamp,
    GameControlPacket, Headers, JoinRequest, Response, ResponseStatus,
};

verus! {

/// A player who has joined.
pub struct Player {
    pub id: String,
    pub last_ping: usize,
    pub name: String,
    pub instance: Option<u32>,
    pub input: CharacterInput,
}

/// A player as plain values.
pub ghost struct PlayerView {
    pub id: Seq<char>,
    pub last_ping: usize,
    pub name: Seq<char>,
    pub instance: Option<u32>,
    pub input: CharacterInput,
}

impl View for Player {
    type V = PlayerView;

    open spec fn view(&self) -> PlayerView {
        PlayerView {
            id: self.id@,
            last_ping: self.last_ping,
            name: self.name@,
            instance: self.instance,
            input: self.input,
        }
    }
}

impl Clone for Player {
    fn clone(&self) -> (copy: Player)
        ensures
            copy@ == self@,
    {
        Player {
            id: self.id.clone(),
            last_ping: self.last_ping,
            name: self.name.clone(),
            instance: self.instance,
            input: self.input,
        }
    }
}

/// Calls `uuid::Uuid::new_v4` and spells the random id the way `Uuid`
/// displays it: 36 characters. Nothing else is claimed of the id.
#[verifier::external_body]
fn fresh_id() -> (id: String)
    ensures
        id@.len() == 36,
{
    uuid::Uuid::new_v4().to_string()
}

/// The player who has just joined: never seen by a tick, in control of
/// nothing, with no input.
pub open spec fn newcomer(id: Seq<char>, name: Seq<char>) -> PlayerView {
    PlayerView {
        id,
        last_ping: 0,
        name,
        instance: None,
        input: CharacterInput {
            dir: None,
            light_attack: false,
            heavy_attack: false,
            special: false,
            jump: false,
        },
    }
}

impl Player {
    /// A new player with the given id and name.
    pub fn with_id(id: String, name: String) -> (player: Player)
        ensures
            player@ == newcomer(id@, name@),
    {
        Player { id, last_ping: 0, name, instance: None, input: CharacterInput::new() }
    }

    /// A new player with the given name and a random id of 36 characters.
    pub fn new(name: String) -> (player: Player)
        ensures
            player@ == newcomer(player@.id, name@),
            player@.id.len() == 36,
    {
        Player::with_id(fresh_id(), name)
    }
}

/// No two players have the same name.
pub open spec fn distinct_names(players: Seq<PlayerView>) -> bool {
    forall|i: int, j: int|
        0 <= i < j < players.len() ==> (#[trigger] players[i]).name != (#[trigger] players[j]).name
}

/// A player with the given name is among `players`.
pub open spec fn holds_player(players: Seq<PlayerView>, name: Seq<char>) -> bool {
    exists|i: int| 0 <= i < players.len() && (#[trigger] players[i]).name == name
}

/// The index at which the player with the given name stands.
pub open spec fn seat_of(players: Seq<PlayerView>, name: Seq<char>) -> int {
    choose|i: int| 0 <= i < players.len() && (#[trigger] players[i]).name == name
}

/// Where names are distinct, a name stands at one index only.
pub proof fn lemma_seat_of(players: Seq<PlayerView>, at: int)
    requires
        distinct_names(players),
        0 <= at < players.len(),
    ensures
        holds_player(players, players[at].name),
        seat_of(players, players[at].name) == at,
{
    let name = players[at].name;
    let found = seat_of(players, name);
    assert(0 <= found < players.len() && players[found].name == name);
    if found < at {
        assert(players[found].name != players[at].name);
    } else if at < found {
        assert(players[at].name != players[found].name);
    }
}

/// The players who have joined, in the order in which they did. No two of
/// them have the same name.
pub struct Roster {
    players: Vec<Player>,
}

impl View for Roster {
    type V = Seq<PlayerView>;

    closed spec fn view(&self) -> Seq<PlayerView> {
        self.players@.map_values(|p: Player| p@)
    }
}

impl Clone for Roster {
    fn clone(&self) -> (copy: Roster)
        ensures
            copy@ == self@,
    {
        proof {
            use_type_invariant(self);
        }
        let mut players: Vec<Player> = Vec::new();
        let mut i: usize = 0;
        while i < self.players.len()
            invariant
                i <= self.players.len(),
                players@.len() == i,
                forall|k: int| 0 <= k < i ==> (#[trigger] players@[k])@ == self.players@[k]@,
            decreases self.players.len() - i,
        {
            players.push(self.players[i].clone());
            i += 1;
        }
        assert(players@.map_values(|p: Player| p@) =~= self@);
        Roster { players }
    }
}

impl Roster {
    #[verifier::type_invariant]
    closed spec fn sound(&self) -> bool {
        distinct_names(self@)
    }

    /// The roster before anyone has joined.
    pub fn new() -> (roster: Roster)
        ensures
            roster@ == Seq::<PlayerView>::empty(),
    {
        let roster = Roster { players: Vec::new() };
        assert(roster@ =~= Seq::<PlayerView>::empty());
        roster
    }

    /// The players, in the order in which they joined; no two have the same
    /// name.
    pub fn players(&self) -> (list: &Vec<Player>)
        ensures
            list@.len() == self@.len(),
            forall|n: int| 0 <= n < list@.len() ==> (#[trigger] list@[n])@ == self@[n],
            distinct_names(self@),
    {
        proof {
            use_type_invariant(self);
        }
        &self.players
    }

    fn find(&self, name: &String) -> (at: Option<usize>)
        ensures
            distinct_names(self@),
            self@.len() == self.players@.len(),
            match at {
                Some(i) => holds_player(self@, name@) && i == seat_of(self@, name@) && i
                    < self@.len(),
                None => !holds_player(self@, name@),
            },
    {
        proof {
            use_type_invariant(self);
        }
        let mut i: usize = 0;
        while i < self.players.len()
            invariant
                i <= self.players.len(),
                self@.len() == self.players@.len(),
                distinct_names(self@),
                forall|k: int| 0 <= k < i ==> (#[trigger] self@[k]).name != name@,
            decreases self.players.len() - i,
        {
            if self.players[i].name == *name {
                proof {
                    assert(self@[i as int].name == name@);
                    lemma_seat_of(self@, i as int);
                }
                return Some(i);
            }
            i += 1;
        }
        None
    }

    /// The player with the given name, if one has joined.
    pub fn get(&self, name: &String) -> (found: Option<&Player>)
        ensures
            match found {
                Some(p) => holds_player(self@, name@) && p@ == self@[seat_of(self@, name@)]
                    && p@.name == name@,
                None => !holds_player(self@, name@),
            },
    {
        match self.find(name) {
            Some(i) => Some(&self.players[i]),
            None => None,
        }
    }

    /// Lets `player` join at the end of the roster, unless the name is taken.
    /// Tells whether the player joined.
    pub fn join(&mut self, player: Player) -> (joined: bool)
        ensures
            joined == !holds_player(old(self)@, player@.name),
            final(self)@ == if joined {
                old(self)@.push(player@)
            } else {
                old(self)@
            },
    {
        proof {
            use_type_invariant(&*self);
        }
        if self.find(&player.name).is_some() {
            return false;
        }
        let ghost before = self@;
        let mut players: Vec<Player> = Vec::new();
        std::mem::swap(&mut players, &mut self.players);
        let ghost joining = player@;
        players.push(player);
        proof {
            let after = players@.map_values(|p: Player| p@);
            assert(after =~= before.push(joining));
            assert forall|i: int, j: int| 0 <= i < j < after.len() implies (
            #[trigger] after[i]).name != (#[trigger] after[j]).name by {
                if j < before.len() {
                    assert(before[i].name != before[j].name);
                } else {
                    assert(before[i].name != joining.name);
                }
            }
        }
        self.players = players;
        true
    }

    /// Puts `player` in the place of the player at `at`, who has the same
    /// name.
    fn replace(&mut self, at: usize, player: Player)
        requires
            at < old(self)@.len(),
            player@.name == old(self)@[at as int].name,
        ensures
            final(self)@ == old(self)@.update(at as int, player@),
    {
        proof {
            use_type_invariant(&*self);
        }
        let ghost before = self@;
        let mut players: Vec<Player> = Vec::new();
        std::mem::swap(&mut players, &mut self.players);
        let ghost entering = player@;
        players.set(at, player);
        proof {
            let after = players@.map_values(|p: Player| p@);
            assert(after =~= before.update(at as int, entering));
            assert forall|i: int, j: int| 0 <= i < j < after.len() implies (
            #[trigger] after[i]).name != (#[trigger] after[j]).name by {
                assert(before[i].name != before[j].name);
            }
        }
        self.players = players;
    }
}

/// A player one tick later: seen one tick longer ago, as far as `usize`
/// counts, and with every button released.
pub open spec fn aged(p: PlayerView) -> PlayerView {
    PlayerView { last_ping: next_count(p.last_ping), input: p.input.released(), ..p }
}

/// A player who has just been heard from.
pub open spec fn seen(p: PlayerView) -> PlayerView {
    PlayerView { last_ping: 0, ..p }
}

/// The players with the one of the given name replaced by `change` of that
/// player, if there is one.
pub open spec fn with_player(
    players: Seq<PlayerView>,
    name: Seq<char>,
    change: spec_fn(PlayerView) -> PlayerView,
) -> Seq<PlayerView> {
    if holds_player(players, name) {
        let seat = seat_of(players, name);
        players.update(seat, change(players[seat]))
    } else {
        players
    }
}

impl Roster {
    /// No two players of a roster have the same name.
    pub fn check(&self)
        ensures
            distinct_names(self@),
    {
        proof {
            use_type_invariant(self);
        }
    }

    /// How many players have joined.
    pub fn len(&self) -> (n: usize)
        ensures
            n == self@.len(),
    {
        self.players.len()
    }

    /// Notes that the player of the given name has been heard from and tells
    /// which instance the player controls. `None` when no such player has
    /// joined.
    pub fn touch(&mut self, name: &String) -> (instance: Option<Option<u32>>)
        ensures
            final(self)@ == with_player(old(self)@, name@, |p: PlayerView| seen(p)),
            match instance {
                Some(i) => holds_player(old(self)@, name@) && i == old(self)@[seat_of(
                    old(self)@,
                    name@,
                )].instance,
                None => !holds_player(old(self)@, name@),
            },
    {
        match self.find(name) {
            Some(i) => {
                let mut player = self.players[i].clone();
                let instance = player.instance;
                player.last_ping = 0;
                self.replace(i, player);
                Some(instance)
            },
            None => None,
        }
    }

    /// Hands the player of the given name a new input and notes that the
    /// player has been heard from. Tells whether such a player has joined.
    pub fn set_input(&mut self, name: &String, input: CharacterInput) -> (found: bool)
        ensures
            found == holds_player(old(self)@, name@),
            final(self)@ == with_player(
                old(self)@,
                name@,
                |p: PlayerView| PlayerView { input, last_ping: 0, ..p },
            ),
    {
        match self.find(name) {
            Some(i) => {
                let mut player = self.players[i].clone();
                player.input = input;
                player.last_ping = 0;
                self.replace(i, player);
                true
            },
            None => false,
        }
    }

    /// Puts the player of the given name in control of `instance`, or of
    /// nothing. Tells whether such a player has joined.
    pub fn bind(&mut self, name: &String, instance: Option<u32>) -> (found: bool)
        ensures
            found == holds_player(old(self)@, name@),
            final(self)@ == with_player(
                old(self)@,
                name@,
                |p: PlayerView| PlayerView { instance, ..p },
            ),
    {
        match self.find(name) {
            Some(i) => {
                let mut player = self.players[i].clone();
                player.instance = instance;
                self.replace(i, player);
                true
            },
            None => false,
        }
    }

    /// Lets one tick pass for every player.
    pub fn age(&mut self)
        ensures
            final(self)@ == old(self)@.map_values(|p: PlayerView| aged(p)),
    {
        let ghost start = self@;
        let n = self.players.len();
        let mut i: usize = 0;
        while i < n
            invariant
                i <= n,
                n == start.len(),
                self@.len() == start.len(),
                self.players@.len() == start.len(),
                forall|k: int| 0 <= k < i ==> (#[trigger] self@[k]) == aged(start[k]),
                forall|k: int| i <= k < n ==> (#[trigger] self@[k]) == start[k],
            decreases n - i,
        {
            let mut player = self.players[i].clone();
            if player.last_ping < usize::MAX {
                player.last_ping = player.last_ping + 1;
            }
            player.input.reset();
            self.replace(i, player);
            assert(self@.len() == self.players@.len());
            i += 1;
        }
        assert(self@ =~= start.map_values(|p: PlayerView| aged(p)));
    }
}

/// What an optional world holds.
pub open spec fn world_view(map: Option<WorldMap>) -> Option<WorldView> {
    match map {
        Some(world) => Some(world@),
        None => None,
    }
}

/// Roster and world after a request or a tick, and how the request ended.
pub ghost struct Outcome {
    pub players: Seq<PlayerView>,
    pub world: Option<WorldView>,
    pub result: Result<(), ResponseStatus>,
}

/// What a join does: a name that is taken is refused as forbidden and
/// changes nothing; a free name enters at the end of the roster.
pub open spec fn join_outcome(players: Seq<PlayerView>, id: Seq<char>, name: Seq<char>) -> (
    Seq<PlayerView>,
    Result<(), ResponseStatus>,
) {
    if holds_player(players, name) {
        (players, Err(ResponseStatus::Forbiden))
    } else {
        (players.push(newcomer(id, name)), Ok(()))
    }
}

/// The instance that a player controls, if it is alive in the world.
pub open spec fn live_instance(controlled: Option<u32>, world: WorldView) -> Option<u32> {
    match controlled {
        Some(id) => if holds_instance(world.characters, id) {
            Some(id)
        } else {
            None
        },
        None => None,
    }
}

/// What a character switch does. An unknown player is unauthorized and
/// nothing changes. A known player is noted as heard from; then, without
/// a world, the switch is not implemented. With a world, by what the player
/// controls now and what is asked for:
/// nothing and a character: a fresh instance enters under the next id and
/// the player controls it, unless the ids are used up, which is a server
/// error;
/// an instance and nothing: the instance leaves the world and the player
/// controls nothing;
/// an instance and a character: the instance is handed to the character
/// and restarted, its id kept;
/// nothing and nothing: no change.
pub open spec fn switch_outcome(
    players: Seq<PlayerView>,
    world: Option<WorldView>,
    name: Seq<char>,
    character: Option<u32>,
) -> Outcome {
    if !holds_player(players, name) {
        Outcome { players, world, result: Err(ResponseStatus::Unauthorized) }
    } else {
        let seat = seat_of(players, name);
        let heard = players.update(seat, seen(players[seat]));
        match world {
            None => Outcome {
                players: heard,
                world,
                result: Err(ResponseStatus::NotImplemented),
            },
            Some(w) => match (live_instance(players[seat].instance, w), character) {
                (None, Some(wanted)) => if w.current_id == u32::MAX {
                    Outcome { players: heard, world, result: Err(ResponseStatus::Error) }
                } else {
                    Outcome {
                        players: heard.update(
                            seat,
                            PlayerView { instance: Some(w.current_id), ..heard[seat] },
                        ),
                        world: Some(
                            WorldView {
                                current_id: (w.current_id + 1) as u32,
                                characters: w.characters.push(
                                    fresh_instance(wanted, w.current_id),
                                ),
                                ..w
                            },
                        ),
                        result: Ok(()),
                    }
                },
                (Some(id), None) => Outcome {
                    players: heard.update(seat, PlayerView { instance: None, ..heard[seat] }),
                    world: Some(
                        WorldView { characters: without_instance(w.characters, id), ..w },
                    ),
                    result: Ok(()),
                },
                (Some(id), Some(wanted)) => Outcome {
                    players: heard,
                    world: Some(WorldView { characters: rebound(w.characters, id, wanted), ..w }),
                    result: Ok(()),
                },
                (None, None) => Outcome { players: heard, world, result: Ok(()) },
            },
        }
    }
}

/// The game server: its settings, its players, its character definitions
/// and its world.
pub struct Game {
    pub password: String,
    pub addres: String,
    pub players: Roster,
    pub characters: HashMap<u32, Character>,
    pub map: Option<WorldMap>,
    pub refresh_rate: u32,
}

impl Game {
    /// Hands out the roster as it stands and lets one tick pass for every
    /// player in it.
    pub fn players_clone(players: &mut Roster) -> (copy: Roster)
        ensures
            copy@ == old(players)@,
            final(players)@ == old(players)@.map_values(|p: PlayerView| aged(p)),
    {
        let out = players.clone();
        players.age();
        out
    }

    /// Lets a player join under the name that the request gives.
    pub fn new_player(input: JoinRequest, players: &mut Roster) -> (result: Result<
        (),
        ResponseStatus,
    >)
        ensures
            result is Ok <==> !holds_player(old(players)@, input.player_name@),
            result is Err ==> result == Err::<(), ResponseStatus>(ResponseStatus::Forbiden)
                && final(players)@ == old(players)@,
            result is Ok ==> final(players)@.len() == old(players)@.len() + 1 && (
            final(players)@, result) == join_outcome(
                old(players)@,
                final(players)@.last().id,
                input.player_name@,
            ) && final(players)@.last().id.len() == 36,
    {
        if players.get(&input.player_name).is_some() {
            return Err(ResponseStatus::Forbiden);
        }
        let player = Player::new(input.player_name);
        players.join(player);
        Ok(())
    }

    /// Takes a player's input for the coming tick.
    pub fn update_player(input: GameControlPacket, players: &mut Roster) -> (result: Result<
        (),
        ResponseStatus,
    >)
        ensures
            result == if holds_player(old(players)@, input.player@) {
                Ok::<(), ResponseStatus>(())
            } else {
                Err::<(), ResponseStatus>(ResponseStatus::NotFound)
            },
            final(players)@ == with_player(
                old(players)@,
                input.player@,
                |p: PlayerView| PlayerView { input: input.input, last_ping: 0, ..p },
            ),
    {
        if players.set_input(&input.player, input.input) {
            Ok(())
        } else {
            Err(ResponseStatus::NotFound)
        }
    }

    /// Puts a player in control of an instance of `character`, or of
    /// nothing.
    pub fn player_switch_char(
        character: Option<u32>,
        player_name: String,
        map: &mut Option<WorldMap>,
        players: &mut Roster,
    ) -> (result: Result<(), ResponseStatus>)
        ensures
            (Outcome {
                players: final(players)@,
                world: world_view(*final(map)),
                result,
            }) == switch_outcome(
                old(players)@,
                world_view(*old(map)),
                player_name@,
                character,
            ),
    {
        let ghost before = players@;
        let controlled = match players.touch(&player_name) {
            Some(instance) => instance,
            None => {
                return Err(ResponseStatus::Unauthorized);
            },
        };
        let ghost seat = seat_of(before, player_name@);
        let ghost heard = players@;
        players.check();
        proof {
            assert(heard[seat].name == player_name@);
            lemma_seat_of(heard, seat);
        }
        match map {
            None => Err(ResponseStatus::NotImplemented),
            Some(world) => {
                let live = match controlled {
                    Some(id) => match world.instance(id) {
                        Some(_) => Some(id),
                        None => None,
                    },
                    None => None,
                };
                match (live, character) {
                    (None, Some(wanted)) => {
                        if world.current_id() == u32::MAX {
                            return Err(ResponseStatus::Error);
                        }
                        let id = world.new_istance(wanted);
                        players.bind(&player_name, Some(id));
                    },
                    (Some(id), None) => {
                        world.remove_instance(id);
                        players.bind(&player_name, None);
                    },
                    (Some(id), Some(wanted)) => {
                        world.rebind(id, wanted);
                    },
                    (None, None) => {},
                }
                Ok(())
            },
        }
    }

    /// The world as it stands, for the body of a response.
    pub fn get_map_res(map: &Option<WorldMap>) -> (snapshot: Option<WorldMap>)
        ensures
            world_view(snapshot) == world_view(*map),
    {
        match map {
            Some(world) => Some(world.clone()),
            None => None,
        }
    }
}

/// What a request asks for, told by its method and path.
#[derive(Clone, Copy, Debug, PartialEq, Eq, Structural)]
pub enum Route {
    Index,
    Join,
    Control,
    Switch,
    World,
    Unknown,
}

/// The route of a method and a path.
pub open spec fn route_of(method: Seq<char>, path: Seq<char>) -> Route {
    if method == "GET"@ && path == "/"@ {
        Route::Index
    } else if method == "PUT"@ && path == "/character/"@ {
        Route::Switch
    } else if method == "POST"@ && path == "/map/"@ {
        Route::Join
    } else if method == "PUT"@ && path == "/map/"@ {
        Route::Control
    } else if method == "GET"@ && path == "/map/"@ {
        Route::World
    } else {
        Route::Unknown
    }
}

/// A request with its payload, if its route has one. The payload is absent
/// where the body could not be read as what the route expects.
pub enum Request {
    Index,
    Join(Option<JoinRequest>),
    Control(Option<GameControlPacket>),
    Switch(Option<CharacterSwitchRequest>),
    World,
    Unknown,
}

/// What is answered: the page that sends a browser on, the world as it
/// stands, or a bare status.
pub enum Reply {
    Page,
    World(Option<WorldMap>),
    Status(ResponseStatus),
}

/// An answer as plain values.
pub ghost enum ReplyView {
    Page,
    World(Option<WorldView>),
    Status(ResponseStatus),
}

impl View for Reply {
    type V = ReplyView;

    open spec fn view(&self) -> ReplyView {
        match *self {
            Reply::Page => ReplyView::Page,
            Reply::World(map) => ReplyView::World(world_view(map)),
            Reply::Status(status) => ReplyView::Status(status),
        }
    }
}

/// Roster and world after a request, and the answer to it.
pub ghost struct Handled {
    pub players: Seq<PlayerView>,
    pub world: Option<WorldView>,
    pub reply: ReplyView,
}

/// The answer to a request that changed nothing.
pub open spec fn untouched(players: Seq<PlayerView>, world: Option<WorldView>, reply: ReplyView)
    -> Handled {
    Handled { players, world, reply }
}

/// The answer after a change that ended with `result`: the world as it
/// stands then, or the status of the failure.
pub open spec fn answered(
    players: Seq<PlayerView>,
    world: Option<WorldView>,
    result: Result<(), ResponseStatus>,
) -> Handled {
    Handled {
        players,
        world,
        reply: match result {
            Ok(_) => ReplyView::World(world),
            Err(status) => ReplyView::Status(status),
        },
    }
}

/// What a request does to roster and world, and what is answered. `id` is
/// the id that a player who joins is given.
///
/// The index page and the world are handed out to anyone and change
/// nothing. A payload that could not be read is a parse error. A wrong
/// password is unauthorized and changes nothing. Past that a join, an input
/// and a character switch do what `join_outcome`, `with_player` and
/// `switch_outcome` say, and are answered with the world or with the status
/// of their failure. Every other request is not found.
pub open spec fn handled(
    players: Seq<PlayerView>,
    world: Option<WorldView>,
    password: Seq<char>,
    id: Seq<char>,
    request: Request,
) -> Handled {
    match request {
        Request::Index => untouched(players, world, ReplyView::Page),
        Request::World => untouched(players, world, ReplyView::World(world)),
        Request::Unknown => untouched(
            players,
            world,
            ReplyView::Status(ResponseStatus::NotFound),
        ),
        Request::Join(None) | Request::Control(None) | Request::Switch(None) => untouched(
            players,
            world,
            ReplyView::Status(ResponseStatus::ParseError),
        ),
        Request::Join(Some(join)) => if join.server_password@ != password {
            untouched(players, world, ReplyView::Status(ResponseStatus::Unauthorized))
        } else {
            let joined = join_outcome(players, id, join.player_name@);
            answered(joined.0, world, joined.1)
        },
        Request::Control(Some(packet)) => if packet.server_password@ != password {
            untouched(players, world, ReplyView::Status(ResponseStatus::Unauthorized))
        } else {
            answered(
                with_player(
                    players,
                    packet.player@,
                    |p: PlayerView| PlayerView { input: packet.input, last_ping: 0, ..p },
                ),
                world,
                if holds_player(players, packet.player@) {
                    Ok(())
                } else {
                    Err(ResponseStatus::NotFound)
                },
            )
        },
        Request::Switch(Some(switch)) => if switch.server_password@ != password {
            untouched(players, world, ReplyView::Status(ResponseStatus::Unauthorized))
        } else {
            let done = switch_outcome(players, world, switch.player_name@, switch.character);
            answered(done.players, done.world, done.result)
        },
    }
}

/// The id that the request's newcomer was given: that of the last player,
/// where the request let one join.
pub open spec fn given_id(after: Seq<PlayerView>) -> Seq<char> {
    if after.len() > 0 {
        after.last().id
    } else {
        Seq::empty()
    }
}

/// The world one tick later: one tick more on its counter, every player's
/// input handed to the instance the player controls, and every instance
/// stepped by its definition. An absent world starts out empty.
pub open spec fn ticked_world(
    world: Option<WorldView>,
    players: Seq<PlayerView>,
    sheets: Map<u32, Character>,
) -> WorldView {
    let start = match world {
        Some(w) => w,
        None => WorldView { counter: 0, current_id: 0, characters: Seq::empty() },
    };
    WorldView {
        counter: next_count(start.counter),
        current_id: start.current_id,
        characters: with_inputs(start.characters, players).map_values(
            |c: CharacterInstance| stepped_in(c, sheets),
        ),
    }
}

impl Game {
    /// Tells what a request asks for.
    pub fn route(headers: &Headers) -> (route: Route)
        ensures
            route == route_of(headers.request_type@, headers.path@),
    {
        let get = String::from_str("GET");
        let put = String::from_str("PUT");
        let post = String::from_str("POST");
        let root = String::from_str("/");
        let map = String::from_str("/map/");
        let character = String::from_str("/character/");
        if headers.request_type == get && headers.path == root {
            Route::Index
        } else if headers.request_type == put && headers.path == character {
            Route::Switch
        } else if headers.request_type == post && headers.path == map {
            Route::Join
        } else if headers.request_type == put && headers.path == map {
            Route::Control
        } else if headers.request_type == get && headers.path == map {
            Route::World
        } else {
            Route::Unknown
        }
    }

    /// Does what a request asks for and tells what to answer.
    pub fn handle_request(
        request: Request,
        map: &mut Option<WorldMap>,
        players: &mut Roster,
        password: &String,
    ) -> (reply: Reply)
        ensures
            (Handled {
                players: final(players)@,
                world: world_view(*final(map)),
                reply: reply@,
            }) == handled(
                old(players)@,
                world_view(*old(map)),
                password@,
                given_id(final(players)@),
                request,
            ),
    {
        let ghost start = players@;
        let ghost asked = request;
        players.check();
        let first = Game::begin(request, password);
        let second = Game::step(first, map, players);
        let third = Game::step(second, map, players);
        let fourth = Game::step(third, map, players);
        proof {
            if let Request::Switch(Some(switch)) = asked {
                if holds_player(start, switch.player_name@) {
                    let seat = seat_of(start, switch.player_name@);
                    lemma_update_keeps_seats(start, seat, seen(start[seat]));
                }
            }
        }
        let last = Game::step(fourth, map, players);
        match last {
            Pending::Done(reply) => reply,
            _ => vstd::pervasive::unreached(),
        }
    }

    /// Does the step that is pending, on the roster or on the world, and
    /// tells what comes next. Nothing comes after the answer.
    pub fn step(pending: Pending, map: &mut Option<WorldMap>, players: &mut Roster) -> (next:
        Pending)
        ensures
            match pending@ {
                PendingView::Roster(step) => (final(players)@, next@) == roster_step(
                    old(players)@,
                    given_id(final(players)@),
                    step,
                ) && world_view(*final(map)) == world_view(*old(map)),
                PendingView::World(step) => (world_view(*final(map)), next@) == world_step(
                    world_view(*old(map)),
                    step,
                ) && final(players)@ == old(players)@,
                PendingView::Done(reply) => next@ == pending@ && final(players)@ == old(players)@
                    && world_view(*final(map)) == world_view(*old(map)),
            },
    {
        match pending {
            Pending::Roster(step) => Game::on_roster(step, players),
            Pending::World(step) => Game::on_world(step, map),
            Pending::Done(reply) => Pending::Done(reply),
        }
    }

    /// Advances the world by one tick with the inputs of `players`.
    pub fn advance(
        map: &mut Option<WorldMap>,
        players: Roster,
        characters: &HashMap<u32, Character>,
    )
        ensures
            world_view(*final(map)) == Some(
                ticked_world(world_view(*old(map)), players@, characters@),
            ),
    {
        let mut world = match map.take() {
            Some(world) => world,
            None => WorldMap::test(),
        };
        world.count_tick();
        world.set_inputs(players);
        world.update(characters);
        *map = Some(world);
    }

    /// One tick of the simulation: the players' inputs go to the world and
    /// the world moves on; then every player is one tick older.
    pub fn tick(
        map: &mut Option<WorldMap>,
        players: &mut Roster,
        characters: &HashMap<u32, Character>,
    )
        ensures
            world_view(*final(map)) == Some(
                ticked_world(world_view(*old(map)), old(players)@, characters@),
            ),
            final(players)@ == old(players)@.map_values(|p: PlayerView| aged(p)),
    {
        let inputs = Game::players_clone(players);
        Game::advance(map, inputs, characters);
    }
}

/// The page that sends a browser on to the project's home.
pub open spec fn index_page() -> Seq<char> {
    "<head><meta http-equiv=\"refresh\" content=\"0; url=https://github.com/3ther-joyboy/Nebula\" />"@
}

/// The address on which the server listens unless told otherwise.
pub open spec fn default_address() -> Seq<char> {
    "127.0.0.1:3621"@
}

impl Game {
    /// The table of definitions that every server starts with: the built-in
    /// character under id 0.
    pub fn builtin_characters() -> (table: HashMap<u32, Character>)
        ensures
            table@.dom() == set![0u32],
            table@[0].has_base_stats(),
            table@[0].animations.idling@.len() == 1,
            table@[0].animations.idling@[0].hold == 128,
    {
        broadcast use vstd::std_specs::hash::group_hash_axioms;

        let mut table: HashMap<u32, Character> = HashMap::new();
        table.insert(0, Character::default());
        assert(table@.dom() =~= set![0u32]);
        table
    }

    /// A server without a password on the default address, with an empty
    /// world and a tick every 30 milliseconds.
    pub fn default() -> (game: Game)
        ensures
            game.password@ == Seq::<char>::empty(),
            game.addres@ == default_address(),
            game.players@ == Seq::<PlayerView>::empty(),
            game.characters@.dom() == set![0u32],
            world_view(game.map) == Some(
                WorldView { counter: 0, current_id: 0, characters: Seq::empty() },
            ),
            game.refresh_rate == 30,
    {
        Game {
            password: String::new(),
            addres: String::from_str("127.0.0.1:3621"),
            characters: Game::builtin_characters(),
            players: Roster::new(),
            map: Some(WorldMap::test()),
            refresh_rate: 30,
        }
    }

    /// A server with the given password, address and tick period, whose
    /// world comes into being with its first tick.
    pub fn new(password: String, addres: String, refresh_rate: u32) -> (game: Game)
        ensures
            game.password == password,
            game.addres == addres,
            game.players@ == Seq::<PlayerView>::empty(),
            game.characters@.dom() == set![0u32],
            game.map is None,
            game.refresh_rate == refresh_rate,
    {
        Game {
            password,
            addres,
            characters: Game::builtin_characters(),
            players: Roster::new(),
            map: None,
            refresh_rate,
        }
    }

    /// The response that carries an answer, dated `date`. `world_text` is
    /// the world of the answer as it is spelled on the wire.
    pub fn respond_at(reply: &Reply, world_text: &str, date: DateStamp) -> (response: Response)
        ensures
            response.date == date,
            response.host_name@ == server_name(),
            response.status == match reply@ {
                ReplyView::Status(status) => status,
                _ => ResponseStatus::Okay,
            },
            response.body_type == match reply@ {
                ReplyView::Page => BodyType::HTML,
                _ => BodyType::JSON,
            },
            response.body@ == match reply@ {
                ReplyView::Page => index_page(),
                ReplyView::World(Some(_)) => world_text@,
                _ => Seq::<char>::empty(),
            },
    {
        proof {
            reveal_strlit("");
        }
        match reply {
            Reply::Page => Response::at(
                ResponseStatus::Okay,
                BodyType::HTML,
                "<head><meta http-equiv=\"refresh\" content=\"0; url=https://github.com/3ther-joyboy/Nebula\" />",
                date,
            ),
            Reply::World(Some(_)) => Response::at(
                ResponseStatus::Okay,
                BodyType::JSON,
                world_text,
                date,
            ),
            Reply::World(None) => {
                let r = Response::at(ResponseStatus::Okay, BodyType::JSON, "", date);
                assert(r.body@ =~= Seq::<char>::empty());
                r
            },
            Reply::Status(status) => {
                let r = Response::at(*status, BodyType::JSON, "", date);
                assert(r.body@ =~= Seq::<char>::empty());
                r
            },
        }
    }
}

impl Game {
    /// The response that carries an answer, dated now.
    pub fn respond(reply: &Reply, world_text: &str) -> (response: Response)
        ensures
            response.host_name@ == server_name(),
            response.status == match reply@ {
                ReplyView::Status(status) => status,
                _ => ResponseStatus::Okay,
            },
            response.body_type == match reply@ {
                ReplyView::Page => BodyType::HTML,
                _ => BodyType::JSON,
            },
            response.body@ == match reply@ {
                ReplyView::Page => index_page(),
                ReplyView::World(Some(_)) => world_text@,
                _ => Seq::<char>::empty(),
            },
            1 <= response.date.month <= 12,
            1 <= response.date.day <= 31,
    {
        Game::respond_at(reply, world_text, DateStamp::now())
    }
}

/// The password that a request gives, if it is one that changes anything.
pub open spec fn request_password(request: Request) -> Option<Seq<char>> {
    match request {
        Request::Join(Some(join)) => Some(join.server_password@),
        Request::Control(Some(packet)) => Some(packet.server_password@),
        Request::Switch(Some(switch)) => Some(switch.server_password@),
        _ => None,
    }
}

/// A request with a wrong password is answered as unauthorized and leaves
/// roster and world as they were.
pub proof fn lemma_wrong_password_changes_nothing(
    players: Seq<PlayerView>,
    world: Option<WorldView>,
    password: Seq<char>,
    id: Seq<char>,
    request: Request,
)
    requires
        request_password(request) is Some,
        request_password(request) != Some(password),
    ensures
        handled(players, world, password, id, request) == (Handled {
            players,
            world,
            reply: ReplyView::Status(ResponseStatus::Unauthorized),
        }),
{
}

/// A join under a free name, with the right password, is answered with the
/// world as it stands, leaves the world alone, and puts the name on the
/// roster exactly once.
pub proof fn lemma_join_enters_once(
    players: Seq<PlayerView>,
    world: Option<WorldView>,
    password: Seq<char>,
    id: Seq<char>,
    join: JoinRequest,
)
    requires
        distinct_names(players),
        !holds_player(players, join.player_name@),
        join.server_password@ == password,
    ensures
        ({
            let after = handled(players, world, password, id, Request::Join(Some(join)));
            &&& after.reply == ReplyView::World(world)
            &&& after.world == world
            &&& after.players == players.push(newcomer(id, join.player_name@))
            &&& distinct_names(after.players)
            &&& holds_player(after.players, join.player_name@)
            &&& forall|i: int, j: int|
                0 <= i < after.players.len() && 0 <= j < after.players.len()
                    && after.players[i].name == join.player_name@ && after.players[j].name
                    == join.player_name@ ==> i == j
        }),
{
    let name = join.player_name@;
    let after = players.push(newcomer(id, name));
    assert(after[players.len() as int].name == name);
    assert forall|i: int, j: int| 0 <= i < j < after.len() implies (#[trigger] after[i]).name != (
    #[trigger] after[j]).name by {
        if j < players.len() {
            assert(players[i].name != players[j].name);
        } else {
            assert(players[i].name != name);
        }
    }
    assert forall|i: int, j: int|
        0 <= i < after.len() && 0 <= j < after.len() && after[i].name == name && after[j].name
            == name implies i == j by {
        if i < j {
            assert(after[i].name != after[j].name);
        } else if j < i {
            assert(after[j].name != after[i].name);
        }
    }
}

/// A second join under the same name is refused as forbidden and leaves
/// roster and world as the first join left them.
pub proof fn lemma_second_join_is_refused(
    players: Seq<PlayerView>,
    world: Option<WorldView>,
    password: Seq<char>,
    first_id: Seq<char>,
    second_id: Seq<char>,
    join: JoinRequest,
)
    requires
        join.server_password@ == password,
    ensures
        ({
            let first = handled(players, world, password, first_id, Request::Join(Some(join)));
            let second = handled(
                first.players,
                first.world,
                password,
                second_id,
                Request::Join(Some(join)),
            );
            &&& second.reply == ReplyView::Status(ResponseStatus::Forbiden)
            &&& second.players == first.players
            &&& second.world == first.world
        }),
{
    let name = join.player_name@;
    if !holds_player(players, name) {
        let after = players.push(newcomer(first_id, name));
        assert(after[players.len() as int].name == name);
    }
}

/// A change to one player that keeps the name keeps every name where it
/// stands.
pub proof fn lemma_update_keeps_seats(players: Seq<PlayerView>, at: int, changed: PlayerView)
    requires
        distinct_names(players),
        0 <= at < players.len(),
        changed.name == players[at].name,
    ensures
        distinct_names(players.update(at, changed)),
        forall|name: Seq<char>|
            holds_player(players.update(at, changed), name) == holds_player(players, name),
        forall|name: Seq<char>|
            holds_player(players, name) ==> seat_of(players.update(at, changed), name)
                == seat_of(players, name),
{
    let after = players.update(at, changed);
    assert forall|i: int, j: int| 0 <= i < j < after.len() implies (#[trigger] after[i]).name != (
    #[trigger] after[j]).name by {
        assert(players[i].name != players[j].name);
    }
    assert forall|name: Seq<char>| holds_player(after, name) == holds_player(players, name) by {
        if holds_player(after, name) {
            let i = seat_of(after, name);
            assert(players[i].name == name);
        }
        if holds_player(players, name) {
            let i = seat_of(players, name);
            assert(after[i].name == name);
        }
    }
    assert forall|name: Seq<char>| holds_player(players, name) implies seat_of(after, name)
        == seat_of(players, name) by {
        let i = seat_of(players, name);
        assert(after[i].name == name);
        lemma_seat_of(after, i);
    }
}

/// A player who controls nothing, takes a character, changes to another and
/// lets go again: every step succeeds; the instance that the first step
/// brings in has the id that was next, keeps it through the change, and is
/// gone from the world in the end, with the player in control of nothing.
/// The id is never given out again: the next id stays above it, and where
/// another player, who controls no live instance, takes a character while
/// the instance lives and an id is left to give, that player gets the id
/// after it and the first player keeps the instance.
pub proof fn lemma_switch_cycle(
    players: Seq<PlayerView>,
    world: WorldView,
    name: Seq<char>,
    first: u32,
    second: u32,
    other: Seq<char>,
    third: u32,
)
    requires
        distinct_names(players),
        ordered_below(world.characters, world.current_id),
        holds_player(players, name),
        live_instance(players[seat_of(players, name)].instance, world) is None,
        world.current_id < u32::MAX,
    ensures
        ({
            let seat = seat_of(players, name);
            let id = world.current_id;
            let taken = switch_outcome(players, Some(world), name, Some(first));
            let changed = switch_outcome(taken.players, taken.world, name, Some(second));
            let freed = switch_outcome(changed.players, changed.world, name, None);
            let rival = switch_outcome(changed.players, changed.world, other, Some(third));
            &&& taken.result is Ok && changed.result is Ok && freed.result is Ok
            &&& taken.players[seat].instance == Some(id)
            &&& taken.world.unwrap().characters == world.characters.push(
                fresh_instance(first, id),
            )
            &&& changed.players[seat].instance == Some(id)
            &&& changed.world.unwrap().characters == world.characters.push(
                fresh_instance(second, id),
            )
            &&& freed.players[seat].instance is None
            &&& freed.world.unwrap().characters == world.characters
            &&& !holds_instance(freed.world.unwrap().characters, id)
            &&& freed.world.unwrap().current_id == id + 1
            &&& holds_player(players, other) && other != name && id + 1 < u32::MAX
                && live_instance(
                changed.players[seat_of(players, other)].instance,
                changed.world.unwrap(),
            )
                is None ==> rival.result is Ok && rival.players[seat_of(
                players,
                other,
            )].instance == Some((id + 1) as u32) && rival.players[seat].instance == Some(id)
        }),
{
    let seat = seat_of(players, name);
    let id = world.current_id;
    let heard = players.update(seat, seen(players[seat]));
    lemma_update_keeps_seats(players, seat, seen(players[seat]));
    let bound = heard.update(seat, PlayerView { instance: Some(id), ..heard[seat] });
    lemma_update_keeps_seats(heard, seat, PlayerView { instance: Some(id), ..heard[seat] });
    let taken = switch_outcome(players, Some(world), name, Some(first));
    assert(taken.players == bound);
    let w1 = taken.world.unwrap();
    let grown = world.characters.push(fresh_instance(first, id));
    assert(w1.characters == grown);
    assert(ordered_below(grown, (id + 1) as u32)) by {
        assert forall|i: int, j: int| 0 <= i < j < grown.len() implies (
        #[trigger] grown[i]).object_id < (#[trigger] grown[j]).object_id by {
            if j < world.characters.len() {
                assert(world.characters[i].object_id < world.characters[j].object_id);
            } else {
                assert(world.characters[i].object_id < id);
            }
        }
        assert forall|i: int| 0 <= i < grown.len() implies (#[trigger] grown[i]).object_id < id
            + 1 by {
            if i < world.characters.len() {
                assert(world.characters[i].object_id < id);
            }
        }
    }
    let last = world.characters.len() as int;
    lemma_place_of(grown, (id + 1) as u32, last);
    assert(live_instance(bound[seat].instance, w1) == Some(id));

    let again = bound.update(seat, seen(bound[seat]));
    lemma_update_keeps_seats(bound, seat, seen(bound[seat]));
    assert(again =~= bound);
    let changed = switch_outcome(taken.players, taken.world, name, Some(second));
    let w2 = changed.world.unwrap();
    let swapped = world.characters.push(fresh_instance(second, id));
    assert(w2.characters =~= swapped);
    lemma_same_ids(grown, swapped, (id + 1) as u32);
    lemma_place_of(swapped, (id + 1) as u32, last);
    assert(live_instance(changed.players[seat].instance, w2) == Some(id));

    let freed = switch_outcome(changed.players, changed.world, name, None);
    lemma_update_keeps_seats(bound, seat, PlayerView { instance: None, ..bound[seat] });
    assert(freed.world.unwrap().characters =~= world.characters);
    if holds_instance(world.characters, id) {
        let k = place_of(world.characters, id);
        assert(world.characters[k].object_id < id);
    }

    if holds_player(players, other) && other != name {
        let rival_seat = seat_of(players, other);
        assert(players[rival_seat].name == other);
        assert(rival_seat != seat);
        assert(bound[rival_seat].name == other);
        lemma_seat_of(bound, rival_seat);
        if live_instance(bound[rival_seat].instance, w2) is None {
            lemma_update_keeps_seats(bound, rival_seat, seen(bound[rival_seat]));
        }
    }
}

} // verus!
