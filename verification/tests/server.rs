use nebula::client::renderer::Texture;
use nebula::game::character::{Character, CharacterInstance};
use nebula::game::map::WorldMap;
use nebula::game::networking::{
    BodyType, CharacterInput, CharacterSwitchRequest, DateStamp, GameControlPacket, Headers,
    JoinRequest, ResponseStatus,
};
use nebula::game::physic::{AnimationFrame, AnimationState, Direction};
use nebula::game::steps::{Pending, RosterStep, WorldStep};
use nebula::game::{Game, Player, Reply, Request, Roster, Route};

fn s(text: &str) -> String {
    String::from(text)
}

fn sheet(holds: &[u8]) -> Character {
    let mut c = Character::new();
    for h in holds {
        c.animations.idling.push(AnimationFrame {
            hurt_sircles: Vec::new(),
            hit_sircles: Vec::new(),
            events: Vec::new(),
            texture: Texture::new(),
            hold: *h,
        });
    }
    c
}

fn game(password: &str) -> Game {
    let mut g = Game::default();
    g.password = s(password);
    g
}

fn handle(g: &mut Game, request: Request) -> Reply {
    let password = g.password.clone();
    Game::handle_request(request, &mut g.map, &mut g.players, &password)
}

fn join(g: &mut Game, password: &str, name: &str) -> Reply {
    handle(g, Request::Join(Some(JoinRequest::new(s(password), s(name)))))
}

fn switch(g: &mut Game, password: &str, name: &str, character: Option<u32>) -> Reply {
    handle(g, Request::Switch(Some(CharacterSwitchRequest::new(s(password), s(name), character))))
}

fn control(g: &mut Game, password: &str, name: &str, input: CharacterInput) -> Reply {
    handle(g, Request::Control(Some(GameControlPacket::new(s(password), s(name), input))))
}

fn tick(g: &mut Game) {
    Game::tick(&mut g.map, &mut g.players, &g.characters);
}

fn status(reply: &Reply) -> Option<ResponseStatus> {
    match reply {
        Reply::Status(st) => Some(*st),
        _ => None,
    }
}

fn world(reply: &Reply) -> Option<&WorldMap> {
    match reply {
        Reply::World(Some(w)) => Some(w),
        _ => None,
    }
}

fn names(roster: &Roster) -> Vec<String> {
    roster.players().iter().map(|p| p.name.clone()).collect()
}

fn ids(w: &WorldMap) -> Vec<u32> {
    w.characters().iter().map(|c| c.object_id).collect()
}

fn snapshot(g: &Game) -> (Vec<(String, String, usize, Option<u32>, CharacterInput)>, Option<(usize, u32, Vec<CharacterInstance>)>) {
    let players = g
        .players
        .players()
        .iter()
        .map(|p| (p.id.clone(), p.name.clone(), p.last_ping, p.instance, p.input))
        .collect();
    let map = g.map.as_ref().map(|w| (w.counter(), w.current_id(), w.characters().clone()));
    (players, map)
}

#[test]
fn a_new_player_has_a_random_id_of_36_characters() {
    let a = Player::new(s("A"));
    let b = Player::new(s("A"));
    assert_eq!(a.id.len(), 36);
    assert_eq!(b.id.len(), 36);
    assert_ne!(a.id, b.id);
    assert_ne!(a.id, "A");
    assert_eq!(a.name, "A");
    assert_eq!(a.last_ping, 0);
    assert_eq!(a.instance, None);
    assert_eq!(a.input, CharacterInput::new());
    let bytes = a.id.as_bytes();
    assert_eq!(bytes[8], b'-');
    assert_eq!(bytes[13], b'-');
    assert_eq!(bytes[18], b'-');
    assert_eq!(bytes[23], b'-');
}

#[test]
fn a_player_with_an_id_is_made_as_given() {
    let p = Player::with_id(s("the-id"), s("Name"));
    assert_eq!(p.id, "the-id");
    assert_eq!(p.name, "Name");
    assert_eq!(p.last_ping, 0);
    assert_eq!(p.instance, None);
}

#[test]
fn the_default_game_has_the_built_in_character_and_an_empty_world() {
    let g = Game::default();
    assert_eq!(g.password, "");
    assert_eq!(g.addres, "127.0.0.1:3621");
    assert_eq!(g.refresh_rate, 30);
    assert_eq!(g.players.len(), 0);
    assert_eq!(g.characters.len(), 1);
    assert_eq!(g.characters[&0].animations.idling[0].hold, 128);
    let w = g.map.as_ref().unwrap();
    assert_eq!((w.counter(), w.current_id(), w.characters().len()), (0, 0, 0));
}

#[test]
fn a_new_game_has_no_world_yet() {
    let g = Game::new(s("pw"), s("0.0.0.0:1"), 50);
    assert_eq!(g.password, "pw");
    assert_eq!(g.addres, "0.0.0.0:1");
    assert_eq!(g.refresh_rate, 50);
    assert!(g.map.is_none());
    assert_eq!(g.players.len(), 0);
    assert!(g.characters.contains_key(&0));
}

#[test]
fn routes_are_told_by_method_and_path() {
    let route = |m: &str, p: &str| {
        let mut h = Headers::none();
        h.request_type = s(m);
        h.path = s(p);
        Game::route(&h)
    };
    assert_eq!(route("GET", "/"), Route::Index);
    assert_eq!(route("POST", "/map/"), Route::Join);
    assert_eq!(route("PUT", "/map/"), Route::Control);
    assert_eq!(route("PUT", "/character/"), Route::Switch);
    assert_eq!(route("GET", "/map/"), Route::World);
    assert_eq!(route("GET", "/map"), Route::Unknown);
    assert_eq!(route("get", "/"), Route::Unknown);
    assert_eq!(route("POST", "/"), Route::Unknown);
    assert_eq!(route("POST", "/character/"), Route::Unknown);
    assert_eq!(route("DELETE", "/map/"), Route::Unknown);
    assert_eq!(Game::route(&Headers::none()), Route::Index);
}

#[test]
fn a_join_under_a_free_name_is_answered_with_the_world() {
    let mut g = game("p");
    g.map.as_mut().unwrap().new_istance(0);
    let reply = join(&mut g, "p", "A");
    let w = world(&reply).unwrap();
    assert_eq!((w.counter(), w.current_id()), (0, 1));
    assert_eq!(w.characters(), &vec![CharacterInstance::new(0, 0)]);
    assert_eq!(names(&g.players), vec![s("A")]);
    let p = g.players.get(&s("A")).unwrap();
    assert_eq!(p.id.len(), 36);
    assert_eq!(p.last_ping, 0);
    assert_eq!(p.instance, None);
    assert_eq!(p.input, CharacterInput::new());
    let reply = join(&mut g, "p", "B");
    assert!(world(&reply).is_some());
    assert_eq!(names(&g.players), vec![s("A"), s("B")]);
}

#[test]
fn a_join_before_the_first_tick_is_answered_with_no_world() {
    let mut g = Game::new(s("p"), s("x"), 30);
    let reply = join(&mut g, "p", "A");
    assert!(matches!(reply, Reply::World(None)));
    assert_eq!(names(&g.players), vec![s("A")]);
}

#[test]
fn a_second_join_under_the_same_name_is_forbidden() {
    let mut g = game("p");
    join(&mut g, "p", "A");
    switch(&mut g, "p", "A", Some(0));
    control(&mut g, "p", "A", CharacterInput { jump: true, ..CharacterInput::new() });
    let before = snapshot(&g);
    let reply = join(&mut g, "p", "A");
    assert_eq!(status(&reply), Some(ResponseStatus::Forbiden));
    assert_eq!(snapshot(&g), before);
    assert_eq!(names(&g.players), vec![s("A")]);
}

#[test]
fn a_wrong_password_changes_nothing() {
    let mut g = game("p");
    join(&mut g, "p", "A");
    switch(&mut g, "p", "A", Some(0));
    tick(&mut g);
    let before = snapshot(&g);
    let input = CharacterInput { dir: Some(Direction::Left), ..CharacterInput::new() };
    assert_eq!(status(&join(&mut g, "q", "B")), Some(ResponseStatus::Unauthorized));
    assert_eq!(status(&join(&mut g, "", "B")), Some(ResponseStatus::Unauthorized));
    assert_eq!(status(&control(&mut g, "P", "A", input)), Some(ResponseStatus::Unauthorized));
    assert_eq!(status(&switch(&mut g, "pp", "A", None)), Some(ResponseStatus::Unauthorized));
    assert_eq!(status(&switch(&mut g, "x", "A", Some(1))), Some(ResponseStatus::Unauthorized));
    assert_eq!(status(&switch(&mut g, "x", "nobody", Some(1))), Some(ResponseStatus::Unauthorized));
    assert_eq!(snapshot(&g), before);
}

#[test]
fn a_payload_that_could_not_be_read_is_a_parse_error() {
    let mut g = game("p");
    join(&mut g, "p", "A");
    let before = snapshot(&g);
    assert_eq!(status(&handle(&mut g, Request::Join(None))), Some(ResponseStatus::ParseError));
    assert_eq!(status(&handle(&mut g, Request::Control(None))), Some(ResponseStatus::ParseError));
    assert_eq!(status(&handle(&mut g, Request::Switch(None))), Some(ResponseStatus::ParseError));
    assert_eq!(snapshot(&g), before);
}

#[test]
fn reading_requests_change_nothing() {
    let mut g = game("p");
    join(&mut g, "p", "A");
    switch(&mut g, "p", "A", Some(0));
    let before = snapshot(&g);
    assert!(matches!(handle(&mut g, Request::Index), Reply::Page));
    let reply = handle(&mut g, Request::World);
    assert_eq!(ids(world(&reply).unwrap()), vec![0]);
    assert_eq!(status(&handle(&mut g, Request::Unknown)), Some(ResponseStatus::NotFound));
    assert_eq!(snapshot(&g), before);
    let mut fresh = Game::new(s("p"), s("x"), 30);
    assert!(matches!(handle(&mut fresh, Request::World), Reply::World(None)));
}

#[test]
fn an_input_replaces_the_pending_one() {
    let mut g = game("p");
    join(&mut g, "p", "A");
    join(&mut g, "p", "B");
    tick(&mut g);
    tick(&mut g);
    assert_eq!(g.players.get(&s("A")).unwrap().last_ping, 2);
    let input = CharacterInput {
        dir: Some(Direction::Left),
        light_attack: true,
        heavy_attack: false,
        special: true,
        jump: false,
    };
    let reply = control(&mut g, "p", "A", input);
    assert!(world(&reply).is_some());
    let a = g.players.get(&s("A")).unwrap();
    assert_eq!(a.input, input);
    assert_eq!(a.last_ping, 0);
    let b = g.players.get(&s("B")).unwrap();
    assert_eq!(b.input, CharacterInput::new());
    assert_eq!(b.last_ping, 2);
}

#[test]
fn an_input_for_an_unknown_player_is_not_found() {
    let mut g = game("p");
    join(&mut g, "p", "A");
    let before = snapshot(&g);
    let reply = control(&mut g, "p", "Z", CharacterInput::new());
    assert_eq!(status(&reply), Some(ResponseStatus::NotFound));
    assert_eq!(snapshot(&g), before);
}

#[test]
fn a_switch_for_an_unknown_player_is_unauthorized() {
    let mut g = game("p");
    let before = snapshot(&g);
    assert_eq!(status(&switch(&mut g, "p", "Z", Some(0))), Some(ResponseStatus::Unauthorized));
    assert_eq!(snapshot(&g), before);
}

#[test]
fn a_switch_without_a_world_is_not_implemented() {
    let mut g = Game::new(s("p"), s("x"), 30);
    join(&mut g, "p", "A");
    assert_eq!(status(&switch(&mut g, "p", "A", Some(0))), Some(ResponseStatus::NotImplemented));
    assert!(g.map.is_none());
    assert_eq!(g.players.get(&s("A")).unwrap().instance, None);
}

#[test]
fn taking_changing_and_dropping_a_character() {
    let mut g = game("p");
    join(&mut g, "p", "A");
    join(&mut g, "p", "B");

    let reply = switch(&mut g, "p", "A", None);
    assert_eq!(ids(world(&reply).unwrap()), Vec::<u32>::new());
    assert_eq!(g.players.get(&s("A")).unwrap().instance, None);

    let reply = switch(&mut g, "p", "A", Some(1));
    assert_eq!(world(&reply).unwrap().characters(), &vec![CharacterInstance::new(1, 0)]);
    assert_eq!(g.players.get(&s("A")).unwrap().instance, Some(0));

    let reply = switch(&mut g, "p", "B", Some(7));
    assert_eq!(ids(world(&reply).unwrap()), vec![0, 1]);
    assert_eq!(g.players.get(&s("B")).unwrap().instance, Some(1));

    g.characters.insert(1, sheet(&[0, 0, 0]));
    control(&mut g, "p", "A", CharacterInput { dir: Some(Direction::Right), ..CharacterInput::new() });
    tick(&mut g);
    assert_ne!(g.map.as_ref().unwrap().instance(0).unwrap(), CharacterInstance::new(1, 0));

    let reply = switch(&mut g, "p", "A", Some(2));
    let w = world(&reply).unwrap();
    let a = w.instance(0).unwrap();
    assert_eq!(a.character, 2);
    assert_eq!(a.object_id, 0);
    assert_eq!(a.position.x, 0);
    assert_eq!(a.animation, AnimationState::Idling(0, 0));
    assert_eq!(ids(w), vec![0, 1]);
    assert_eq!(g.players.get(&s("A")).unwrap().instance, Some(0));

    let reply = switch(&mut g, "p", "A", None);
    assert_eq!(ids(world(&reply).unwrap()), vec![1]);
    assert_eq!(g.players.get(&s("A")).unwrap().instance, None);
    assert_eq!(g.players.get(&s("B")).unwrap().instance, Some(1));

    let reply = switch(&mut g, "p", "A", Some(1));
    assert_eq!(ids(world(&reply).unwrap()), vec![1, 2]);
    assert_eq!(g.players.get(&s("A")).unwrap().instance, Some(2));
    assert_eq!(g.map.as_ref().unwrap().current_id(), 3);
}

#[test]
fn a_switch_notes_that_the_player_was_heard_from() {
    let mut g = game("p");
    join(&mut g, "p", "A");
    tick(&mut g);
    tick(&mut g);
    tick(&mut g);
    assert_eq!(g.players.get(&s("A")).unwrap().last_ping, 3);
    switch(&mut g, "p", "A", None);
    assert_eq!(g.players.get(&s("A")).unwrap().last_ping, 0);
}

#[test]
fn a_world_out_of_ids_is_a_server_error() {
    let mut g = game("p");
    g.map = WorldMap::from_parts(0, u32::MAX, vec![CharacterInstance::new(0, 5)]);
    assert!(g.map.is_some());
    join(&mut g, "p", "A");
    assert_eq!(status(&switch(&mut g, "p", "A", Some(0))), Some(ResponseStatus::Error));
    assert_eq!(ids(g.map.as_ref().unwrap()), vec![5]);
    assert_eq!(g.map.as_ref().unwrap().current_id(), u32::MAX);
    assert_eq!(g.players.get(&s("A")).unwrap().instance, None);
}

#[test]
fn five_ticks_to_the_right() {
    let mut g = game("p");
    g.characters.insert(1, sheet(&[2, 9]));
    assert!(world(&join(&mut g, "p", "A")).is_some());
    let reply = switch(&mut g, "p", "A", Some(1));
    let start = world(&reply).unwrap().instance(0).unwrap();
    assert_eq!(start.character, 1);
    control(&mut g, "p", "A", CharacterInput { dir: Some(Direction::Right), ..CharacterInput::new() });
    for _ in 0..5 {
        tick(&mut g);
    }
    let w = g.map.as_ref().unwrap();
    let a = w.instance(0).unwrap();
    assert_eq!(a.position.x, start.position.x + 5 * 5);
    assert_eq!(a.position.y, start.position.y);
    assert_eq!(a.direction, Direction::Right);
    assert_eq!(a.animation, AnimationState::Idling(1, 2));
    assert_eq!(w.counter(), 5);
}

#[test]
fn five_ticks_against_the_built_in_hold() {
    let mut g = game("p");
    join(&mut g, "p", "A");
    switch(&mut g, "p", "A", Some(0));
    control(&mut g, "p", "A", CharacterInput { dir: Some(Direction::Right), ..CharacterInput::new() });
    for _ in 0..5 {
        tick(&mut g);
    }
    let a = g.map.as_ref().unwrap().instance(0).unwrap();
    assert_eq!(a.position.x, 25);
    assert_eq!(a.animation, AnimationState::Idling(0, 5));
}

#[test]
fn buttons_are_released_after_the_tick_that_took_them() {
    let mut g = game("p");
    join(&mut g, "p", "A");
    switch(&mut g, "p", "A", Some(0));
    let pressed = CharacterInput {
        dir: Some(Direction::Left),
        light_attack: true,
        heavy_attack: true,
        special: true,
        jump: true,
    };
    control(&mut g, "p", "A", pressed);
    tick(&mut g);
    assert_eq!(g.map.as_ref().unwrap().instance(0).unwrap().input, pressed);
    let held = CharacterInput { dir: Some(Direction::Left), ..CharacterInput::new() };
    let a = g.players.get(&s("A")).unwrap();
    assert_eq!(a.input, held);
    assert_eq!(a.last_ping, 1);
    tick(&mut g);
    assert_eq!(g.map.as_ref().unwrap().instance(0).unwrap().input, held);
    assert_eq!(g.players.get(&s("A")).unwrap().last_ping, 2);
    assert_eq!(g.map.as_ref().unwrap().instance(0).unwrap().position.x, -10);
}

#[test]
fn the_first_tick_brings_the_world_into_being() {
    let mut g = Game::new(s("p"), s("x"), 30);
    join(&mut g, "p", "A");
    tick(&mut g);
    let w = g.map.as_ref().unwrap();
    assert_eq!((w.counter(), w.current_id(), w.characters().len()), (1, 0, 0));
    assert!(world(&switch(&mut g, "p", "A", Some(0))).is_some());
}

#[test]
fn the_copy_of_the_roster_is_taken_before_the_players_age() {
    let mut roster = Roster::new();
    let mut p = Player::with_id(s("i"), s("A"));
    p.input.jump = true;
    p.last_ping = usize::MAX - 1;
    roster.join(p);
    let copy = Game::players_clone(&mut roster);
    assert!(copy.get(&s("A")).unwrap().input.jump);
    assert_eq!(copy.get(&s("A")).unwrap().last_ping, usize::MAX - 1);
    assert!(!roster.get(&s("A")).unwrap().input.jump);
    assert_eq!(roster.get(&s("A")).unwrap().last_ping, usize::MAX);
    Game::players_clone(&mut roster);
    assert_eq!(roster.get(&s("A")).unwrap().last_ping, usize::MAX);
}

#[test]
fn the_roster_keeps_names_apart() {
    let mut roster = Roster::new();
    assert!(roster.join(Player::with_id(s("1"), s("A"))));
    assert!(!roster.join(Player::with_id(s("2"), s("A"))));
    assert!(roster.join(Player::with_id(s("3"), s("a"))));
    assert_eq!(roster.len(), 2);
    assert_eq!(roster.get(&s("A")).unwrap().id, "1");
    assert!(roster.get(&s("B")).is_none());
    assert_eq!(roster.touch(&s("a")), Some(None));
    assert_eq!(roster.touch(&s("b")), None);
    assert!(roster.bind(&s("a"), Some(4)));
    assert!(!roster.bind(&s("b"), Some(4)));
    assert_eq!(roster.touch(&s("a")), Some(Some(4)));
    assert!(roster.set_input(&s("A"), CharacterInput { jump: true, ..CharacterInput::new() }));
    assert!(!roster.set_input(&s("Z"), CharacterInput::new()));
    assert!(roster.get(&s("A")).unwrap().input.jump);
    let copy = roster.clone();
    assert_eq!(names(&copy), vec![s("A"), s("a")]);
    assert_eq!(copy.get(&s("a")).unwrap().instance, Some(4));
}

#[test]
fn answers_become_responses() {
    let date = || DateStamp { year: 2026, month: 1, day: 2, time: s("03:04:05") };
    let r = Game::respond_at(&Reply::Page, "{}", date());
    assert_eq!(r.status, ResponseStatus::Okay);
    assert_eq!(r.body_type, BodyType::HTML);
    assert_eq!(
        r.body,
        "<head><meta http-equiv=\"refresh\" content=\"0; url=https://github.com/3ther-joyboy/Nebula\" />"
    );
    let r = Game::respond_at(&Reply::World(Some(WorldMap::test())), "{\"counter\":0}", date());
    assert_eq!(r.status, ResponseStatus::Okay);
    assert_eq!(r.body_type, BodyType::JSON);
    assert_eq!(r.body, "{\"counter\":0}");
    assert_eq!(
        r.to_string(),
        "HTTP/1.1 200 OK\nServer: Tree house\nDate: 2026-01-02 03:04:05\nContent-Length: 13\nContent-Type: application/json\n\n{\"counter\":0}"
    );
    let r = Game::respond_at(&Reply::World(None), "ignored", date());
    assert_eq!((r.status, r.body_type, r.body.as_str()), (ResponseStatus::Okay, BodyType::JSON, ""));
    let r = Game::respond_at(&Reply::Status(ResponseStatus::ParseError), "ignored", date());
    assert_eq!(
        (r.status, r.body_type, r.body.as_str()),
        (ResponseStatus::ParseError, BodyType::JSON, "")
    );
    let r = Game::respond(&Reply::Status(ResponseStatus::NotFound), "ignored");
    assert_eq!(r.status, ResponseStatus::NotFound);
    assert_eq!(r.body, "");
    assert!((1..=12).contains(&r.date.month));
}

#[test]
fn a_request_is_taken_in_steps() {
    let mut g = game("p");
    join(&mut g, "p", "A");
    let request = Request::Switch(Some(CharacterSwitchRequest::new(s("p"), s("A"), Some(3))));
    let first = Game::begin(request, &g.password);
    let step = match first {
        Pending::Roster(step) => step,
        _ => panic!("the roster comes first"),
    };
    assert!(matches!(&step, RosterStep::Touch(name, Some(3)) if name == "A"));
    let step = match Game::on_roster(step, &mut g.players) {
        Pending::World(step) => step,
        _ => panic!("the world comes second"),
    };
    assert!(matches!(&step, WorldStep::Switch(name, None, Some(3)) if name == "A"));
    let step = match Game::on_world(step, &mut g.map) {
        Pending::Roster(step) => step,
        _ => panic!("the roster comes third"),
    };
    assert!(matches!(&step, RosterStep::Bind(name, Some(0)) if name == "A"));
    assert_eq!(ids(g.map.as_ref().unwrap()), vec![0]);
    assert_eq!(g.players.get(&s("A")).unwrap().instance, None);
    let step = match Game::on_roster(step, &mut g.players) {
        Pending::World(step) => step,
        _ => panic!("the world comes last"),
    };
    assert!(matches!(step, WorldStep::Snapshot));
    assert_eq!(g.players.get(&s("A")).unwrap().instance, Some(0));
    match Game::on_world(step, &mut g.map) {
        Pending::Done(reply) => assert_eq!(ids(world(&reply).unwrap()), vec![0]),
        _ => panic!("the answer is due"),
    }
}

#[test]
fn requests_that_need_no_store_are_answered_at_once() {
    let pw = s("p");
    assert!(matches!(Game::begin(Request::Index, &pw), Pending::Done(Reply::Page)));
    assert!(matches!(
        Game::begin(Request::Unknown, &pw),
        Pending::Done(Reply::Status(ResponseStatus::NotFound))
    ));
    assert!(matches!(
        Game::begin(Request::Control(None), &pw),
        Pending::Done(Reply::Status(ResponseStatus::ParseError))
    ));
    assert!(matches!(
        Game::begin(Request::Join(Some(JoinRequest::new(s("q"), s("A")))), &pw),
        Pending::Done(Reply::Status(ResponseStatus::Unauthorized))
    ));
    assert!(matches!(Game::begin(Request::World, &pw), Pending::World(WorldStep::Snapshot)));
}

#[test]
fn a_player_who_left_between_two_steps_makes_a_server_error() {
    let mut roster = Roster::new();
    let next = Game::on_roster(RosterStep::Bind(s("gone"), Some(2)), &mut roster);
    assert!(matches!(next, Pending::Done(Reply::Status(ResponseStatus::Error))));
    assert_eq!(roster.len(), 0);
    let mut map = None;
    let next = Game::on_world(WorldStep::Switch(s("A"), None, Some(1)), &mut map);
    assert!(matches!(next, Pending::Done(Reply::Status(ResponseStatus::NotImplemented))));
    let mut map = Some(WorldMap::test());
    let next = Game::on_world(WorldStep::Switch(s("A"), Some(9), None), &mut map);
    match next {
        Pending::Done(reply) => assert!(world(&reply).unwrap().characters().is_empty()),
        _ => panic!("nothing was left to do"),
    }
    let next = Game::on_world(WorldStep::Switch(s("A"), Some(9), Some(4)), &mut map);
    assert!(matches!(next, Pending::Roster(RosterStep::Bind(_, Some(0)))));
}

#[test]
fn steps_and_the_whole_give_the_same() {
    let mut whole = game("p");
    let mut stepped = game("p");
    let requests = || {
        vec![
            Request::Join(Some(JoinRequest::new(s("p"), s("A")))),
            Request::Switch(Some(CharacterSwitchRequest::new(s("p"), s("A"), Some(0)))),
            Request::Switch(Some(CharacterSwitchRequest::new(s("p"), s("A"), Some(5)))),
            Request::Control(Some(GameControlPacket::new(s("p"), s("B"), CharacterInput::new()))),
            Request::Switch(Some(CharacterSwitchRequest::new(s("p"), s("A"), None))),
            Request::World,
        ]
    };
    for (a, b) in requests().into_iter().zip(requests()) {
        let one = handle(&mut whole, a);
        let pw = stepped.password.clone();
        let mut pending = Game::begin(b, &pw);
        let other = loop {
            pending = match pending {
                Pending::Done(reply) => break reply,
                other => Game::step(other, &mut stepped.map, &mut stepped.players),
            };
        };
        assert_eq!(status(&one), status(&other));
        assert_eq!(world(&one).map(ids), world(&other).map(ids));
        let (pa, ma) = snapshot(&whole);
        let (pb, mb) = snapshot(&stepped);
        assert_eq!(ma, mb);
        assert_eq!(pa.len(), pb.len());
        for (x, y) in pa.iter().zip(pb.iter()) {
            assert_eq!((&x.1, x.2, x.3, x.4), (&y.1, y.2, y.3, y.4));
        }
    }
}
