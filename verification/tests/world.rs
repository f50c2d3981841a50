use std::collections::HashMap;

use nebula::base::vector2::Vector2;
use nebula::client::renderer::Texture;
use nebula::game::character::{Character, CharacterInstance};
use nebula::game::map::WorldMap;
use nebula::game::networking::CharacterInput;
use nebula::game::physic::{AnimationFrame, AnimationState, Direction};
use nebula::game::{Player, Roster};

fn sheet(holds: &[u8]) -> Character {
    let mut c = Character::new();
    for h in holds {
        c.animations.idling.push(AnimationFrame {
            hurt_sircles: Vec::new(),
            hit_sircles: Vec::new(),
            events: Vec::new(),
            texture: Texture::new(),
            hold: *h,
        });
    }
    c
}

fn ids(world: &WorldMap) -> Vec<u32> {
    world.characters().iter().map(|c| c.object_id).collect()
}

#[test]
fn the_first_world_is_empty() {
    let w = WorldMap::test();
    assert_eq!(w.counter(), 0);
    assert_eq!(w.current_id(), 0);
    assert!(w.characters().is_empty());
    assert_eq!(w.instance(0), None);
}

#[test]
fn instances_get_ascending_ids() {
    let mut w = WorldMap::test();
    assert_eq!(w.new_istance(5), 0);
    assert_eq!(w.new_istance(6), 1);
    assert_eq!(w.new_istance(5), 2);
    assert_eq!(w.current_id(), 3);
    assert_eq!(ids(&w), vec![0, 1, 2]);
    assert_eq!(w.instance(1), Some(CharacterInstance::new(6, 1)));
    assert_eq!(w.instance(3), None);
    assert_eq!(w.counter(), 0);
}

#[test]
fn a_removed_id_is_not_given_out_again() {
    let mut w = WorldMap::test();
    w.new_istance(1);
    w.new_istance(1);
    assert!(w.remove_instance(1));
    assert!(!w.remove_instance(1));
    assert!(!w.remove_instance(9));
    assert_eq!(ids(&w), vec![0]);
    assert_eq!(w.new_istance(1), 2);
    assert_eq!(ids(&w), vec![0, 2]);
    assert!(w.remove_instance(0));
    assert_eq!(w.new_istance(1), 3);
    assert_eq!(ids(&w), vec![2, 3]);
}

#[test]
fn rebinding_restarts_the_instance_and_keeps_its_id() {
    let mut w = WorldMap::test();
    w.new_istance(1);
    w.new_istance(2);
    let mut roster = Roster::new();
    let mut p = Player::with_id(String::from("id"), String::from("A"));
    p.instance = Some(1);
    p.input.dir = Some(Direction::Right);
    roster.join(p);
    let mut sheets = HashMap::new();
    sheets.insert(2, sheet(&[0, 0]));
    w.set_inputs(roster);
    w.update(&sheets);
    let moved = w.instance(1).unwrap();
    assert_eq!(moved.position, Vector2 { x: 5, y: 0 });
    assert_eq!(moved.animation, AnimationState::Idling(1, 0));
    assert!(w.rebind(1, 9));
    let again = w.instance(1).unwrap();
    assert_eq!(again.character, 9);
    assert_eq!(again.object_id, 1);
    assert_eq!(again.position, Vector2 { x: 0, y: 0 });
    assert_eq!(again.animation, AnimationState::Idling(0, 0));
    assert_eq!(again.input.dir, Some(Direction::Right));
    assert_eq!(w.instance(0), Some(CharacterInstance::new(1, 0)));
    assert!(!w.rebind(7, 9));
    assert_eq!(ids(&w), vec![0, 1]);
}

#[test]
fn inputs_go_to_the_instances_that_players_control() {
    let mut w = WorldMap::test();
    w.new_istance(1);
    w.new_istance(1);
    w.new_istance(1);
    let mut roster = Roster::new();
    let mut a = Player::with_id(String::from("a"), String::from("A"));
    a.instance = Some(2);
    a.input = CharacterInput {
        dir: Some(Direction::Left),
        light_attack: true,
        heavy_attack: false,
        special: false,
        jump: true,
    };
    let b = Player::with_id(String::from("b"), String::from("B"));
    let mut c = Player::with_id(String::from("c"), String::from("C"));
    c.instance = Some(8);
    c.input.special = true;
    let mut d = Player::with_id(String::from("d"), String::from("D"));
    d.instance = Some(0);
    d.input.heavy_attack = true;
    assert!(roster.join(a));
    assert!(roster.join(b));
    assert!(roster.join(c));
    assert!(roster.join(d));
    w.set_inputs(roster);
    assert_eq!(w.instance(2).unwrap().input.dir, Some(Direction::Left));
    assert!(w.instance(2).unwrap().input.light_attack);
    assert!(w.instance(2).unwrap().input.jump);
    assert_eq!(w.instance(1).unwrap().input, CharacterInput::new());
    assert!(w.instance(0).unwrap().input.heavy_attack);
    assert_eq!(ids(&w), vec![0, 1, 2]);
}

#[test]
fn the_later_player_wins_where_two_control_one_instance() {
    let mut w = WorldMap::test();
    w.new_istance(1);
    let mut roster = Roster::new();
    let mut a = Player::with_id(String::from("a"), String::from("A"));
    a.instance = Some(0);
    a.input.jump = true;
    let mut b = Player::with_id(String::from("b"), String::from("B"));
    b.instance = Some(0);
    b.input.special = true;
    roster.join(a);
    roster.join(b);
    w.set_inputs(roster);
    let input = w.instance(0).unwrap().input;
    assert!(input.special);
    assert!(!input.jump);
}

#[test]
fn every_instance_with_a_definition_is_stepped() {
    let mut w = WorldMap::test();
    w.new_istance(1);
    w.new_istance(2);
    w.new_istance(3);
    let mut sheets = HashMap::new();
    sheets.insert(1, sheet(&[1, 1]));
    sheets.insert(3, sheet(&[0, 1]));
    w.update(&sheets);
    assert_eq!(w.instance(0).unwrap().animation, AnimationState::Idling(0, 1));
    assert_eq!(w.instance(1).unwrap(), CharacterInstance::new(2, 1));
    assert_eq!(w.instance(2).unwrap().animation, AnimationState::Idling(1, 0));
    assert_eq!(w.counter(), 0);
    assert_eq!(w.current_id(), 3);
}

#[test]
fn ticks_are_counted() {
    let mut w = WorldMap::test();
    w.count_tick();
    w.count_tick();
    assert_eq!(w.counter(), 2);
    let mut w = WorldMap::from_parts(usize::MAX - 1, 0, Vec::new()).unwrap();
    w.count_tick();
    assert_eq!(w.counter(), usize::MAX);
    w.count_tick();
    assert_eq!(w.counter(), usize::MAX);
}

#[test]
fn a_world_is_made_of_ordered_parts_only() {
    let a = CharacterInstance::new(1, 2);
    let b = CharacterInstance::new(1, 5);
    let w = WorldMap::from_parts(9, 6, vec![a, b]).unwrap();
    assert_eq!(w.counter(), 9);
    assert_eq!(w.current_id(), 6);
    assert_eq!(w.characters(), &vec![a, b]);
    assert!(WorldMap::from_parts(9, 5, vec![a, b]).is_none());
    assert!(WorldMap::from_parts(9, 6, vec![b, a]).is_none());
    assert!(WorldMap::from_parts(9, 6, vec![a, a]).is_none());
    assert!(WorldMap::from_parts(0, 0, Vec::new()).is_some());
}

#[test]
fn a_copy_of_a_world_is_equal_and_apart() {
    let mut w = WorldMap::test();
    w.new_istance(4);
    w.count_tick();
    let copy = w.clone();
    w.new_istance(5);
    w.count_tick();
    assert_eq!(copy.counter(), 1);
    assert_eq!(copy.current_id(), 1);
    assert_eq!(copy.characters(), &vec![CharacterInstance::new(4, 0)]);
    assert_eq!(w.characters().len(), 2);
}

#[test]
fn entries_in_any_order_make_the_ordered_world() {
    let a = CharacterInstance::new(1, 2);
    let b = CharacterInstance::new(7, 5);
    let c = CharacterInstance::new(3, 0);
    let w = WorldMap::from_entries(4, 6, vec![(5, b), (0, c), (2, a)]).unwrap();
    assert_eq!(w.counter(), 4);
    assert_eq!(w.current_id(), 6);
    assert_eq!(w.characters(), &vec![c, a, b]);
    let w = WorldMap::from_entries(0, 0, Vec::new()).unwrap();
    assert!(w.characters().is_empty());
    let w = WorldMap::from_entries(1, 3, vec![(2, a)]).unwrap();
    assert_eq!(w.characters(), &vec![a]);
}

#[test]
fn entries_that_are_misfiled_make_no_world() {
    let a = CharacterInstance::new(1, 2);
    let b = CharacterInstance::new(7, 5);
    assert!(WorldMap::from_entries(0, 6, vec![(3, a)]).is_none());
    assert!(WorldMap::from_entries(0, 6, vec![(5, b), (2, a), (5, b)]).is_none());
    assert!(WorldMap::from_entries(0, 6, vec![(2, a), (2, a)]).is_none());
    assert!(WorldMap::from_entries(0, 5, vec![(2, a), (5, b)]).is_none());
    assert!(WorldMap::from_entries(0, 2, vec![(2, a)]).is_none());
    assert!(WorldMap::from_entries(0, 6, vec![(2, a), (5, b)]).is_some());
}

#[test]
fn a_world_has_no_static_geometry() {
    let mut w = WorldMap::test();
    assert!(w.statics().is_empty());
    w.new_istance(1);
    w.count_tick();
    assert!(w.statics().is_empty());
    assert!(w.clone().statics().is_empty());
    let made = WorldMap::from_parts(1, 1, vec![CharacterInstance::new(0, 0)]).unwrap();
    assert!(made.statics().is_empty());
}
