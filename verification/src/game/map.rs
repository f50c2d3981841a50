//! The world snapshot: the tick counter, the id allocator and every live
//! instance.

use vstd::prelude::*;
use std::collections::HashMap;
use crate::game::character::{fresh_instance, Character, CharacterInstance};
use crate::game::networking::CharacterInput;
use crate::game::{PlayerView, Roster};

verus! {

/// What a world snapshot holds: how many ticks have passed, the id that the
/// next instance gets, and the live instances in ascending order of their
/// ids.
pub ghost struct WorldView {
    pub counter: usize,
    pub current_id: u32,
    pub characters: Seq<CharacterInstance>,
}

/// The ids of the instances ascend strictly, so that none occurs twice, and
/// all of them lie below `next_id`.
pub open spec fn ordered_below(instances: Seq<CharacterInstance>, next_id: u32) -> bool {
    &&& forall|i: int, j: int|
        0 <= i < j < instances.len() ==> (#[trigger] instances[i]).object_id
            < (#[trigger] instances[j]).object_id
    &&& forall|i: int|
        0 <= i < instances.len() ==> (#[trigger] instances[i]).object_id < next_id
}

/// An instance with the given id is among `instances`.
pub open spec fn holds_instance(instances: Seq<CharacterInstance>, id: u32) -> bool {
    exists|i: int| 0 <= i < instances.len() && (#[trigger] instances[i]).object_id == id
}

/// The index at which the instance with the given id stands.
pub open spec fn place_of(instances: Seq<CharacterInstance>, id: u32) -> int {
    choose|i: int| 0 <= i < instances.len() && (#[trigger] instances[i]).object_id == id
}

/// The instances with the input of the one with the given id replaced, if
/// that one is among them.
pub open spec fn with_input(instances: Seq<CharacterInstance>, id: u32, input: CharacterInput)
    -> Seq<CharacterInstance> {
    if holds_instance(instances, id) {
        let at = place_of(instances, id);
        instances.update(at, CharacterInstance { input, ..instances[at] })
    } else {
        instances
    }
}

/// The instances after every player, in the order of the roster, has handed
/// its input to the instance it controls.
pub open spec fn with_inputs(instances: Seq<CharacterInstance>, players: Seq<PlayerView>) -> Seq<
    CharacterInstance,
>
    decreases players.len(),
{
    if players.len() == 0 {
        instances
    } else {
        let before = with_inputs(instances, players.drop_last());
        match players.last().instance {
            Some(id) => with_input(before, id, players.last().input),
            None => before,
        }
    }
}

/// An instance one tick later: stepped by its definition, or left alone
/// where the table has no definition for it.
pub open spec fn stepped_in(instance: CharacterInstance, sheets: Map<u32, Character>)
    -> CharacterInstance {
    if sheets.contains_key(instance.character) {
        instance.stepped(sheets[instance.character])
    } else {
        instance
    }
}

/// The instances without the one that has the given id.
pub open spec fn without_instance(instances: Seq<CharacterInstance>, id: u32) -> Seq<
    CharacterInstance,
> {
    if holds_instance(instances, id) {
        instances.remove(place_of(instances, id))
    } else {
        instances
    }
}

/// The instances with the one that has the given id handed to another
/// character and restarted, if that one is among them.
pub open spec fn rebound(instances: Seq<CharacterInstance>, id: u32, character: u32) -> Seq<
    CharacterInstance,
> {
    if holds_instance(instances, id) {
        let at = place_of(instances, id);
        instances.update(at, (CharacterInstance { character, ..instances[at] }).restarted())
    } else {
        instances
    }
}

/// `a + 1`, held at the largest `usize`.
pub open spec fn next_count(a: usize) -> usize {
    if a == usize::MAX {
        a
    } else {
        (a + 1) as usize
    }
}

/// Where ids ascend strictly, an id stands at one index only.
pub proof fn lemma_place_of(instances: Seq<CharacterInstance>, next_id: u32, at: int)
    requires
        ordered_below(instances, next_id),
        0 <= at < instances.len(),
    ensures
        holds_instance(instances, instances[at].object_id),
        place_of(instances, instances[at].object_id) == at,
{
    let id = instances[at].object_id;
    let found = place_of(instances, id);
    assert(0 <= found < instances.len() && instances[found].object_id == id);
    if found < at {
        assert(instances[found].object_id < instances[at].object_id);
    } else if at < found {
        assert(instances[at].object_id < instances[found].object_id);
    }
}

/// A change that keeps every id where it stands keeps the order of the ids.
pub proof fn lemma_same_ids(
    before: Seq<CharacterInstance>,
    after: Seq<CharacterInstance>,
    next_id: u32,
)
    requires
        ordered_below(before, next_id),
        after.len() == before.len(),
        forall|i: int|
            0 <= i < before.len() ==> (#[trigger] after[i]).object_id == before[i].object_id,
    ensures
        ordered_below(after, next_id),
        forall|id: u32| holds_instance(after, id) == holds_instance(before, id),
        forall|id: u32|
            holds_instance(before, id) ==> place_of(after, id) == place_of(before, id),
{
    assert forall|i: int, j: int| 0 <= i < j < after.len() implies (#[trigger] after[i]).object_id
        < (#[trigger] after[j]).object_id by {
        assert(before[i].object_id < before[j].object_id);
    }
    assert forall|i: int| 0 <= i < after.len() implies (#[trigger] after[i]).object_id
        < next_id by {
        assert(before[i].object_id < next_id);
    }
    assert forall|id: u32| holds_instance(after, id) == holds_instance(before, id) by {
        if holds_instance(after, id) {
            let i = place_of(after, id);
            assert(before[i].object_id == id);
        }
        if holds_instance(before, id) {
            let i = place_of(before, id);
            assert(after[i].object_id == id);
        }
    }
    assert forall|id: u32| holds_instance(before, id) implies place_of(after, id) == place_of(
        before,
        id,
    ) by {
        let i = place_of(before, id);
        assert(after[i].object_id == id);
        lemma_place_of(after, next_id, i);
    }
}

/// Handing inputs over keeps every id where it stands.
pub proof fn lemma_with_inputs_ids(
    instances: Seq<CharacterInstance>,
    players: Seq<PlayerView>,
    next_id: u32,
)
    requires
        ordered_below(instances, next_id),
    ensures
        with_inputs(instances, players).len() == instances.len(),
        forall|i: int|
            0 <= i < instances.len() ==> (#[trigger] with_inputs(instances, players)[i]).object_id
                == instances[i].object_id,
        ordered_below(with_inputs(instances, players), next_id),
    decreases players.len(),
{
    if players.len() > 0 {
        lemma_with_inputs_ids(instances, players.drop_last(), next_id);
        let before = with_inputs(instances, players.drop_last());
        lemma_same_ids(instances, with_inputs(instances, players), next_id);
    }
}

/// Taking one instance out keeps the order of the ids and leaves no
/// instance with the id that was taken.
pub proof fn lemma_remove_keeps_order(before: Seq<CharacterInstance>, next_id: u32, at: int)
    requires
        ordered_below(before, next_id),
        0 <= at < before.len(),
    ensures
        ordered_below(before.remove(at), next_id),
        !holds_instance(before.remove(at), before[at].object_id),
        forall|id: u32|
            id != before[at].object_id ==> holds_instance(before.remove(at), id)
                == holds_instance(before, id),
{
    let after = before.remove(at);
    let gone = before[at].object_id;
    assert forall|a: int, b: int| 0 <= a < b < after.len() implies (#[trigger] after[a]).object_id
        < (#[trigger] after[b]).object_id by {
        let a0 = if a < at { a } else { a + 1 };
        let b0 = if b < at { b } else { b + 1 };
        assert(before[a0].object_id < before[b0].object_id);
    }
    assert forall|a: int| 0 <= a < after.len() implies (#[trigger] after[a]).object_id
        < next_id by {
        let a0 = if a < at { a } else { a + 1 };
        assert(before[a0].object_id < next_id);
    }
    if holds_instance(after, gone) {
        let k = place_of(after, gone);
        let k0 = if k < at { k } else { k + 1 };
        assert(before[k0].object_id == gone);
        lemma_place_of(before, next_id, k0);
    }
    assert forall|id: u32| id != gone implies holds_instance(after, id) == holds_instance(
        before,
        id,
    ) by {
        if holds_instance(after, id) {
            let k = place_of(after, id);
            let k0 = if k < at { k } else { k + 1 };
            assert(before[k0].object_id == id);
        }
        if holds_instance(before, id) {
            let k = place_of(before, id);
            let k1 = if k < at { k } else { k - 1 };
            assert(after[k1].object_id == id);
        }
    }
}

/// Looks for the instance with the given id.
fn find_place(list: &Vec<CharacterInstance>, id: u32, Ghost(next_id): Ghost<u32>) -> (at: Option<
    usize,
>)
    requires
        ordered_below(list@, next_id),
    ensures
        match at {
            Some(i) => holds_instance(list@, id) && i == place_of(list@, id) && i < list@.len()
                && list@[i as int].object_id == id,
            None => !holds_instance(list@, id),
        },
{
    let mut i: usize = 0;
    while i < list.len()
        invariant
            i <= list.len(),
            ordered_below(list@, next_id),
            forall|k: int| 0 <= k < i ==> (#[trigger] list@[k]).object_id != id,
        decreases list.len() - i,
    {
        if list[i].object_id == id {
            proof {
                lemma_place_of(list@, next_id, i as int);
            }
            return Some(i);
        }
        i += 1;
    }
    None
}

/// Every instance is filed under its own id, no id occurs twice, and every
/// id lies below `next_id`.
pub open spec fn well_filed(entries: Seq<(u32, CharacterInstance)>, next_id: u32) -> bool {
    &&& forall|k: int|
        0 <= k < entries.len() ==> (#[trigger] entries[k]).0 == entries[k].1.object_id
            && entries[k].0 < next_id
    &&& forall|j: int, k: int|
        0 <= j < k < entries.len() ==> (#[trigger] entries[j]).0 != (#[trigger] entries[k]).0
}

/// `instances` holds the instances of `entries`, each once, and no other.
pub open spec fn same_instances(
    instances: Seq<CharacterInstance>,
    entries: Seq<(u32, CharacterInstance)>,
) -> bool {
    &&& instances.len() == entries.len()
    &&& forall|k: int| 0 <= k < entries.len() ==> instances.contains((#[trigger] entries[k]).1)
    &&& forall|i: int|
        0 <= i < instances.len() ==> exists|k: int|
            0 <= k < entries.len() && (#[trigger] entries[k]).1 == #[trigger] instances[i]
}

/// The world snapshot.
pub struct WorldMap {
    counter: usize,
    current_id: u32,
    characters: Vec<CharacterInstance>,
    statics: Vec<()>,
}

impl View for WorldMap {
    type V = WorldView;

    closed spec fn view(&self) -> WorldView {
        WorldView {
            counter: self.counter,
            current_id: self.current_id,
            characters: self.characters@,
        }
    }
}

impl Clone for WorldMap {
    fn clone(&self) -> (copy: WorldMap)
        ensures
            copy@ == self@,
    {
        proof {
            use_type_invariant(self);
        }
        let characters = self.characters.clone();
        assert(characters@ =~= self.characters@);
        WorldMap {
            counter: self.counter,
            current_id: self.current_id,
            characters,
            statics: Vec::new(),
        }
    }
}

impl WorldMap {
    #[verifier::type_invariant]
    closed spec fn sound(&self) -> bool {
        &&& ordered_below(self.characters@, self.current_id)
        &&& self.statics@.len() == 0
    }

    /// The empty world before its first tick.
    pub fn test() -> (world: WorldMap)
        ensures
            world@ == (WorldView { counter: 0, current_id: 0, characters: Seq::empty() }),
    {
        WorldMap { counter: 0, characters: Vec::new(), current_id: 0, statics: Vec::new() }
    }

    /// A world made of its parts, if the ids of the instances ascend strictly
    /// and lie below `current_id`.
    pub fn from_parts(counter: usize, current_id: u32, characters: Vec<CharacterInstance>) -> (world:
        Option<WorldMap>)
        ensures
            match world {
                Some(w) => ordered_below(characters@, current_id) && w@ == (WorldView {
                    counter,
                    current_id,
                    characters: characters@,
                }),
                None => !ordered_below(characters@, current_id),
            },
    {
        let mut i: usize = 0;
        while i < characters.len()
            invariant
                i <= characters.len(),
                ordered_below(characters@.subrange(0, i as int), current_id),
            decreases characters.len() - i,
        {
            let id = characters[i].object_id;
            if id >= current_id {
                return None;
            }
            if i > 0 && characters[i - 1].object_id >= id {
                return None;
            }
            proof {
                let shorter = characters@.subrange(0, i as int);
                let longer = characters@.subrange(0, i + 1);
                assert forall|a: int, b: int| 0 <= a < b < longer.len() implies (
                #[trigger] longer[a]).object_id < (#[trigger] longer[b]).object_id by {
                    if b < i {
                        assert(shorter[a].object_id < shorter[b].object_id);
                    } else if a < i - 1 {
                        assert(shorter[a].object_id < shorter[i - 1].object_id);
                    }
                }
                assert forall|a: int| 0 <= a < longer.len() implies (#[trigger] longer[a]).object_id
                    < current_id by {
                    if a < i {
                        assert(shorter[a].object_id < current_id);
                    }
                }
            }
            i += 1;
        }
        assert(characters@.subrange(0, i as int) =~= characters@);
        Some(WorldMap { counter, current_id, characters, statics: Vec::new() })
    }

    /// A world made of instances filed under ids, in any order: the world
    /// that holds them in ascending order of their ids, if every instance is
    /// filed under its own id, no id occurs twice and all lie below
    /// `current_id`.
    pub fn from_entries(counter: usize, current_id: u32, entries: Vec<(u32, CharacterInstance)>)
        -> (world: Option<WorldMap>)
        ensures
            match world {
                Some(w) => well_filed(entries@, current_id) && w@.counter == counter
                    && w@.current_id == current_id && ordered_below(w@.characters, current_id)
                    && same_instances(w@.characters, entries@),
                None => !well_filed(entries@, current_id),
            },
    {
        let mut sorted: Vec<CharacterInstance> = Vec::new();
        let mut k: usize = 0;
        while k < entries.len()
            invariant
                k <= entries.len(),
                ordered_below(sorted@, current_id),
                well_filed(entries@.subrange(0, k as int), current_id),
                same_instances(sorted@, entries@.subrange(0, k as int)),
            decreases entries.len() - k,
        {
            let ghost done = entries@.subrange(0, k as int);
            let ghost more = entries@.subrange(0, k + 1);
            let key = entries[k].0;
            let instance = entries[k].1;
            if key != instance.object_id || key >= current_id {
                assert(entries@[k as int].0 == key);
                return None;
            }
            let mut pos: usize = 0;
            while pos < sorted.len() && sorted[pos].object_id < key
                invariant
                    pos <= sorted.len(),
                    forall|i: int| 0 <= i < pos ==> (#[trigger] sorted@[i]).object_id < key,
                decreases sorted.len() - pos,
            {
                pos += 1;
            }
            if pos < sorted.len() && sorted[pos].object_id == key {
                proof {
                    let j = choose|j: int|
                        0 <= j < done.len() && (#[trigger] done[j]).1 == sorted@[pos as int];
                    assert(done[j].0 == done[j].1.object_id);
                    assert(entries@[j].0 == entries@[k as int].0);
                }
                return None;
            }
            let ghost before = sorted@;
            sorted.insert(pos, instance);
            proof {
                let after = sorted@;
                assert(after.len() == before.len() + 1);
                assert(after[pos as int] == instance);
                assert forall|i: int| 0 <= i < pos implies #[trigger] after[i] == before[i] by {}
                assert forall|i: int| pos < i < after.len() implies #[trigger] after[i] == before[i
                    - 1] by {}
                assert forall|i: int| pos <= i < before.len() implies (
                #[trigger] before[i]).object_id > key by {
                    if i > pos {
                        assert(before[pos as int].object_id < before[i].object_id);
                    }
                }
                assert forall|a: int, b: int| 0 <= a < b < after.len() implies (
                #[trigger] after[a]).object_id < (#[trigger] after[b]).object_id by {
                    let a0 = if a < pos { a } else { a - 1 };
                    let b0 = if b < pos { b } else { b - 1 };
                    if a != pos && b != pos {
                        assert(before[a0].object_id < before[b0].object_id);
                    } else if a == pos {
                        assert(before[b0].object_id > key);
                    } else {
                        assert(before[a0].object_id < key);
                    }
                }
                assert forall|i: int| 0 <= i < after.len() implies (#[trigger] after[i]).object_id
                    < current_id by {
                    if i < pos {
                        assert(before[i].object_id < current_id);
                    } else if i > pos {
                        assert(before[i - 1].object_id < current_id);
                    }
                }
                assert forall|n: int| 0 <= n < more.len() implies (#[trigger] more[n]).0
                    == more[n].1.object_id && more[n].0 < current_id by {
                    if n < k {
                        assert(done[n].0 == done[n].1.object_id);
                    }
                }
                assert forall|m: int, n: int| 0 <= m < n < more.len() implies (
                #[trigger] more[m]).0 != (#[trigger] more[n]).0 by {
                    if n < k {
                        assert(done[m].0 != done[n].0);
                    } else {
                        assert(before.contains(done[m].1));
                        let i = choose|i: int| 0 <= i < before.len() && before[i] == done[m].1;
                        assert(done[m].0 == done[m].1.object_id);
                        if i < pos {
                            assert(before[i].object_id < key);
                        } else {
                            assert(before[i].object_id > key);
                        }
                    }
                }
                assert forall|n: int| 0 <= n < more.len() implies after.contains(
                    (#[trigger] more[n]).1,
                ) by {
                    if n < k {
                        assert(before.contains(done[n].1));
                        let i = choose|i: int| 0 <= i < before.len() && before[i] == done[n].1;
                        if i < pos {
                            assert(after[i] == done[n].1);
                        } else {
                            assert(after[i + 1] == done[n].1);
                        }
                    } else {
                        assert(after[pos as int] == more[n].1);
                    }
                }
                assert forall|i: int| 0 <= i < after.len() implies exists|n: int|
                    0 <= n < more.len() && (#[trigger] more[n]).1 == #[trigger] after[i] by {
                    if i == pos {
                        assert(more[k as int].1 == after[i]);
                    } else {
                        let i0 = if i < pos { i } else { i - 1 };
                        let n = choose|n: int|
                            0 <= n < done.len() && (#[trigger] done[n]).1 == before[i0];
                        assert(more[n].1 == after[i]);
                    }
                }
            }
            k += 1;
        }
        assert(entries@.subrange(0, k as int) =~= entries@);
        Some(WorldMap { counter, current_id, characters: sorted, statics: Vec::new() })
    }

    /// The static geometry of the world, of which there is none.
    pub fn statics(&self) -> (all: &Vec<()>)
        ensures
            all@.len() == 0,
    {
        proof {
            use_type_invariant(self);
        }
        &self.statics
    }

    /// How many ticks have passed.
    pub fn counter(&self) -> (n: usize)
        ensures
            n == self@.counter,
    {
        self.counter
    }

    /// The id that the next instance gets.
    pub fn current_id(&self) -> (id: u32)
        ensures
            id == self@.current_id,
    {
        self.current_id
    }

    /// The live instances, in ascending order of their ids.
    pub fn characters(&self) -> (all: &Vec<CharacterInstance>)
        ensures
            all@ == self@.characters,
            ordered_below(all@, self@.current_id),
    {
        proof {
            use_type_invariant(self);
        }
        &self.characters
    }

    /// The instance with the given id, if it is alive.
    pub fn instance(&self, id: u32) -> (found: Option<CharacterInstance>)
        ensures
            match found {
                Some(c) => holds_instance(self@.characters, id) && c == self@.characters[place_of(
                    self@.characters,
                    id,
                )] && c.object_id == id,
                None => !holds_instance(self@.characters, id),
            },
    {
        proof {
            use_type_invariant(self);
        }
        match find_place(&self.characters, id, Ghost(self.current_id)) {
            Some(i) => Some(self.characters[i]),
            None => None,
        }
    }

    /// Brings a fresh instance of `character` into the world and hands out
    /// its id, which no instance has had before.
    pub fn new_istance(&mut self, character: u32) -> (id: u32)
        requires
            old(self)@.current_id < u32::MAX,
        ensures
            id == old(self)@.current_id,
            final(self)@ == (WorldView {
                counter: old(self)@.counter,
                current_id: (id + 1) as u32,
                characters: old(self)@.characters.push(fresh_instance(character, id)),
            }),
            !holds_instance(old(self)@.characters, id),
    {
        proof {
            use_type_invariant(&*self);
        }
        let out = self.current_id;
        let ghost before = self.characters@;
        let mut characters: Vec<CharacterInstance> = Vec::new();
        std::mem::swap(&mut characters, &mut self.characters);
        characters.push(CharacterInstance::new(character, out));
        proof {
            let after = characters@;
            assert forall|i: int, j: int| 0 <= i < j < after.len() implies (
            #[trigger] after[i]).object_id < (#[trigger] after[j]).object_id by {
                if j < before.len() {
                    assert(before[i].object_id < before[j].object_id);
                } else {
                    assert(before[i].object_id < out);
                }
            }
            assert forall|i: int| 0 <= i < after.len() implies (#[trigger] after[i]).object_id < out
                + 1 by {
                if i < before.len() {
                    assert(before[i].object_id < out);
                }
            }
            if holds_instance(before, out) {
                let k = place_of(before, out);
                assert(before[k].object_id < out);
            }
        }
        *self = WorldMap {
            counter: self.counter,
            current_id: out + 1,
            characters,
            statics: Vec::new(),
        };
        out
    }

    /// Takes the instance with the given id out of the world. Tells whether
    /// there was one.
    pub fn remove_instance(&mut self, id: u32) -> (removed: bool)
        ensures
            removed == holds_instance(old(self)@.characters, id),
            final(self)@ == (WorldView {
                characters: without_instance(old(self)@.characters, id),
                ..old(self)@
            }),
            !holds_instance(final(self)@.characters, id),
            ordered_below(final(self)@.characters, final(self)@.current_id),
    {
        proof {
            use_type_invariant(&*self);
        }
        let ghost before = self.characters@;
        match find_place(&self.characters, id, Ghost(self.current_id)) {
            Some(i) => {
                let mut characters: Vec<CharacterInstance> = Vec::new();
                std::mem::swap(&mut characters, &mut self.characters);
                characters.remove(i);
                proof {
                    lemma_remove_keeps_order(before, self.current_id, i as int);
                }
                self.characters = characters;
                true
            },
            None => false,
        }
    }

    /// Hands the instance with the given id to another character and puts
    /// it back to its start; its id stays. Tells whether there was one.
    pub fn rebind(&mut self, id: u32, character: u32) -> (done: bool)
        ensures
            done == holds_instance(old(self)@.characters, id),
            final(self)@ == (WorldView {
                characters: rebound(old(self)@.characters, id, character),
                ..old(self)@
            }),
    {
        proof {
            use_type_invariant(&*self);
        }
        let ghost before = self.characters@;
        match find_place(&self.characters, id, Ghost(self.current_id)) {
            Some(i) => {
                let mut instance = self.characters[i];
                instance.character = character;
                instance.reset();
                let mut characters: Vec<CharacterInstance> = Vec::new();
                std::mem::swap(&mut characters, &mut self.characters);
                characters.set(i, instance);
                proof {
                    lemma_same_ids(before, characters@, self.current_id);
                }
                self.characters = characters;
                true
            },
            None => false,
        }
    }

    /// Hands every player's input to the instance that the player controls,
    /// in the order of the roster.
    pub fn set_inputs(&mut self, players: Roster)
        ensures
            final(self)@ == (WorldView {
                characters: with_inputs(old(self)@.characters, players@),
                ..old(self)@
            }),
    {
        proof {
            use_type_invariant(&*self);
        }
        let ghost start = self.characters@;
        let ghost next_id = self.current_id;
        let mut characters: Vec<CharacterInstance> = Vec::new();
        std::mem::swap(&mut characters, &mut self.characters);
        let list = players.players();
        let mut k: usize = 0;
        while k < list.len()
            invariant
                k <= list.len(),
                list@.len() == players@.len(),
                forall|n: int| 0 <= n < list@.len() ==> (#[trigger] list@[n])@ == players@[n],
                ordered_below(start, next_id),
                characters@ == with_inputs(start, players@.subrange(0, k as int)),
            decreases list.len() - k,
        {
            let ghost done = players@.subrange(0, k as int);
            let ghost more = players@.subrange(0, k + 1);
            proof {
                assert(more.drop_last() =~= done);
                assert(more.last() == players@[k as int]);
                lemma_with_inputs_ids(start, done, next_id);
            }
            let player = &list[k];
            if let Some(id) = player.instance {
                if let Some(i) = find_place(&characters, id, Ghost(next_id)) {
                    let mut instance = characters[i];
                    instance.input = player.input;
                    characters.set(i, instance);
                }
            }
            k += 1;
        }
        proof {
            assert(players@.subrange(0, k as int) =~= players@);
            lemma_with_inputs_ids(start, players@, next_id);
        }
        self.characters = characters;
    }

    /// Advances every instance by one tick, each by the definition of its
    /// character; an instance whose character has no definition stays as
    /// it is.
    pub fn update(&mut self, char_sheet: &HashMap<u32, Character>)
        ensures
            final(self)@ == (WorldView {
                characters: old(self)@.characters.map_values(
                    |c: CharacterInstance| stepped_in(c, char_sheet@),
                ),
                ..old(self)@
            }),
    {
        broadcast use vstd::std_specs::hash::group_hash_axioms;

        proof {
            use_type_invariant(&*self);
        }
        let ghost start = self.characters@;
        let ghost next_id = self.current_id;
        let ghost goal = start.map_values(|c: CharacterInstance| stepped_in(c, char_sheet@));
        let mut characters: Vec<CharacterInstance> = Vec::new();
        std::mem::swap(&mut characters, &mut self.characters);
        let mut i: usize = 0;
        while i < characters.len()
            invariant
                i <= characters.len(),
                characters@.len() == start.len(),
                goal == start.map_values(|c: CharacterInstance| stepped_in(c, char_sheet@)),
                forall|k: int| 0 <= k < i ==> (#[trigger] characters@[k]) == goal[k],
                forall|k: int| i <= k < start.len() ==> (#[trigger] characters@[k]) == start[k],
            decreases characters.len() - i,
        {
            let mut instance = characters[i];
            if let Some(sheet) = char_sheet.get(&instance.character) {
                instance.update(sheet);
            }
            characters.set(i, instance);
            i += 1;
        }
        proof {
            assert(characters@ =~= goal);
            assert forall|k: int| 0 <= k < start.len() implies (#[trigger] goal[k]).object_id
                == start[k].object_id by {}
            lemma_same_ids(start, goal, next_id);
        }
        self.characters = characters;
    }

    /// Counts one more tick; the count stays at the largest `usize`.
    pub fn count_tick(&mut self)
        ensures
            final(self)@ == (WorldView {
                counter: next_count(old(self)@.counter),
                ..old(self)@
            }),
    {
        proof {
            use_type_invariant(&*self);
        }
        if self.counter < usize::MAX {
            self.counter = self.counter + 1;
        }
    }
}

} // verus!
