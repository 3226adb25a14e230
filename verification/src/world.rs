//! The world map: named locations joined by directional exits, each location
//! carrying a list of quests. Built once at startup and immutable afterwards.
//!
//! Every lookup returns an explicit found/not-found outcome, so a player
//! record whose current location is not a key of the map can never fault.

use vstd::prelude::*;

verus! {

/// A textual objective attached to a location.
pub struct Quest {
    pub description: String,
    pub completed: bool,
    pub rust_concept: String,
}

/// Mathematical image of a [`Quest`].
pub struct QuestView {
    pub description: Seq<char>,
    pub completed: bool,
    pub rust_concept: Seq<char>,
}

impl View for Quest {
    type V = QuestView;

    open spec fn view(&self) -> QuestView {
        QuestView {
            description: self.description@,
            completed: self.completed,
            rust_concept: self.rust_concept@,
        }
    }
}

impl Quest {
    /// A fresh quest starts uncompleted.
    pub fn new(description: &str, rust_concept: &str) -> (q: Quest)
        ensures
            q@.description == description@,
            q@.completed == false,
            q@.rust_concept == rust_concept@,
    {
        Quest {
            description: description.to_owned(),
            completed: false,
            rust_concept: rust_concept.to_owned(),
        }
    }
}

/// A directed edge of the world graph: follow `direction` and arrive at the
/// location whose identifier is `destination`.
pub struct Exit {
    pub direction: String,
    pub destination: String,
}

/// Mathematical image of an [`Exit`].
pub struct ExitView {
    pub direction: Seq<char>,
    pub destination: Seq<char>,
}

impl View for Exit {
    type V = ExitView;

    open spec fn view(&self) -> ExitView {
        ExitView { direction: self.direction@, destination: self.destination@ }
    }
}

/// A place in the world: a display name, a description, quests to read, and
/// exits keyed by direction label.
pub struct Location {
    pub name: String,
    pub description: String,
    pub quests: Vec<Quest>,
    pub exits: Vec<Exit>,
}

/// Mathematical image of a [`Location`].
pub struct LocationView {
    pub name: Seq<char>,
    pub description: Seq<char>,
    pub quests: Seq<QuestView>,
    pub exits: Seq<ExitView>,
}

impl View for Location {
    type V = LocationView;

    open spec fn view(&self) -> LocationView {
        LocationView {
            name: self.name@,
            description: self.description@,
            quests: self.quests@.map_values(|q: Quest| q@),
            exits: self.exits@.map_values(|e: Exit| e@),
        }
    }
}

/// The destination of the first exit labelled `dir`, if any.
pub open spec fn exit_lookup(exits: Seq<ExitView>, dir: Seq<char>) -> Option<Seq<char>>
    decreases exits.len(),
{
    if exits.len() == 0 {
        None
    } else if exits[0].direction == dir {
        Some(exits[0].destination)
    } else {
        exit_lookup(exits.skip(1), dir)
    }
}

impl Location {
    /// A fresh location has no quests and no exits yet.
    pub fn new(name: &str, description: &str) -> (l: Location)
        ensures
            l@.name == name@,
            l@.description == description@,
            l@.quests == Seq::<QuestView>::empty(),
            l@.exits == Seq::<ExitView>::empty(),
    {
        let l = Location {
            name: name.to_owned(),
            description: description.to_owned(),
            quests: Vec::new(),
            exits: Vec::new(),
        };
        proof {
            assert(l@.quests =~= Seq::<QuestView>::empty());
            assert(l@.exits =~= Seq::<ExitView>::empty());
        }
        l
    }

    /// Adds an exit labelled `direction` leading to `destination`.
    pub fn add_exit(&mut self, direction: &str, destination: &str)
        ensures
            final(self)@ == (LocationView {
                exits: old(self)@.exits.push(ExitView { direction: direction@, destination: destination@ }),
                ..old(self)@
            }),
    {
        self.exits.push(Exit { direction: direction.to_owned(), destination: destination.to_owned() });
        proof {
            assert(self@.exits =~= old(self)@.exits.push(
                ExitView { direction: direction@, destination: destination@ },
            ));
        }
    }

    /// Adds `quest` at the end of the location's quest list.
    pub fn add_quest(&mut self, quest: Quest)
        ensures
            final(self)@ == (LocationView { quests: old(self)@.quests.push(quest@), ..old(self)@ }),
    {
        let ghost qv = quest@;
        self.quests.push(quest);
        proof {
            assert(self@.quests =~= old(self)@.quests.push(qv));
        }
    }

    /// Looks up the exit labelled `dir`; `None` means there is no way to go.
    pub fn exit_to(&self, dir: &str) -> (r: Option<&String>)
        ensures
            match r {
                Some(dest) => exit_lookup(self@.exits, dir@) == Some(dest@),
                None => exit_lookup(self@.exits, dir@) is None,
            },
    {
        let n = self.exits.len();
        proof {
            assert(self@.exits.skip(0) =~= self@.exits);
        }
        for i in 0..n
            invariant
                n == self.exits.len(),
                exit_lookup(self@.exits, dir@) == exit_lookup(self@.exits.skip(i as int), dir@),
        {
            proof {
                assert(self@.exits.skip(i as int)[0] == self@.exits[i as int]);
                assert(self@.exits.skip(i as int).skip(1) =~= self@.exits.skip(i + 1));
            }
            if crate::text::str_eq(self.exits[i].direction.as_str(), dir) {
                return Some(&self.exits[i].destination);
            }
        }
        proof {
            assert(self@.exits.skip(n as int) =~= Seq::<ExitView>::empty());
        }
        None
    }
}

/// One entry of the world map: a location under its identifier.
pub struct WorldEntry {
    pub id: String,
    pub location: Location,
}

/// Mathematical image of a [`WorldEntry`].
pub struct WorldEntryView {
    pub id: Seq<char>,
    pub location: LocationView,
}

impl View for WorldEntry {
    type V = WorldEntryView;

    open spec fn view(&self) -> WorldEntryView {
        WorldEntryView { id: self.id@, location: self.location@ }
    }
}

/// The world map: locations under their identifiers, in insertion order.
pub struct World {
    pub entries: Vec<WorldEntry>,
}

impl View for World {
    type V = Seq<WorldEntryView>;

    open spec fn view(&self) -> Seq<WorldEntryView> {
        self.entries@.map_values(|e: WorldEntry| e@)
    }
}

/// The location stored under the first entry whose identifier is `id`.
pub open spec fn world_lookup(entries: Seq<WorldEntryView>, id: Seq<char>) -> Option<LocationView>
    decreases entries.len(),
{
    if entries.len() == 0 {
        None
    } else if entries[0].id == id {
        Some(entries[0].location)
    } else {
        world_lookup(entries.skip(1), id)
    }
}

/// A well-formed world stores each identifier at most once.
pub open spec fn world_wf(entries: Seq<WorldEntryView>) -> bool {
    forall|i: int, j: int|
        0 <= i < j < entries.len() ==> entries[i].id != entries[j].id
}

impl World {
    /// Looks the identifier up; `None` is the explicit "no such location"
    /// outcome that replaces a faulting map dereference.
    pub fn lookup(&self, id: &str) -> (r: Option<&Location>)
        ensures
            match r {
                Some(l) => world_lookup(self@, id@) == Some(l@),
                None => world_lookup(self@, id@) is None,
            },
    {
        let n = self.entries.len();
        proof {
            assert(self@.skip(0) =~= self@);
        }
        for i in 0..n
            invariant
                n == self.entries.len(),
                world_lookup(self@, id@) == world_lookup(self@.skip(i as int), id@),
        {
            proof {
                assert(self@.skip(i as int)[0] == self@[i as int]);
                assert(self@.skip(i as int).skip(1) =~= self@.skip(i + 1));
            }
            if crate::text::str_eq(self.entries[i].id.as_str(), id) {
                return Some(&self.entries[i].location);
            }
        }
        proof {
            assert(self@.skip(n as int) =~= Seq::<WorldEntryView>::empty());
        }
        None
    }
}

/// Builds the two-location starting world: Home, with an exit north to the
/// Forest, and the Forest, with one quest and an exit south back Home.
pub fn setup_locations() -> (w: World)
    ensures
        w@.len() == 2,
        w@[0].id == "Home"@,
        w@[0].location.name == "Home"@,
        w@[0].location.description == "You are in your cozy home."@,
        w@[0].location.quests.len() == 0,
        w@[0].location.exits.len() == 1,
        w@[0].location.exits[0].direction == "north"@,
        w@[0].location.exits[0].destination == "Forest"@,
        w@[1].id == "Forest"@,
        w@[1].location.name == "Forest"@,
        w@[1].location.description == "You are in a dark, spooky forest."@,
        w@[1].location.quests.len() == 1,
        w@[1].location.quests[0].description == "Find a stick to defend yourself."@,
        w@[1].location.quests[0].completed == false,
        w@[1].location.quests[0].rust_concept == "variables"@,
        w@[1].location.exits.len() == 1,
        w@[1].location.exits[0].direction == "south"@,
        w@[1].location.exits[0].destination == "Home"@,
        world_wf(w@),
{
    let mut home = Location::new("Home", "You are in your cozy home.");
    home.add_exit("north", "Forest");

    let mut forest = Location::new("Forest", "You are in a dark, spooky forest.");
    forest.add_quest(Quest::new("Find a stick to defend yourself.", "variables"));
    forest.add_exit("south", "Home");

    let mut entries: Vec<WorldEntry> = Vec::new();
    entries.push(WorldEntry { id: "Home".to_owned(), location: home });
    entries.push(WorldEntry { id: "Forest".to_owned(), location: forest });
    let w = World { entries };
    proof {
        reveal_strlit("Home");
        reveal_strlit("Forest");
        assert("Home"@.len() == 4);
        assert("Forest"@.len() == 6);
        assert(w@[0].id == "Home"@);
        assert(w@[1].id == "Forest"@);
        assert(w@[0].id != w@[1].id);
    }
    w
}

} // verus!
