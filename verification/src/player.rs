//! The player record: name, current location, inventory, and the
//! descriptions of the quests completed so far.

use vstd::prelude::*;

verus! {

/// Mutable state of the one player: produced at startup, mutated by the
/// exploration commands, persisted verbatim by the save-document codec.
pub struct Player {
    pub name: String,
    pub current_location: String,
    pub inventory: Vec<String>,
    pub completed_quests: Vec<String>,
}

/// Mathematical image of a [`Player`].
pub struct PlayerView {
    pub name: Seq<char>,
    pub current_location: Seq<char>,
    pub inventory: Seq<Seq<char>>,
    pub completed_quests: Seq<Seq<char>>,
}

impl View for Player {
    type V = PlayerView;

    open spec fn view(&self) -> PlayerView {
        PlayerView {
            name: self.name@,
            current_location: self.current_location@,
            inventory: self.inventory.deep_view(),
            completed_quests: self.completed_quests.deep_view(),
        }
    }
}

impl Player {
    /// A fresh player stands at `start_location` with nothing in the
    /// inventory and no quest completed.
    pub fn new(name: &str, start_location: &str) -> (p: Player)
        ensures
            p@.name == name@,
            p@.current_location == start_location@,
            p@.inventory == Seq::<Seq<char>>::empty(),
            p@.completed_quests == Seq::<Seq<char>>::empty(),
    {
        let p = Player {
            name: name.to_owned(),
            current_location: start_location.to_owned(),
            inventory: Vec::new(),
            completed_quests: Vec::new(),
        };
        proof {
            assert(p@.inventory =~= Seq::<Seq<char>>::empty());
            assert(p@.completed_quests =~= Seq::<Seq<char>>::empty());
        }
        p
    }
}

/// The starting player: an adventurer at Home.
pub fn setup_player() -> (p: Player)
    ensures
        p@.name == "Adventurer"@,
        p@.current_location == "Home"@,
        p@.inventory == Seq::<Seq<char>>::empty(),
        p@.completed_quests == Seq::<Seq<char>>::empty(),
{
    Player::new("Adventurer", "Home")
}

} // verus!
