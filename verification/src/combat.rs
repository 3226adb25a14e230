//! The encounter resolver: one enemy, a turn-based attack/run protocol.
//!
//! Each turn the player either attacks (the enemy loses a fixed amount of
//! health, and the encounter ends in victory once health drops to zero or
//! below), runs (the encounter ends at once, the enemy untouched), or types
//! something else (the turn is repeated; the enemy does not strike back on
//! input it did not understand).

use vstd::prelude::*;

verus! {

/// Health lost by the enemy on each successful attack.
pub const ATTACK_DAMAGE: i32 = 10;

/// The single opponent of the scripted encounter. No damage is ever applied
/// to the player: the player has no health record, and `damage` is carried
/// but never consumed.
pub struct Enemy {
    pub name: String,
    pub health: i32,
    pub damage: i32,
}

/// Mathematical image of an [`Enemy`].
pub struct EnemyView {
    pub name: Seq<char>,
    pub health: int,
    pub damage: int,
}

impl View for Enemy {
    type V = EnemyView;

    open spec fn view(&self) -> EnemyView {
        EnemyView { name: self.name@, health: self.health as int, damage: self.damage as int }
    }
}

impl Enemy {
    pub fn new(name: &str, health: i32, damage: i32) -> (e: Enemy)
        ensures
            e@.name == name@,
            e@.health == health as int,
            e@.damage == damage as int,
    {
        Enemy { name: name.to_owned(), health, damage }
    }
}

/// One turn's worth of player input, already classified.
pub enum CombatCommand {
    Attack,
    Run,
    Other,
}

/// What a turn of the encounter produced.
#[derive(Debug, PartialEq, Eq, Structural)]
pub enum CombatOutcome {
    /// The attack brought the enemy's health to zero or below.
    Victory,
    /// The player ran; the encounter is over.
    Fled,
    /// The attack landed but the enemy still stands, and strikes back.
    EnemyCounters,
    /// The input was not understood; the same turn repeats.
    NotUnderstood,
}

/// What one turn does: the enemy afterwards, and the outcome.
pub open spec fn combat_step_spec(e: EnemyView, cmd: CombatCommand) -> (EnemyView, CombatOutcome) {
    match cmd {
        CombatCommand::Attack => {
            let h = e.health - ATTACK_DAMAGE as int;
            let e2 = EnemyView { health: h, ..e };
            if h <= 0 {
                (e2, CombatOutcome::Victory)
            } else {
                (e2, CombatOutcome::EnemyCounters)
            }
        },
        CombatCommand::Run => (e, CombatOutcome::Fled),
        CombatCommand::Other => (e, CombatOutcome::NotUnderstood),
    }
}

/// Runs one turn of the encounter against `enemy`.
pub fn combat_step(enemy: &mut Enemy, cmd: &CombatCommand) -> (o: CombatOutcome)
    requires
        cmd is Attack ==> i32::MIN + ATTACK_DAMAGE <= old(enemy)@.health,
    ensures
        (final(enemy)@, o) == combat_step_spec(old(enemy)@, *cmd),
{
    match cmd {
        CombatCommand::Attack => {
            enemy.health = enemy.health - ATTACK_DAMAGE;
            if enemy.health <= 0 {
                CombatOutcome::Victory
            } else {
                CombatOutcome::EnemyCounters
            }
        },
        CombatCommand::Run => CombatOutcome::Fled,
        CombatCommand::Other => CombatOutcome::NotUnderstood,
    }
}

/// An enemy that starts with 30 health falls to exactly three attacks: the
/// first two turns end with the enemy countering, and the third — no earlier
/// turn — reports victory, with the enemy's health at zero.
pub proof fn lemma_three_attacks_defeat(e: EnemyView)
    requires
        e.health == 30,
    ensures
        ({
            let (e1, o1) = combat_step_spec(e, CombatCommand::Attack);
            let (e2, o2) = combat_step_spec(e1, CombatCommand::Attack);
            let (e3, o3) = combat_step_spec(e2, CombatCommand::Attack);
            &&& o1 == CombatOutcome::EnemyCounters
            &&& o2 == CombatOutcome::EnemyCounters
            &&& o3 == CombatOutcome::Victory
            &&& e3.health == 0
        }),
{
}

/// Running on the first turn ends the encounter at once, with the enemy —
/// its health in particular — exactly as it was.
pub proof fn lemma_run_ends_encounter(e: EnemyView)
    ensures
        combat_step_spec(e, CombatCommand::Run) == (e, CombatOutcome::Fled),
{
}

} // verus!
