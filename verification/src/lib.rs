//! A deterministic, turn-based creature-battle engine.
//!
//! Two combatants exchange one move per turn until one of them has no health
//! left. Everything is computed in exact integer arithmetic, so a turn is a
//! pure function of the battle state, the two chosen moves and the reference
//! data.

pub mod battle;
pub mod chart;
pub mod data;
pub mod error;
pub mod game;
pub mod laws;
pub mod learnsets;
pub mod models;
pub mod records;

pub use battle::{
    calculate_damage, simulate_turn, type_multiplier, BattleEvent, BattlePokemon, BattleState,
    Multiplier, Side, TurnResult,
};
pub use chart::TypeChart;
pub use data::{
    gen1_database, gen1_move_list, gen1_species_list, load_database, load_gen1_database,
    normalize_name,
};
pub use error::SimulatorError;
pub use game::{resolve_default_move, select_move, select_pokemon};
pub use models::{Database, Move, PokemonSpecies, Stats};
pub use records::{
    MoveEntry, MoveRow, PokemonEntry, PokemonRow, StatRow, TypeAdvantageRow, TypeNameRow, TypeRow,
};
