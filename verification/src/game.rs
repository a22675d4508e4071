use crate::data::{normalize_name, normalized};
use crate::error::SimulatorError;
use crate::models::{Database, Move, PokemonSpecies};
use vstd::prelude::*;
use vstd::string::StringExecFns;

verus! {

/// The species stored under `name`, as a value of its own.
pub fn select_pokemon(db: &Database, name: &str) -> (chosen: Option<PokemonSpecies>)
    ensures
        chosen is Some <==> db.pokemon@.contains_key(name@),
        chosen is Some ==> chosen.unwrap()@ == db.pokemon@[name@]@,
{
    match db.get_pokemon(name) {
        Some(species) => Some(species.duplicate()),
        None => None,
    }
}

/// The move that the input names once it is normalized, or the default
/// move where the reference data holds none under that name.
pub fn select_move<'a>(db: &'a Database, input: &str, default_move: &'a Move) -> (chosen: &'a Move)
    ensures
        *chosen == (if db.moves@.contains_key(normalized(input@)) {
            db.moves@[normalized(input@)]
        } else {
            *default_move
        }),
{
    let name = normalize_name(input);
    match db.get_move(name.as_str()) {
        Some(found) => found,
        None => default_move,
    }
}

/// The move stored under the normalized form of `name`; where there is
/// none, the missing-data error that names the move.
pub fn resolve_default_move<'a>(db: &'a Database, name: &str) -> (resolved: Result<
    &'a Move,
    SimulatorError,
>)
    ensures
        resolved is Ok <==> db.moves@.contains_key(normalized(name@)),
        resolved is Ok ==> *resolved->Ok_0 == db.moves@[normalized(name@)],
        resolved is Err ==> resolved->Err_0 is MissingData && resolved->Err_0->MissingData_0@
            == "move "@ + normalized(name@),
{
    let name = normalize_name(name);
    match db.get_move(name.as_str()) {
        Some(found) => Ok(found),
        None => Err(SimulatorError::MissingData(String::from_str("move ").concat(name.as_str()))),
    }
}

} // verus!
