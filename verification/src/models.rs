use crate::chart::TypeChart;
use std::collections::HashMap;
use vstd::hash_map::StringHashMap;
use vstd::prelude::*;

verus! {

/// Damage class of moves that never deal damage.
pub const DAMAGE_CLASS_STATUS: u32 = 1;

/// Damage class of moves that use attack against defense.
pub const DAMAGE_CLASS_PHYSICAL: u32 = 2;

/// Damage class of moves that use special attack against special defense.
pub const DAMAGE_CLASS_SPECIAL: u32 = 3;

/// The six base statistics of a species.
#[derive(Debug, Clone, Copy, PartialEq, Eq)]
pub struct Stats {
    pub hp: i32,
    pub attack: i32,
    pub defense: i32,
    pub sp_attack: i32,
    pub sp_defense: i32,
    pub speed: i32,
}

impl Stats {
    /// The statistics with every value at zero.
    pub open spec fn spec_empty() -> Stats {
        Stats { hp: 0, attack: 0, defense: 0, sp_attack: 0, sp_defense: 0, speed: 0 }
    }

    /// The statistics with every value at zero.
    #[verifier::when_used_as_spec(spec_empty)]
    pub fn empty() -> (stats: Self)
        ensures
            stats == Self::spec_empty(),
    {
        Self { hp: 0, attack: 0, defense: 0, sp_attack: 0, sp_defense: 0, speed: 0 }
    }

    /// These statistics with the one that `stat_id` numbers set to `value`:
    /// 1 is health, 2 attack, 3 defense, 4 special attack, 5 special
    /// defense and 6 speed. Another number changes nothing.
    pub open spec fn spec_with_stat(self, stat_id: u32, value: i32) -> Stats {
        if stat_id == 1 {
            Stats { hp: value, ..self }
        } else if stat_id == 2 {
            Stats { attack: value, ..self }
        } else if stat_id == 3 {
            Stats { defense: value, ..self }
        } else if stat_id == 4 {
            Stats { sp_attack: value, ..self }
        } else if stat_id == 5 {
            Stats { sp_defense: value, ..self }
        } else if stat_id == 6 {
            Stats { speed: value, ..self }
        } else {
            self
        }
    }

    /// These statistics with the one that `stat_id` numbers set to `value`.
    #[verifier::when_used_as_spec(spec_with_stat)]
    pub fn with_stat(self, stat_id: u32, value: i32) -> (stats: Self)
        ensures
            stats == self.spec_with_stat(stat_id, value),
    {
        let mut stats = self;
        if stat_id == 1 {
            stats.hp = value;
        } else if stat_id == 2 {
            stats.attack = value;
        } else if stat_id == 3 {
            stats.defense = value;
        } else if stat_id == 4 {
            stats.sp_attack = value;
        } else if stat_id == 5 {
            stats.sp_defense = value;
        } else if stat_id == 6 {
            stats.speed = value;
        }
        stats
    }
}

/// A species: its identity, base statistics, elemental types (the primary
/// type first) and the ids of the moves it may learn.
#[derive(Debug, Clone, PartialEq, Eq)]
pub struct PokemonSpecies {
    pub id: u32,
    pub name: String,
    pub stats: Stats,
    pub types: Vec<u32>,
    pub learnset: Vec<u32>,
}

/// The mathematical value of a [`PokemonSpecies`].
pub struct SpeciesView {
    pub id: u32,
    pub name: Seq<char>,
    pub stats: Stats,
    pub types: Seq<u32>,
    pub learnset: Seq<u32>,
}

impl View for PokemonSpecies {
    type V = SpeciesView;

    open spec fn view(&self) -> SpeciesView {
        SpeciesView {
            id: self.id,
            name: self.name@,
            stats: self.stats,
            types: self.types@,
            learnset: self.learnset@,
        }
    }
}

impl PokemonSpecies {
    /// A species with the same values as this one.
    pub fn duplicate(&self) -> (copy: Self)
        ensures
            copy@ == self@,
    {
        Self {
            id: self.id,
            name: self.name.clone(),
            stats: self.stats,
            types: self.types.clone(),
            learnset: self.learnset.clone(),
        }
    }
}

/// A move: its identity, elemental type, power, accuracy, priority and
/// damage class.
#[derive(Debug, Clone, PartialEq, Eq)]
pub struct Move {
    pub id: u32,
    pub name: String,
    pub type_id: u32,
    pub power: Option<i32>,
    pub accuracy: Option<i32>,
    pub priority: i32,
    pub damage_class_id: u32,
}

/// The mathematical value of a [`Move`].
pub struct MoveView {
    pub id: u32,
    pub name: Seq<char>,
    pub type_id: u32,
    pub power: Option<i32>,
    pub accuracy: Option<i32>,
    pub priority: i32,
    pub damage_class_id: u32,
}

impl View for Move {
    type V = MoveView;

    open spec fn view(&self) -> MoveView {
        MoveView {
            id: self.id,
            name: self.name@,
            type_id: self.type_id,
            power: self.power,
            accuracy: self.accuracy,
            priority: self.priority,
            damage_class_id: self.damage_class_id,
        }
    }
}

/// The reference data: species and moves by normalized name, type names by
/// id, and the effectiveness chart.
pub struct Database {
    pub pokemon: StringHashMap<PokemonSpecies>,
    pub moves: StringHashMap<Move>,
    pub type_names: HashMap<u32, String>,
    pub type_advantage: TypeChart,
}

impl Database {
    /// The values of the species, by the name each is stored under.
    pub open spec fn species_views(&self) -> Map<Seq<char>, SpeciesView> {
        self.pokemon@.map_values(|species: PokemonSpecies| species@)
    }

    /// The values of the moves, by the name each is stored under.
    pub open spec fn move_views(&self) -> Map<Seq<char>, MoveView> {
        self.moves@.map_values(|mv: Move| mv@)
    }

    /// A store with no species, no moves, no type names and an empty chart.
    pub fn new() -> (db: Self)
        ensures
            db.pokemon@ == Map::<Seq<char>, PokemonSpecies>::empty(),
            db.moves@ == Map::<Seq<char>, Move>::empty(),
            db.type_names@ == Map::<u32, String>::empty(),
            db.type_advantage@ == Map::<(u32, u32), u32>::empty(),
    {
        Self {
            pokemon: StringHashMap::new(),
            moves: StringHashMap::new(),
            type_names: HashMap::new(),
            type_advantage: TypeChart::new(),
        }
    }

    /// The species stored under `name`, if there is one.
    pub fn get_pokemon(&self, name: &str) -> (found: Option<&PokemonSpecies>)
        ensures
            found.is_some() <==> self.pokemon@.contains_key(name@),
            found.is_some() ==> *found.unwrap() == self.pokemon@[name@],
    {
        self.pokemon.get(name)
    }

    /// The move stored under `name`, if there is one.
    pub fn get_move(&self, name: &str) -> (found: Option<&Move>)
        ensures
            found.is_some() <==> self.moves@.contains_key(name@),
            found.is_some() ==> *found.unwrap() == self.moves@[name@],
    {
        self.moves.get(name)
    }
}

} // verus!
