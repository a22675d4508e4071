use simulator::learnsets::{
    learnset_for, learnset_records, move_ids, read_learnsets, read_numbers,
};
use simulator::records::{decimal, slots_for, stats_for, types_for};
use simulator::data::is_last_name;
use simulator::{
    gen1_database, gen1_move_list, gen1_species_list, load_database, load_gen1_database, MoveEntry, MoveRow, PokemonEntry, PokemonRow,
    PokemonSpecies, SimulatorError, StatRow, Stats, TypeAdvantageRow, TypeNameRow, TypeRow,
};
use std::collections::HashMap;

fn stat_rows(id: u32, values: [i32; 6]) -> Vec<StatRow> {
    let mut rows = Vec::new();
    let mut stat_id: u32 = 1;
    for value in values {
        rows.push(StatRow { pokemon_id: id, stat_id, base_stat: value });
        stat_id += 1;
    }
    rows
}

fn pokemon_row(id: u32, identifier: &str, is_default: u8) -> PokemonRow {
    PokemonRow { id, identifier: identifier.to_string(), is_default }
}

fn type_row(pokemon_id: u32, type_id: u32, slot: u32) -> TypeRow {
    TypeRow { pokemon_id, type_id, slot }
}

fn pound_row() -> MoveRow {
    MoveRow {
        id: 1,
        identifier: "Pound".to_string(),
        type_id: 1,
        power: Some(40),
        accuracy: Some(100),
        priority: 0,
        damage_class_id: 2,
    }
}

fn fields(values: &[&str]) -> Vec<String> {
    values.iter().map(|value| value.to_string()).collect()
}

#[test]
fn statistics_are_gathered_by_their_numbers() {
    let mut rows = stat_rows(1, [45, 49, 49, 65, 65, 45]);
    rows.extend(stat_rows(4, [39, 52, 43, 60, 50, 65]));
    rows.push(StatRow { pokemon_id: 4, stat_id: 7, base_stat: 99 });
    assert_eq!(
        stats_for(&rows, 1),
        Some(Stats { hp: 45, attack: 49, defense: 49, sp_attack: 65, sp_defense: 65, speed: 45 })
    );
    assert_eq!(
        stats_for(&rows, 4),
        Some(Stats { hp: 39, attack: 52, defense: 43, sp_attack: 60, sp_defense: 50, speed: 65 })
    );
    assert_eq!(stats_for(&rows, 2), None);
}

#[test]
fn partial_statistics_leave_the_rest_at_zero_and_later_records_win() {
    let rows = vec![
        StatRow { pokemon_id: 3, stat_id: 2, base_stat: 10 },
        StatRow { pokemon_id: 3, stat_id: 6, base_stat: 7 },
        StatRow { pokemon_id: 3, stat_id: 2, base_stat: 12 },
    ];
    assert_eq!(
        stats_for(&rows, 3),
        Some(Stats { hp: 0, attack: 12, defense: 0, sp_attack: 0, sp_defense: 0, speed: 7 })
    );
    assert_eq!(Stats::empty().with_stat(1, 5).hp, 5);
    assert_eq!(Stats::empty().with_stat(9, 5), Stats::empty());
}

#[test]
fn types_are_ordered_by_slot() {
    let rows = vec![
        type_row(1, 4, 2),
        type_row(4, 10, 1),
        type_row(1, 12, 1),
        type_row(6, 3, 2),
        type_row(6, 10, 1),
        type_row(6, 9, 2),
    ];
    assert_eq!(types_for(&rows, 1), Some(vec![12, 4]));
    assert_eq!(types_for(&rows, 4), Some(vec![10]));
    assert_eq!(types_for(&rows, 6), Some(vec![10, 3, 9]));
    assert_eq!(types_for(&rows, 5), None);
    assert_eq!(slots_for(&rows, 6), vec![(1, 10), (2, 3), (2, 9)]);
}

#[test]
fn numbers_are_written_in_decimal() {
    assert_eq!(decimal(0), "0");
    assert_eq!(decimal(7), "7");
    assert_eq!(decimal(10), "10");
    assert_eq!(decimal(151), "151");
    assert_eq!(decimal(u32::MAX), "4294967295");
}

#[test]
fn tables_become_the_reference_data() {
    let mut stats = stat_rows(1, [45, 49, 49, 65, 65, 45]);
    stats.extend(stat_rows(122, [40, 45, 65, 100, 120, 90]));
    stats.extend(stat_rows(10001, [50, 150, 50, 150, 50, 150]));
    let db = load_database(
        &[
            pokemon_row(1, "bulbasaur", 1),
            pokemon_row(122, " Mr Mime", 1),
            pokemon_row(10001, "deoxys-attack", 0),
        ],
        &stats,
        &[type_row(1, 4, 2), type_row(1, 12, 1), type_row(122, 14, 1), type_row(122, 18, 2)],
        &[pound_row()],
        &[
            TypeNameRow { type_id: 1, local_language_id: 5, name: "Normal (fr)".to_string() },
            TypeNameRow { type_id: 1, local_language_id: 9, name: "Normal".to_string() },
            TypeNameRow { type_id: 8, local_language_id: 9, name: "Ghost".to_string() },
            TypeNameRow { type_id: 8, local_language_id: 6, name: "Geist".to_string() },
        ],
        &[
            TypeAdvantageRow { damage_type_id: 1, target_type_id: 8, damage_factor: 0 },
            TypeAdvantageRow { damage_type_id: 1, target_type_id: 6, damage_factor: 50 },
            TypeAdvantageRow { damage_type_id: 10, target_type_id: 12, damage_factor: 200 },
        ],
    )
    .expect("complete tables");
    assert_eq!(
        db.get_pokemon("bulbasaur"),
        Some(&PokemonSpecies {
            id: 1,
            name: "bulbasaur".to_string(),
            stats: Stats { hp: 45, attack: 49, defense: 49, sp_attack: 65, sp_defense: 65, speed: 45 },
            types: vec![12, 4],
            learnset: vec![],
        })
    );
    assert_eq!(db.get_pokemon("mr-mime").map(|species| species.id), Some(122));
    assert!(db.get_pokemon("deoxys-attack").is_none());
    assert_eq!(db.pokemon.len(), 2);
    let pound = db.get_move("pound").expect("pound exists");
    assert_eq!(pound.name, "pound");
    assert_eq!(pound.power, Some(40));
    assert_eq!(pound.accuracy, Some(100));
    assert_eq!(pound.damage_class_id, 2);
    assert_eq!(db.type_names.len(), 2);
    assert_eq!(db.type_names.get(&1).map(String::as_str), Some("Normal"));
    assert_eq!(db.type_names.get(&8).map(String::as_str), Some("Ghost"));
    assert_eq!(db.type_advantage.get(1, 8), Some(0));
    assert_eq!(db.type_advantage.get(1, 6), Some(50));
    assert_eq!(db.type_advantage.get(10, 12), Some(200));
    assert_eq!(db.type_advantage.get(12, 10), None);
}

#[test]
fn listed_species_without_statistics_is_missing_data() {
    let loaded = load_database(
        &[pokemon_row(1, "bulbasaur", 1), pokemon_row(25, "pikachu", 1), pokemon_row(7, "squirtle", 1)],
        &stat_rows(1, [45, 49, 49, 65, 65, 45]),
        &[type_row(1, 12, 1)],
        &[],
        &[],
        &[],
    );
    assert_eq!(
        loaded.err(),
        Some(SimulatorError::MissingData("stats for pokemon 25".to_string()))
    );
}

#[test]
fn listed_species_without_types_is_missing_data() {
    let mut stats = stat_rows(1, [45, 49, 49, 65, 65, 45]);
    stats.extend(stat_rows(150, [106, 110, 90, 154, 90, 130]));
    let loaded = load_database(
        &[pokemon_row(1, "bulbasaur", 1), pokemon_row(150, "mewtwo", 1)],
        &stats,
        &[type_row(1, 12, 1)],
        &[pound_row()],
        &[],
        &[],
    );
    assert_eq!(
        loaded.err().map(|error| error.message()),
        Some("missing data: types for pokemon 150".to_string())
    );
}

#[test]
fn unlisted_species_may_lack_everything() {
    let loaded = load_database(&[pokemon_row(10001, "deoxys-attack", 0)], &[], &[], &[], &[], &[]);
    let db = loaded.expect("nothing listed");
    assert!(db.pokemon.is_empty());
    assert!(db.moves.is_empty());
}

#[test]
fn fields_are_read_as_numbers() {
    assert_eq!(
        read_numbers(&fields(&["1", "33", "", "45", "x", "+7", " 8", "4294967296", "22"])),
        vec![Some(1), Some(33), None, Some(45), None, Some(7), None, None, Some(22)]
    );
    assert_eq!(read_numbers(&fields(&[])), Vec::<Option<u32>>::new());
    assert_eq!(
        read_learnsets(&[fields(&["4", "x"]), fields(&[]), fields(&["-1"])]),
        vec![vec![Some(4), None], vec![], vec![None]]
    );
}

#[test]
fn learnset_records_give_move_ids() {
    assert_eq!(
        move_ids(&vec![Some(1), Some(33), None, Some(45), None, Some(7), Some(22)]),
        vec![33, 45, 7, 22]
    );
    assert_eq!(move_ids(&vec![None, Some(5)]), vec![5]);
    assert_eq!(move_ids(&vec![Some(1)]), Vec::<u32>::new());
    assert_eq!(move_ids(&vec![]), Vec::<u32>::new());
    let records = read_learnsets(&[
        fields(&["1", "33", "45"]),
        fields(&["oops", "1"]),
        fields(&[]),
        fields(&["4", "10", "", "52"]),
        fields(&["1", "22"]),
    ]);
    assert_eq!(learnset_for(&records, 1), vec![22]);
    assert_eq!(learnset_for(&records, 4), vec![10, 52]);
    assert_eq!(learnset_for(&records, 7), Vec::<u32>::new());
    assert_eq!(learnset_for(&[], 1), Vec::<u32>::new());
}

fn vine_whip() -> MoveEntry {
    MoveEntry {
        id: 22,
        name: "Vine Whip".to_string(),
        identifier: "vine-whip".to_string(),
        type_id: 12,
        power: Some(45),
        accuracy: Some(100),
        priority: 0,
        damage_class_id: 2,
    }
}

fn starters() -> Vec<PokemonEntry> {
    vec![
        PokemonEntry {
            id: 1,
            name: "Bulbasaur".to_string(),
            identifier: "bulbasaur".to_string(),
            types: vec![12, 4],
            stats: Stats { hp: 45, attack: 49, defense: 49, sp_attack: 65, sp_defense: 65, speed: 45 },
        },
        PokemonEntry {
            id: 4,
            name: "Charmander".to_string(),
            identifier: "charmander".to_string(),
            types: vec![10],
            stats: Stats { hp: 39, attack: 52, defense: 43, sp_attack: 60, sp_defense: 50, speed: 65 },
        },
    ]
}

fn grass_names() -> HashMap<u32, String> {
    let mut type_names = HashMap::new();
    type_names.insert(12, "Grass".to_string());
    type_names
}

#[test]
fn learnset_text_is_read_record_by_record() {
    assert_eq!(
        learnset_records(b"1,33,45,22\n4,10,52\n\"7\",\"55\"\n150\n"),
        Ok(vec![
            fields(&["1", "33", "45", "22"]),
            fields(&["4", "10", "52"]),
            fields(&["7", "55"]),
            fields(&["150"]),
        ])
    );
    assert_eq!(learnset_records(b""), Ok(vec![]));
    assert!(learnset_records(b"1,33\n4,\xff\xfe\n").is_err());
}

#[test]
fn first_generation_lists_become_the_reference_data() {
    let db = gen1_database(
        grass_names(),
        &[vine_whip()],
        &starters(),
        &[fields(&["1", "33", "22"])],
    );
    assert_eq!(
        db.get_pokemon("bulbasaur"),
        Some(&PokemonSpecies {
            id: 1,
            name: "bulbasaur".to_string(),
            stats: Stats { hp: 45, attack: 49, defense: 49, sp_attack: 65, sp_defense: 65, speed: 45 },
            types: vec![12, 4],
            learnset: vec![33, 22],
        })
    );
    assert_eq!(db.get_pokemon("charmander").map(|species| species.learnset.clone()), Some(vec![]));
    assert!(db.get_pokemon("Bulbasaur").is_none());
    assert_eq!(db.get_move("vine-whip").map(|mv| mv.name.as_str()), Some("vine-whip"));
    assert_eq!(db.type_names.get(&12).map(String::as_str), Some("Grass"));
    assert_eq!(db.type_advantage.get(10, 12), None);
    assert_eq!(db.type_advantage.factor(10, 12), 100);
}

#[test]
fn first_generation_learnsets_come_from_the_text() {
    let db = load_gen1_database(
        grass_names(),
        &[vine_whip()],
        &starters(),
        Some(b"1,33,22\n4,10,,52,x\n1,22\n".as_slice()),
    )
    .expect("readable text");
    assert_eq!(db.get_pokemon("bulbasaur").map(|species| species.learnset.clone()), Some(vec![22]));
    assert_eq!(
        db.get_pokemon("charmander").map(|species| species.learnset.clone()),
        Some(vec![10, 52])
    );
    assert_eq!(db.get_pokemon("charmander").map(|species| species.stats.speed), Some(65));
    assert_eq!(db.moves.len(), 1);
}

#[test]
fn first_generation_without_learnset_text_has_empty_learnsets() {
    let db = load_gen1_database(grass_names(), &[vine_whip()], &starters(), None)
        .expect("no text to read");
    assert_eq!(db.get_pokemon("bulbasaur").map(|species| species.learnset.clone()), Some(vec![]));
    assert_eq!(db.pokemon.len(), 2);
}

#[test]
fn unreadable_learnset_text_is_invalid_data() {
    let loaded = load_gen1_database(
        grass_names(),
        &[vine_whip()],
        &starters(),
        Some(b"1,33\n4,\xff\xfe\n".as_slice()),
    );
    match loaded.err() {
        Some(SimulatorError::InvalidData(detail)) => {
            assert!(detail.starts_with("learnsets.csv record: "));
            assert!(detail.len() > "learnsets.csv record: ".len());
        }
        other => panic!("unexpected result: {other:?}"),
    }
}

#[test]
fn first_generation_names_and_keys_are_normalized() {
    let mut entries = starters();
    entries[0].identifier = "  Mr  Mime ".to_string();
    entries[0].name = "Mr. Mime".to_string();
    let mut whip = vine_whip();
    whip.identifier = "Vine Whip".to_string();
    let db = gen1_database(grass_names(), &[whip], &entries, &[]);
    assert_eq!(db.get_pokemon("mr-mime").map(|species| species.name.as_str()), Some("mr-mime"));
    assert!(db.get_pokemon("  Mr  Mime ").is_none());
    assert!(db.get_pokemon("Mr. Mime").is_none());
    assert_eq!(db.get_move("vine-whip").map(|mv| mv.name.as_str()), Some("vine-whip"));
    assert!(db.get_move("Vine Whip").is_none());
    assert_eq!(db.pokemon.len(), 2);
}

#[test]
fn later_first_generation_entry_replaces_one_of_the_same_name() {
    let mut entries = starters();
    entries[1].identifier = "BULBASAUR".to_string();
    let db = gen1_database(grass_names(), &[], &entries, &[]);
    assert_eq!(db.pokemon.len(), 1);
    assert_eq!(db.get_pokemon("bulbasaur").map(|species| species.id), Some(4));
}

#[test]
fn kept_entries_are_listed_once_in_entry_order() {
    let mut entries = starters();
    entries.push(PokemonEntry {
        id: 7,
        name: "Squirtle".to_string(),
        identifier: "squirtle".to_string(),
        types: vec![11],
        stats: Stats { hp: 44, attack: 48, defense: 65, sp_attack: 50, sp_defense: 64, speed: 43 },
    });
    entries.push(PokemonEntry {
        id: 1,
        name: "Bulbasaur again".to_string(),
        identifier: " Bulbasaur".to_string(),
        types: vec![12],
        stats: Stats { hp: 46, attack: 49, defense: 49, sp_attack: 65, sp_defense: 65, speed: 45 },
    });
    let records = vec![fields(&["1", "33"]), fields(&["7", "55", "x"])];
    let list = gen1_species_list(&entries, &records);
    assert_eq!(
        list.iter().map(|species| (species.id, species.name.as_str())).collect::<Vec<_>>(),
        vec![(4, "charmander"), (7, "squirtle"), (1, "bulbasaur")]
    );
    assert_eq!(list[2].stats.hp, 46);
    assert_eq!(list[2].types, vec![12]);
    assert_eq!(list[2].learnset, vec![33]);
    assert_eq!(list[1].learnset, vec![55]);
    let db = gen1_database(grass_names(), &[], &entries, &records);
    assert_eq!(db.pokemon.len(), list.len());
    for species in &list {
        assert_eq!(db.get_pokemon(&species.name), Some(species));
    }
    let mut shadowed = vine_whip();
    shadowed.id = 99;
    let moves = gen1_move_list(&[shadowed, vine_whip()]);
    assert_eq!(moves.len(), 1);
    assert_eq!(moves[0].id, 22);
    assert_eq!(moves[0].name, "vine-whip");
    assert!(gen1_move_list(&[]).is_empty());
}

#[test]
fn last_of_a_name_is_the_one_without_a_later_equal() {
    let names = vec!["a".to_string(), "b".to_string(), "a".to_string()];
    assert!(!is_last_name(&names, 0));
    assert!(is_last_name(&names, 1));
    assert!(is_last_name(&names, 2));
}
