use simulator::data::{hyphenate, is_whitespace_char, trim};
use simulator::{
    calculate_damage, normalize_name, resolve_default_move, select_move, select_pokemon,
    simulate_turn, type_multiplier, BattleEvent, BattlePokemon, BattleState, Database, Move,
    Multiplier, PokemonSpecies, Side, SimulatorError, Stats, TypeChart,
};

fn creature(name: &str, hp: i32, attack: i32, defense: i32, speed: i32, types: Vec<u32>) -> PokemonSpecies {
    PokemonSpecies {
        id: 1,
        name: name.to_string(),
        stats: Stats { hp, attack, defense, sp_attack: attack, sp_defense: defense, speed },
        types,
        learnset: Vec::new(),
    }
}

fn attack_move(name: &str, type_id: u32, power: Option<i32>, class: u32) -> Move {
    Move {
        id: 7,
        name: name.to_string(),
        type_id,
        power,
        accuracy: None,
        priority: 0,
        damage_class_id: class,
    }
}

fn chart() -> Database {
    let mut db = Database::new();
    db.type_advantage.insert(1, 8, 0);
    db.type_advantage.insert(10, 12, 200);
    db.type_advantage.insert(10, 7, 200);
    db.type_advantage.insert(10, 11, 50);
    db
}

fn damage(attacker: &PokemonSpecies, defender: &PokemonSpecies, mv: &Move, db: &Database) -> i32 {
    calculate_damage(
        &BattlePokemon::new(attacker.clone()),
        &BattlePokemon::new(defender.clone()),
        mv,
        db,
    )
}

#[test]
fn empty_stats_are_all_zero() {
    let stats = Stats::empty();
    assert_eq!(
        stats,
        Stats { hp: 0, attack: 0, defense: 0, sp_attack: 0, sp_defense: 0, speed: 0 }
    );
}

#[test]
fn combatant_starts_at_full_health() {
    let fresh = BattlePokemon::new(creature("a", 45, 1, 1, 1, vec![1]));
    assert_eq!(fresh.current_hp, 45);
    assert!(!fresh.is_fainted());
}

#[test]
fn combatant_without_health_stat_starts_at_one() {
    assert_eq!(BattlePokemon::new(creature("a", 0, 1, 1, 1, vec![1])).current_hp, 1);
    assert_eq!(BattlePokemon::new(creature("a", -5, 1, 1, 1, vec![1])).current_hp, 1);
}

#[test]
fn new_battle_starts_at_turn_one_and_is_not_over() {
    let state = BattleState::new(creature("a", 10, 1, 1, 1, vec![1]), creature("b", 0, 1, 1, 1, vec![1]));
    assert_eq!(state.turn, 1);
    assert_eq!(state.player.current_hp, 10);
    assert_eq!(state.opponent.current_hp, 1);
    assert!(!state.is_over());
}

#[test]
fn battle_is_over_when_either_side_has_fainted() {
    let mut state = BattleState::new(creature("a", 10, 1, 1, 1, vec![1]), creature("b", 10, 1, 1, 1, vec![1]));
    state.opponent.current_hp = 0;
    assert!(state.opponent.is_fainted());
    assert!(state.is_over());
    state.opponent.current_hp = 5;
    state.player.current_hp = -1;
    assert!(state.is_over());
}

#[test]
fn other_side_is_the_facing_one() {
    assert_eq!(Side::Player.other(), Side::Opponent);
    assert_eq!(Side::Opponent.other(), Side::Player);
}

#[test]
fn physical_hit_rounds_to_the_nearest_integer() {
    let db = chart();
    let attacker = creature("a", 45, 49, 49, 45, vec![12, 4]);
    let defender = creature("b", 39, 52, 43, 65, vec![10]);
    let pound = attack_move("pound", 1, Some(40), 2);
    assert_eq!(damage(&attacker, &defender, &pound, &db), 46);
}

#[test]
fn moves_without_power_deal_nothing() {
    let db = chart();
    let a = creature("a", 45, 49, 49, 45, vec![1]);
    assert_eq!(damage(&a, &a, &attack_move("growl", 1, None, 2), &db), 0);
    assert_eq!(damage(&a, &a, &attack_move("odd", 1, Some(0), 2), &db), 0);
    assert_eq!(damage(&a, &a, &attack_move("odd", 1, Some(-10), 3), &db), 0);
}

#[test]
fn status_moves_deal_nothing_whatever_their_power() {
    let db = chart();
    let a = creature("a", 45, 49, 49, 45, vec![1]);
    assert_eq!(damage(&a, &a, &attack_move("toxic", 1, Some(90), 1), &db), 0);
}

#[test]
fn special_moves_use_the_special_statistics() {
    let db = chart();
    let mut attacker = creature("a", 45, 10, 10, 45, vec![1]);
    attacker.stats.sp_attack = 60;
    let mut defender = creature("b", 45, 10, 10, 45, vec![1]);
    defender.stats.sp_defense = 30;
    assert_eq!(damage(&attacker, &defender, &attack_move("beam", 1, Some(40), 3), &db), 80);
    assert_eq!(damage(&attacker, &defender, &attack_move("hit", 1, Some(40), 2), &db), 40);
    assert_eq!(damage(&attacker, &defender, &attack_move("hit", 1, Some(40), 9), &db), 40);
}

#[test]
fn defense_counts_as_at_least_one() {
    let db = chart();
    let attacker = creature("a", 45, 3, 10, 45, vec![1]);
    let defender = creature("b", 45, 10, 0, 45, vec![1]);
    assert_eq!(damage(&attacker, &defender, &attack_move("hit", 1, Some(40), 2), &db), 120);
    let weaker = creature("c", 45, 10, -4, 45, vec![1]);
    assert_eq!(damage(&attacker, &weaker, &attack_move("hit", 1, Some(40), 2), &db), 120);
}

#[test]
fn halves_round_up() {
    let db = chart();
    let attacker = creature("a", 45, 1, 1, 45, vec![1]);
    let defender = creature("b", 45, 1, 2, 45, vec![1]);
    assert_eq!(damage(&attacker, &defender, &attack_move("hit", 1, Some(1), 2), &db), 1);
    assert_eq!(damage(&attacker, &defender, &attack_move("hit", 1, Some(3), 2), &db), 2);
    assert_eq!(damage(&attacker, &defender, &attack_move("hit", 1, Some(5), 2), &db), 3);
    let sturdy = creature("c", 45, 1, 4, 45, vec![1]);
    assert_eq!(damage(&attacker, &sturdy, &attack_move("hit", 1, Some(5), 2), &db), 1);
    assert_eq!(damage(&attacker, &sturdy, &attack_move("hit", 1, Some(9), 2), &db), 2);
}

#[test]
fn damage_is_at_least_one_for_a_damaging_move() {
    let db = chart();
    let attacker = creature("a", 45, 1, 1, 45, vec![1]);
    let wall = creature("b", 45, 1, 1000, 45, vec![1]);
    assert_eq!(damage(&attacker, &wall, &attack_move("hit", 1, Some(1), 2), &db), 1);
    let feeble = creature("c", 45, 0, 1, 45, vec![1]);
    assert_eq!(damage(&feeble, &wall, &attack_move("hit", 1, Some(50), 2), &db), 1);
    let negative = creature("d", 45, -20, 1, 45, vec![1]);
    assert_eq!(damage(&negative, &attacker, &attack_move("hit", 1, Some(50), 2), &db), 1);
}

#[test]
fn immune_matchup_reports_zero_multiplier_and_still_deals_one() {
    let db = chart();
    let multiplier = type_multiplier(1, &[8], &db);
    assert!(multiplier.is_zero());
    assert_eq!(multiplier.numerator as f32 / multiplier.denominator as f32, 0.0);
    let attacker = creature("a", 45, 49, 49, 45, vec![1]);
    let ghost = creature("g", 45, 49, 49, 45, vec![8]);
    assert_eq!(damage(&attacker, &ghost, &attack_move("pound", 1, Some(40), 2), &db), 1);
    let half_ghost = creature("g", 45, 49, 49, 45, vec![4, 8]);
    assert!(type_multiplier(1, &half_ghost.types, &db).is_zero());
    assert_eq!(damage(&attacker, &half_ghost, &attack_move("pound", 1, Some(40), 2), &db), 1);
}

#[test]
fn multiplier_is_the_product_over_the_defending_types() {
    let db = chart();
    assert_eq!(type_multiplier(10, &[], &db), Multiplier { numerator: 1, denominator: 1 });
    assert_eq!(type_multiplier(10, &[3], &db), Multiplier { numerator: 100, denominator: 100 });
    assert_eq!(type_multiplier(10, &[12], &db), Multiplier { numerator: 200, denominator: 100 });
    assert_eq!(
        type_multiplier(10, &[12, 7], &db),
        Multiplier { numerator: 40_000, denominator: 10_000 }
    );
    assert_eq!(
        type_multiplier(10, &[11, 12], &db),
        Multiplier { numerator: 10_000, denominator: 10_000 }
    );
}

#[test]
fn effectiveness_scales_the_damage() {
    let db = chart();
    let attacker = creature("a", 45, 49, 49, 45, vec![10]);
    let ember = attack_move("ember", 10, Some(40), 2);
    assert_eq!(damage(&attacker, &creature("n", 45, 1, 43, 1, vec![3]), &ember, &db), 46);
    assert_eq!(damage(&attacker, &creature("g", 45, 1, 43, 1, vec![12]), &ember, &db), 91);
    assert_eq!(damage(&attacker, &creature("g", 45, 1, 43, 1, vec![12, 7]), &ember, &db), 182);
    assert_eq!(damage(&attacker, &creature("w", 45, 1, 43, 1, vec![11]), &ember, &db), 23);
    assert_eq!(damage(&attacker, &creature("w", 45, 1, 43, 1, vec![11, 12]), &ember, &db), 46);
}

#[test]
fn damage_stops_at_the_largest_value() {
    let mut db = chart();
    db.type_advantage.insert(2, 2, u32::MAX);
    let attacker = creature("a", 45, i32::MAX, 1, 45, vec![1]);
    let defender = creature("b", 45, 1, 1, 45, vec![2, 2]);
    assert_eq!(
        damage(&attacker, &defender, &attack_move("hit", 2, Some(i32::MAX), 2), &db),
        i32::MAX
    );
}

#[test]
fn chart_lists_the_last_factor_given_for_a_pairing() {
    let mut chart = TypeChart::new();
    assert_eq!(chart.get(1, 8), None);
    assert_eq!(chart.factor(1, 8), 100);
    chart.insert(1, 8, 0);
    chart.insert(8, 1, 50);
    assert_eq!(chart.get(1, 8), Some(0));
    assert_eq!(chart.get(8, 1), Some(50));
    assert_eq!(chart.factor(1, 8), 0);
    chart.insert(1, 8, 200);
    assert_eq!(chart.get(1, 8), Some(200));
    assert_eq!(chart.get(0, 8), None);
    chart.insert(u32::MAX, u32::MAX, 7);
    assert_eq!(chart.get(u32::MAX, u32::MAX), Some(7));
    assert_eq!(chart.get(u32::MAX, 0), None);
}

#[test]
fn equal_speed_lets_the_player_act_first() {
    let db = chart();
    let mut state = BattleState::new(
        creature("a", 100, 10, 10, 30, vec![1]),
        creature("b", 100, 10, 10, 30, vec![1]),
    );
    let jab = attack_move("jab", 1, Some(20), 2);
    let kick = attack_move("kick", 1, Some(30), 2);
    let result = simulate_turn(&mut state, &jab, &kick, &db);
    assert_eq!(
        result.events,
        vec![
            BattleEvent::MoveUsed {
                side: Side::Player,
                move_name: "jab".to_string(),
                damage: 20,
                target_hp: 80
            },
            BattleEvent::MoveUsed {
                side: Side::Opponent,
                move_name: "kick".to_string(),
                damage: 30,
                target_hp: 70
            },
        ]
    );
    assert_eq!(result.outcome, None);
    assert_eq!(state.turn, 2);
    assert_eq!(state.player.current_hp, 70);
    assert_eq!(state.opponent.current_hp, 80);
}

#[test]
fn faster_player_acts_first() {
    let db = chart();
    let mut state = BattleState::new(
        creature("a", 100, 10, 10, 31, vec![1]),
        creature("b", 100, 10, 10, 30, vec![1]),
    );
    let jab = attack_move("jab", 1, Some(20), 2);
    let result = simulate_turn(&mut state, &jab, &jab, &db);
    assert!(matches!(result.events[0], BattleEvent::MoveUsed { side: Side::Player, .. }));
    assert!(matches!(result.events[1], BattleEvent::MoveUsed { side: Side::Opponent, .. }));
}

#[test]
fn knockout_by_the_first_side_ends_the_turn() {
    let db = chart();
    let mut state = BattleState::new(
        creature("a", 100, 10, 10, 10, vec![1]),
        creature("b", 100, 50, 10, 30, vec![1]),
    );
    let smash = attack_move("smash", 1, Some(40), 2);
    let jab = attack_move("jab", 1, Some(20), 2);
    let result = simulate_turn(&mut state, &jab, &smash, &db);
    assert_eq!(
        result.events,
        vec![
            BattleEvent::MoveUsed {
                side: Side::Opponent,
                move_name: "smash".to_string(),
                damage: 200,
                target_hp: 0
            },
            BattleEvent::Fainted { side: Side::Player },
        ]
    );
    assert_eq!(result.outcome, Some(Side::Opponent));
    assert_eq!(state.turn, 1);
    assert_eq!(state.player.current_hp, 0);
    assert_eq!(state.opponent.current_hp, 100);
    assert!(state.is_over());
}

#[test]
fn knockout_by_the_second_side_yields_three_events() {
    let db = chart();
    let mut state = BattleState::new(
        creature("a", 100, 50, 10, 10, vec![1]),
        creature("b", 100, 10, 10, 30, vec![1]),
    );
    let smash = attack_move("smash", 1, Some(40), 2);
    let jab = attack_move("jab", 1, Some(20), 2);
    let result = simulate_turn(&mut state, &smash, &jab, &db);
    assert_eq!(
        result.events,
        vec![
            BattleEvent::MoveUsed {
                side: Side::Opponent,
                move_name: "jab".to_string(),
                damage: 20,
                target_hp: 80
            },
            BattleEvent::MoveUsed {
                side: Side::Player,
                move_name: "smash".to_string(),
                damage: 200,
                target_hp: 0
            },
            BattleEvent::Fainted { side: Side::Opponent },
        ]
    );
    assert_eq!(result.outcome, Some(Side::Player));
    assert_eq!(state.turn, 1);
}

#[test]
fn status_move_is_recorded_with_no_damage() {
    let db = chart();
    let mut state = BattleState::new(
        creature("a", 100, 10, 10, 40, vec![1]),
        creature("b", 100, 10, 10, 30, vec![1]),
    );
    let growl = attack_move("growl", 1, None, 1);
    let result = simulate_turn(&mut state, &growl, &growl, &db);
    assert_eq!(
        result.events[0],
        BattleEvent::MoveUsed {
            side: Side::Player,
            move_name: "growl".to_string(),
            damage: 0,
            target_hp: 100
        }
    );
    assert_eq!(result.events.len(), 2);
    assert_eq!(result.outcome, None);
    assert_eq!(state.turn, 2);
}

#[test]
fn health_never_rises_and_the_counter_follows_the_turns() {
    let db = chart();
    let mut state = BattleState::new(
        creature("a", 90, 12, 10, 40, vec![1]),
        creature("b", 70, 9, 10, 30, vec![1]),
    );
    let jab = attack_move("jab", 1, Some(20), 2);
    let growl = attack_move("growl", 1, None, 1);
    let mut turns_played: u32 = 0;
    while !state.is_over() {
        let before = state.clone();
        let opponent_move = if turns_played % 2 == 0 { &growl } else { &jab };
        let result = simulate_turn(&mut state, &jab, opponent_move, &db);
        turns_played += 1;
        assert!(state.player.current_hp <= before.player.current_hp);
        assert!(state.opponent.current_hp <= before.opponent.current_hp);
        assert!(state.player.current_hp >= 0 && state.opponent.current_hp >= 0);
        assert!(!result.events.is_empty() && result.events.len() <= 3);
        if result.outcome.is_none() {
            assert_eq!(state.turn, before.turn + 1);
        } else {
            assert_eq!(state.turn, before.turn);
        }
        assert_eq!(result.outcome.is_some(), state.is_over());
    }
    assert_eq!(turns_played, 3);
    assert_eq!(state.turn, 3);
    assert_eq!(state.opponent.current_hp, 0);
    assert_eq!(state.player.current_hp, 72);
}

#[test]
fn finished_battle_is_left_as_it_is() {
    let db = chart();
    let mut state = BattleState::new(
        creature("a", 100, 10, 10, 40, vec![1]),
        creature("b", 100, 10, 10, 30, vec![1]),
    );
    state.player.current_hp = 0;
    state.turn = 4;
    let jab = attack_move("jab", 1, Some(20), 2);
    let result = simulate_turn(&mut state, &jab, &jab, &db);
    assert!(result.events.is_empty());
    assert_eq!(result.outcome, Some(Side::Opponent));
    assert_eq!(state.turn, 4);
    assert_eq!(state.player.current_hp, 0);
    assert_eq!(state.opponent.current_hp, 100);
}

#[test]
fn names_are_trimmed_lowercased_and_hyphenated() {
    assert_eq!(normalize_name("Bulbasaur"), "bulbasaur");
    assert_eq!(normalize_name("  Mr Mime "), "mr-mime");
    assert_eq!(normalize_name("Tapu \t  Koko\n"), "tapu-koko");
    assert_eq!(normalize_name("a b  c"), "a-b-c");
    assert_eq!(normalize_name(""), "");
    assert_eq!(normalize_name(" \t "), "");
    assert_eq!(normalize_name("already-normal"), "already-normal");
    assert_eq!(normalize_name("FLAB\u{00C9}B\u{00C9}\u{3000}X"), "flab\u{00E9}b\u{00E9}-x");
}

#[test]
fn error_messages_name_their_kind() {
    assert_eq!(SimulatorError::Io("gone".to_string()).message(), "io error: gone");
    assert_eq!(SimulatorError::Csv("bad row".to_string()).message(), "csv error: bad row");
    assert_eq!(
        SimulatorError::MissingData("move pound".to_string()).message(),
        "missing data: move pound"
    );
    assert_eq!(
        SimulatorError::InvalidData("stat 9".to_string()).message(),
        "invalid data: stat 9"
    );
}

#[test]
fn lookups_go_by_the_stored_name() {
    let mut db = chart();
    db.moves.insert("pound".to_string(), attack_move("pound", 1, Some(40), 2));
    db.moves.insert("vine-whip".to_string(), attack_move("vine-whip", 12, Some(45), 2));
    db.pokemon.insert("mr-mime".to_string(), creature("mr-mime", 40, 45, 65, 90, vec![14, 18]));
    assert!(db.get_pokemon("mr-mime").is_some());
    assert!(db.get_pokemon("Mr Mime").is_none());
    assert!(db.get_move("tackle").is_none());
    let chosen = select_pokemon(&db, "mr-mime").expect("stored species");
    assert_eq!(chosen, creature("mr-mime", 40, 45, 65, 90, vec![14, 18]));
    assert_eq!(select_pokemon(&db, "mew"), None);
    let default_move = resolve_default_move(&db, " Pound ").expect("stored move");
    assert_eq!(default_move.name, "pound");
    assert_eq!(select_move(&db, " Vine  Whip", default_move).name, "vine-whip");
    assert_eq!(select_move(&db, "splash", default_move).name, "pound");
    assert_eq!(
        resolve_default_move(&db, "Hyper Beam"),
        Err(SimulatorError::MissingData("move hyper-beam".to_string()))
    );
}

#[test]
fn normalized_names_are_lowercase_without_whitespace_and_stay_as_they_are() {
    for name in ["  Mr  Mime ", "Tapu\tKoko", "a - b", "", "  ", "HO-OH", "Nidoran F\n", "x"] {
        let once = normalize_name(name);
        assert_eq!(normalize_name(&once), once);
        assert!(!once.chars().any(char::is_whitespace));
        assert!(!once.chars().any(|c| c.is_ascii_uppercase()));
        assert!(once.is_ascii());
        assert_eq!(once.is_empty(), name.chars().all(char::is_whitespace));
    }
}

#[test]
fn hyphenating_adds_one_hyphen_between_words() {
    assert_eq!(hyphenate("a - b"), "a---b");
    assert_eq!(hyphenate("ho-oh"), "ho-oh");
    assert_eq!(hyphenate(" one  two\tthree "), "one-two-three");
    assert_eq!(hyphenate("Keeps Case"), "Keeps-Case");
    assert_eq!(hyphenate(" \n"), "");
}

#[test]
fn trimming_drops_the_whitespace_around() {
    assert_eq!(trim("  a b \t"), "a b");
    assert_eq!(trim("a"), "a");
    assert_eq!(trim(" \u{3000} "), "");
    assert_eq!(trim(""), "");
    assert_eq!(trim("\u{00A0}x\u{2003}"), "x");
}

#[test]
fn whitespace_is_what_unicode_calls_white_space() {
    for code in 0..=0x10FFFFu32 {
        if let Some(c) = char::from_u32(code) {
            assert_eq!(is_whitespace_char(c), c.is_whitespace(), "U+{code:04X}");
        }
    }
}
