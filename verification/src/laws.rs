use crate::battle::{
    after_action, after_turn, damage_of, factor_product, first_to_act, nearest_integer,
    outcome_of, state_after_turn, BattleEventView, BattleState, Side, TurnProgress,
};
use crate::chart::factor_of;
use crate::data::{
    ascii_lowercase, gen1_move_table, gen1_species_table, hyphenated, is_ascii_char,
    is_ascii_text, is_ascii_uppercase, is_listed, is_whitespace, lowercase_of, move_table,
    normalized, species_table, trim_end, trim_start, trimmed,
};
use crate::records::{MoveEntry, MoveRow, PokemonEntry, PokemonRow, StatRow, TypeRow};
use crate::models::{Move, PokemonSpecies, DAMAGE_CLASS_STATUS};
use vstd::prelude::*;

verus! {

/// The battle after a series of turns, each with the moves that the two
/// sides chose for it.
pub open spec fn state_after_turns(
    state: BattleState,
    choices: Seq<(Move, Move)>,
    table: Map<(u32, u32), u32>,
) -> BattleState
    decreases choices.len(),
{
    if choices.len() == 0 {
        state
    } else {
        state_after_turn(
            state_after_turns(state, choices.drop_last(), table),
            choices.last().0,
            choices.last().1,
            table,
        )
    }
}

/// Damage is never negative and fits an `i32`.
pub proof fn lemma_damage_in_range(
    attacker: PokemonSpecies,
    defender: PokemonSpecies,
    mv: Move,
    table: Map<(u32, u32), u32>,
)
    ensures
        0 <= damage_of(attacker, defender, mv, table) <= i32::MAX,
{
}

/// An action never raises the health of either side, and leaves a side
/// without health as it is.
pub proof fn lemma_action_never_heals(
    before: TurnProgress,
    side: Side,
    move_name: Seq<char>,
    damage: i32,
)
    requires
        0 <= damage,
    ensures
        after_action(before, side, move_name, damage).player_hp <= before.player_hp,
        after_action(before, side, move_name, damage).opponent_hp <= before.opponent_hp,
        before.player_hp <= 0 || before.opponent_hp <= 0 ==> after_action(
            before,
            side,
            move_name,
            damage,
        ) == before,
        before.player_hp > 0 ==> after_action(before, side, move_name, damage).player_hp >= 0,
        before.opponent_hp > 0 ==> after_action(before, side, move_name, damage).opponent_hp >= 0,
{
}

/// Over one turn the health of neither combatant rises, and a combatant
/// that has fainted stays as it is.
pub proof fn lemma_turn_never_heals(
    state: BattleState,
    player_move: Move,
    opponent_move: Move,
    table: Map<(u32, u32), u32>,
)
    ensures
        state_after_turn(state, player_move, opponent_move, table).player.current_hp
            <= state.player.current_hp,
        state_after_turn(state, player_move, opponent_move, table).opponent.current_hp
            <= state.opponent.current_hp,
        state.player.current_hp <= 0 ==> state_after_turn(
            state,
            player_move,
            opponent_move,
            table,
        ).player.current_hp == state.player.current_hp,
        state.opponent.current_hp <= 0 ==> state_after_turn(
            state,
            player_move,
            opponent_move,
            table,
        ).opponent.current_hp == state.opponent.current_hp,
        state_after_turn(state, player_move, opponent_move, table).player.species
            == state.player.species,
        state_after_turn(state, player_move, opponent_move, table).opponent.species
            == state.opponent.species,
{
}

/// A turn keeps a well-formed battle well formed: the health of each
/// combatant stays between 0 and what its species starts with.
pub proof fn lemma_turn_keeps_health_in_range(
    state: BattleState,
    player_move: Move,
    opponent_move: Move,
    table: Map<(u32, u32), u32>,
)
    requires
        state.well_formed(),
        state.turn < u32::MAX,
    ensures
        state_after_turn(state, player_move, opponent_move, table).well_formed(),
{
}

/// Over any number of turns the health of neither combatant rises, and a
/// combatant that has fainted never recovers.
pub proof fn lemma_health_never_rises(
    state: BattleState,
    choices: Seq<(Move, Move)>,
    table: Map<(u32, u32), u32>,
)
    ensures
        state_after_turns(state, choices, table).player.current_hp <= state.player.current_hp,
        state_after_turns(state, choices, table).opponent.current_hp <= state.opponent.current_hp,
        state.player.current_hp <= 0 ==> state_after_turns(state, choices, table).player.current_hp
            == state.player.current_hp,
        state.opponent.current_hp <= 0 ==> state_after_turns(
            state,
            choices,
            table,
        ).opponent.current_hp == state.opponent.current_hp,
    decreases choices.len(),
{
    if choices.len() > 0 {
        lemma_health_never_rises(state, choices.drop_last(), table);
        lemma_turn_never_heals(
            state_after_turns(state, choices.drop_last(), table),
            choices.last().0,
            choices.last().1,
            table,
        );
    }
}

/// The health after a longer series of turns is at most the health after
/// any shorter beginning of it.
pub proof fn lemma_health_falls_along_a_battle(
    state: BattleState,
    choices: Seq<(Move, Move)>,
    earlier: int,
    table: Map<(u32, u32), u32>,
)
    requires
        0 <= earlier <= choices.len(),
    ensures
        state_after_turns(state, choices, table).player.current_hp <= state_after_turns(
            state,
            choices.take(earlier),
            table,
        ).player.current_hp,
        state_after_turns(state, choices, table).opponent.current_hp <= state_after_turns(
            state,
            choices.take(earlier),
            table,
        ).opponent.current_hp,
    decreases choices.len(),
{
    if earlier == choices.len() {
        assert(choices.take(earlier) =~= choices);
    } else {
        assert(choices.drop_last().take(earlier) =~= choices.take(earlier));
        lemma_health_falls_along_a_battle(state, choices.drop_last(), earlier, table);
        lemma_turn_never_heals(
            state_after_turns(state, choices.drop_last(), table),
            choices.last().0,
            choices.last().1,
            table,
        );
    }
}

/// Which side acts first depends on the two speeds alone: the player
/// exactly where its speed is not lower.
pub proof fn lemma_order_depends_on_speed_only(first: BattleState, second: BattleState)
    requires
        first.player.species.stats.speed == second.player.species.stats.speed,
        first.opponent.species.stats.speed == second.opponent.species.stats.speed,
    ensures
        first_to_act(first) == first_to_act(second),
        first_to_act(first) == Side::Player <==> first.player.species.stats.speed
            >= first.opponent.species.stats.speed,
{
}

/// In a battle that is not over, the log of a turn opens with the move of
/// the side that acts first. It holds between one and three events. A
/// second move in it is the other side's and stands right behind the first,
/// which then left its target standing; the log holds no third move.
pub proof fn lemma_first_mover_comes_first(
    state: BattleState,
    player_move: Move,
    opponent_move: Move,
    table: Map<(u32, u32), u32>,
)
    requires
        !state.spec_is_over(),
    ensures
        ({
            let events = after_turn(state, player_move, opponent_move, table).events;
            let first = first_to_act(state);
            &&& 1 <= events.len() <= 3
            &&& events[0] is MoveUsed
            &&& events[0]->MoveUsed_side == first
            &&& forall|i: int|
                1 <= i < events.len() && events[i] is MoveUsed ==> {
                    &&& i == 1
                    &&& #[trigger] events[i]->MoveUsed_side == first.spec_other()
                    &&& events[0]->MoveUsed_target_hp > 0
                }
        }),
{
    lemma_damage_in_range(state.player.species, state.opponent.species, player_move, table);
    lemma_damage_in_range(state.opponent.species, state.player.species, player_move, table);
    lemma_damage_in_range(state.player.species, state.opponent.species, opponent_move, table);
    lemma_damage_in_range(state.opponent.species, state.player.species, opponent_move, table);
}

/// Where the first action of a turn takes the last health of its target,
/// the log holds that one move and the fainting, and the side that acted
/// first has won.
pub proof fn lemma_knockout_ends_the_turn(
    state: BattleState,
    player_move: Move,
    opponent_move: Move,
    table: Map<(u32, u32), u32>,
)
    requires
        !state.spec_is_over(),
        after_turn(state, player_move, opponent_move, table).events[0]->MoveUsed_target_hp <= 0,
    ensures
        ({
            let progress = after_turn(state, player_move, opponent_move, table);
            let first = first_to_act(state);
            &&& progress.events.len() == 2
            &&& progress.events[0] is MoveUsed
            &&& progress.events[0]->MoveUsed_side == first
            &&& progress.events[1] == (BattleEventView::Fainted { side: first.spec_other() })
            &&& outcome_of(progress) == Some(first)
        }),
{
    lemma_damage_in_range(state.player.species, state.opponent.species, player_move, table);
    lemma_damage_in_range(state.opponent.species, state.player.species, opponent_move, table);
}

/// The damage of a move is a function of the statistics of the attacker,
/// the statistics and types of the defender, the move's power, class and
/// type, and the chart: inputs that agree on these give the same damage.
pub proof fn lemma_damage_is_deterministic(
    attacker: PokemonSpecies,
    defender: PokemonSpecies,
    mv: Move,
    table: Map<(u32, u32), u32>,
    attacker_again: PokemonSpecies,
    defender_again: PokemonSpecies,
    mv_again: Move,
    table_again: Map<(u32, u32), u32>,
)
    requires
        attacker.stats == attacker_again.stats,
        defender.stats == defender_again.stats,
        defender.types@ == defender_again.types@,
        mv.power == mv_again.power,
        mv.damage_class_id == mv_again.damage_class_id,
        mv.type_id == mv_again.type_id,
        table == table_again,
    ensures
        damage_of(attacker, defender, mv, table) == damage_of(
            attacker_again,
            defender_again,
            mv_again,
            table_again,
        ),
{
}

/// A move without power, with a power that is not positive, or of the
/// status class deals no damage; every other move deals at least 1.
pub proof fn lemma_powerless_and_status_moves_deal_nothing(
    attacker: PokemonSpecies,
    defender: PokemonSpecies,
    mv: Move,
    table: Map<(u32, u32), u32>,
)
    ensures
        (mv.power is None || mv.power.unwrap() <= 0 || mv.damage_class_id == DAMAGE_CLASS_STATUS)
            ==> damage_of(attacker, defender, mv, table) == 0,
        !(mv.power is None || mv.power.unwrap() <= 0 || mv.damage_class_id == DAMAGE_CLASS_STATUS)
            ==> damage_of(attacker, defender, mv, table) >= 1,
{
}

/// The nearest integer lies within one half of the quotient: not more than
/// one half above it, and less than one half below it.
pub proof fn lemma_nearest_integer_is_nearest(n: int, d: int)
    requires
        0 <= n,
        0 < d,
    ensures
        2 * d * nearest_integer(n, d) - d <= 2 * n < 2 * d * nearest_integer(n, d) + d,
{
    vstd::arithmetic::div_mod::lemma_fundamental_div_mod(2 * n + d, 2 * d);
    vstd::arithmetic::div_mod::lemma_mod_bound(2 * n + d, 2 * d);
}

/// A factor of zero against any one of the defending types makes the whole
/// product zero, whatever the other types are.
pub proof fn lemma_immunity_zeroes_the_product(
    table: Map<(u32, u32), u32>,
    move_type: u32,
    types: Seq<u32>,
    immune: int,
)
    requires
        0 <= immune < types.len(),
        factor_of(table, move_type, types[immune]) == 0,
    ensures
        factor_product(table, move_type, types) == 0,
    decreases types.len(),
{
    if immune < types.len() - 1 {
        lemma_immunity_zeroes_the_product(table, move_type, types.drop_last(), immune);
    }
    let rest = factor_product(table, move_type, types.drop_last());
    let last = factor_of(table, move_type, types.last()) as nat;
    assert(rest == 0 || last == 0);
    assert(rest * last == 0) by (nonlinear_arith)
        requires
            rest == 0 || last == 0,
    ;
}

/// A damaging move deals exactly 1 where the product of the factors is
/// zero: the least damage holds even against an immune type.
pub proof fn lemma_immune_target_takes_one(
    attacker: PokemonSpecies,
    defender: PokemonSpecies,
    mv: Move,
    table: Map<(u32, u32), u32>,
)
    requires
        mv.power is Some,
        mv.power.unwrap() > 0,
        mv.damage_class_id != DAMAGE_CLASS_STATUS,
        factor_product(table, mv.type_id, defender.types@) == 0,
    ensures
        damage_of(attacker, defender, mv, table) == 1,
{
    assert(forall|a: int, b: int| #[trigger] (a * b * 0) == 0) by (nonlinear_arith);
}

/// The turn counter goes up by exactly one over a turn that leaves both
/// combatants standing, and stays as it is over a turn after which the
/// battle is over; the turn names a winner exactly in the second case.
pub proof fn lemma_turn_counter(
    state: BattleState,
    player_move: Move,
    opponent_move: Move,
    table: Map<(u32, u32), u32>,
)
    requires
        state.turn < u32::MAX,
    ensures
        ({
            let next = state_after_turn(state, player_move, opponent_move, table);
            let outcome = outcome_of(after_turn(state, player_move, opponent_move, table));
            &&& outcome is Some <==> next.spec_is_over()
            &&& !next.spec_is_over() ==> next.turn == state.turn + 1
            &&& next.spec_is_over() ==> next.turn == state.turn
            &&& outcome == Some(Side::Opponent) <==> next.player.current_hp <= 0
            &&& outcome == Some(Side::Player) <==> next.player.current_hp > 0
                && next.opponent.current_hp <= 0
        }),
{
}

/// What holds of the hyphen and of every character of a text that is no
/// whitespace holds of every character of the hyphenated text.
pub proof fn lemma_hyphenated_keeps(text: Seq<char>, holds: spec_fn(char) -> bool)
    requires
        holds('-'),
        forall|j: int| 0 <= j < text.len() && !is_whitespace(text[j]) ==> holds(#[trigger] text[j]),
    ensures
        forall|i: int| 0 <= i < hyphenated(text).len() ==> holds(#[trigger] hyphenated(text)[i]),
    decreases text.len(),
{
    if text.len() > 0 {
        let front = text.drop_last();
        assert forall|j: int| 0 <= j < front.len() && !is_whitespace(front[j]) implies holds(
            #[trigger] front[j],
        ) by {
            assert(front[j] == text[j]);
        }
        lemma_hyphenated_keeps(front, holds);
        let before = hyphenated(front);
        assert forall|i: int| 0 <= i < hyphenated(text).len() implies holds(
            #[trigger] hyphenated(text)[i],
        ) by {
            if i < before.len() {
                assert(hyphenated(text)[i] == before[i]);
            } else if !is_whitespace(text.last()) {
                assert(holds(text[text.len() - 1]));
            }
        }
    }
}

/// A text without whitespace is its own hyphenated text.
pub proof fn lemma_hyphenated_without_whitespace(text: Seq<char>)
    requires
        forall|j: int| 0 <= j < text.len() ==> !is_whitespace(#[trigger] text[j]),
    ensures
        hyphenated(text) == text,
    decreases text.len(),
{
    if text.len() > 0 {
        lemma_hyphenated_without_whitespace(text.drop_last());
        assert(text.drop_last().push(text.last()) =~= text);
    }
}

/// What holds of every character of a text holds of every character of
/// the text without the whitespace it begins with.
pub proof fn lemma_trim_start_keeps(text: Seq<char>, holds: spec_fn(char) -> bool)
    requires
        forall|j: int| 0 <= j < text.len() ==> holds(#[trigger] text[j]),
    ensures
        forall|i: int| 0 <= i < trim_start(text).len() ==> holds(#[trigger] trim_start(text)[i]),
    decreases text.len(),
{
    if text.len() > 0 && is_whitespace(text[0]) {
        assert forall|j: int| 0 <= j < text.drop_first().len() implies holds(
            #[trigger] text.drop_first()[j],
        ) by {
            assert(holds(text[j + 1]));
        }
        lemma_trim_start_keeps(text.drop_first(), holds);
        assert(trim_start(text) == trim_start(text.drop_first()));
        assert forall|i: int| 0 <= i < trim_start(text).len() implies holds(
            #[trigger] trim_start(text)[i],
        ) by {
            assert(holds(trim_start(text.drop_first())[i]));
        }
    } else {
        assert forall|i: int| 0 <= i < trim_start(text).len() implies holds(
            #[trigger] trim_start(text)[i],
        ) by {
            assert(holds(text[i]));
        }
    }
}

/// What holds of every character of a text holds of every character of
/// the text without the whitespace it ends with.
pub proof fn lemma_trim_end_keeps(text: Seq<char>, holds: spec_fn(char) -> bool)
    requires
        forall|j: int| 0 <= j < text.len() ==> holds(#[trigger] text[j]),
    ensures
        forall|i: int| 0 <= i < trim_end(text).len() ==> holds(#[trigger] trim_end(text)[i]),
    decreases text.len(),
{
    if text.len() > 0 && is_whitespace(text.last()) {
        assert forall|j: int| 0 <= j < text.drop_last().len() implies holds(
            #[trigger] text.drop_last()[j],
        ) by {
            assert(holds(text[j]));
        }
        lemma_trim_end_keeps(text.drop_last(), holds);
        assert(trim_end(text) == trim_end(text.drop_last()));
        assert forall|i: int| 0 <= i < trim_end(text).len() implies holds(
            #[trigger] trim_end(text)[i],
        ) by {
            assert(holds(trim_end(text.drop_last())[i]));
        }
    } else {
        assert forall|i: int| 0 <= i < trim_end(text).len() implies holds(
            #[trigger] trim_end(text)[i],
        ) by {
            assert(holds(text[i]));
        }
    }
}

/// A normalized name holds no whitespace.
pub proof fn lemma_normalized_has_no_whitespace(text: Seq<char>)
    ensures
        forall|i: int|
            0 <= i < normalized(text).len() ==> !is_whitespace(#[trigger] normalized(text)[i]),
{
    lemma_hyphenated_keeps(lowercase_of(trimmed(text)), |c: char| !is_whitespace(c));
}

/// The normalized form of a name of ASCII is of ASCII and holds no capital
/// letter.
pub proof fn lemma_normalized_ascii_is_lowercase(text: Seq<char>)
    requires
        is_ascii_text(text),
    ensures
        is_ascii_text(normalized(text)),
        forall|i: int|
            0 <= i < normalized(text).len() ==> !is_ascii_uppercase(#[trigger] normalized(text)[i]),
{
    let ascii = |c: char| is_ascii_char(c);
    lemma_trim_start_keeps(text, ascii);
    lemma_trim_end_keeps(trim_start(text), ascii);
    let inner = trimmed(text);
    assert(is_ascii_text(inner));
    let lowered = lowercase_of(inner);
    assert(lowered == ascii_lowercase(inner));
    let small = |c: char| is_ascii_char(c) && !is_ascii_uppercase(c);
    assert forall|j: int| 0 <= j < lowered.len() implies small(#[trigger] lowered[j]) by {
        assert(is_ascii_char(inner[j]));
    }
    lemma_hyphenated_keeps(lowered, small);
}

/// Normalizing a name of ASCII a second time changes nothing.
pub proof fn lemma_normalize_is_idempotent_on_ascii(text: Seq<char>)
    requires
        is_ascii_text(text),
    ensures
        normalized(normalized(text)) == normalized(text),
{
    let name = normalized(text);
    lemma_normalized_has_no_whitespace(text);
    lemma_normalized_ascii_is_lowercase(text);
    assert(trim_start(name) == name);
    assert(trim_end(name) == name);
    assert(trimmed(name) == name);
    assert(ascii_lowercase(name) =~= name);
    lemma_hyphenated_without_whitespace(name);
}

/// Whether a text holds nothing but whitespace.
pub open spec fn is_blank(text: Seq<char>) -> bool {
    forall|j: int| 0 <= j < text.len() ==> is_whitespace(#[trigger] text[j])
}

/// The hyphenated text is empty exactly where the text is blank.
pub proof fn lemma_hyphenated_is_empty_iff_blank(text: Seq<char>)
    ensures
        hyphenated(text).len() == 0 <==> is_blank(text),
    decreases text.len(),
{
    if text.len() > 0 {
        let front = text.drop_last();
        lemma_hyphenated_is_empty_iff_blank(front);
        if is_blank(text) {
            assert(is_whitespace(text[text.len() - 1]));
            assert forall|j: int| 0 <= j < front.len() implies is_whitespace(#[trigger] front[j]) by {
                assert(is_whitespace(text[j]));
            }
        }
        if hyphenated(text).len() == 0 {
            assert(is_whitespace(text.last()));
            assert forall|j: int| 0 <= j < text.len() implies is_whitespace(#[trigger] text[j]) by {
                if j < front.len() {
                    assert(is_whitespace(front[j]));
                }
            }
        }
    }
}

/// A text is blank exactly where it is blank without the whitespace it
/// begins with.
pub proof fn lemma_trim_start_is_blank_iff_blank(text: Seq<char>)
    ensures
        is_blank(trim_start(text)) <==> is_blank(text),
    decreases text.len(),
{
    if text.len() > 0 && is_whitespace(text[0]) {
        let rest = text.drop_first();
        lemma_trim_start_is_blank_iff_blank(rest);
        assert(trim_start(text) == trim_start(rest));
        if is_blank(text) {
            assert forall|j: int| 0 <= j < rest.len() implies is_whitespace(#[trigger] rest[j]) by {
                assert(is_whitespace(text[j + 1]));
            }
        }
        if is_blank(rest) {
            assert forall|j: int| 0 <= j < text.len() implies is_whitespace(#[trigger] text[j]) by {
                if j > 0 {
                    assert(is_whitespace(rest[j - 1]));
                }
            }
        }
    }
}

/// A text is blank exactly where it is blank without the whitespace it
/// ends with.
pub proof fn lemma_trim_end_is_blank_iff_blank(text: Seq<char>)
    ensures
        is_blank(trim_end(text)) <==> is_blank(text),
    decreases text.len(),
{
    if text.len() > 0 && is_whitespace(text.last()) {
        let front = text.drop_last();
        lemma_trim_end_is_blank_iff_blank(front);
        assert(trim_end(text) == trim_end(front));
        if is_blank(text) {
            assert forall|j: int| 0 <= j < front.len() implies is_whitespace(#[trigger] front[j]) by {
                assert(is_whitespace(text[j]));
            }
        }
        if is_blank(front) {
            assert forall|j: int| 0 <= j < text.len() implies is_whitespace(#[trigger] text[j]) by {
                if j < front.len() {
                    assert(is_whitespace(front[j]));
                }
            }
        }
    }
}

/// The normalized form of a name of ASCII is empty exactly where the name
/// is blank.
pub proof fn lemma_normalized_is_empty_iff_blank(text: Seq<char>)
    requires
        is_ascii_text(text),
    ensures
        normalized(text).len() == 0 <==> is_blank(text),
{
    lemma_trim_start_is_blank_iff_blank(text);
    lemma_trim_end_is_blank_iff_blank(trim_start(text));
    let ascii = |c: char| is_ascii_char(c);
    lemma_trim_start_keeps(text, ascii);
    lemma_trim_end_keeps(trim_start(text), ascii);
    let inner = trimmed(text);
    assert(is_ascii_text(inner));
    let lowered = lowercase_of(inner);
    assert(lowered == ascii_lowercase(inner));
    if is_blank(inner) {
        assert forall|j: int| 0 <= j < lowered.len() implies is_whitespace(#[trigger] lowered[j]) by {
            assert(is_whitespace(inner[j]));
        }
    }
    if is_blank(lowered) {
        assert forall|j: int| 0 <= j < inner.len() implies is_whitespace(#[trigger] inner[j]) by {
            assert(is_whitespace(lowered[j]));
        }
    }
    lemma_hyphenated_is_empty_iff_blank(lowered);
}

/// The number of hyphens in a text.
pub open spec fn hyphen_count(text: Seq<char>) -> nat
    decreases text.len(),
{
    if text.len() == 0 {
        0
    } else {
        hyphen_count(text.drop_last()) + if text.last() == '-' {
            1nat
        } else {
            0nat
        }
    }
}

/// The number of words in a text: of the places where a character that is
/// no whitespace stands first or behind whitespace.
pub open spec fn word_count(text: Seq<char>) -> nat
    decreases text.len(),
{
    if text.len() == 0 {
        0
    } else {
        word_count(text.drop_last()) + if !is_whitespace(text.last()) && (text.len() == 1
            || is_whitespace(text[text.len() - 2])) {
            1nat
        } else {
            0nat
        }
    }
}

/// A text has no word exactly where it is blank.
pub proof fn lemma_no_word_iff_blank(text: Seq<char>)
    ensures
        word_count(text) == 0 <==> is_blank(text),
    decreases text.len(),
{
    if text.len() > 0 {
        let front = text.drop_last();
        lemma_no_word_iff_blank(front);
        if is_blank(text) {
            assert(is_whitespace(text[text.len() - 1]));
            assert forall|j: int| 0 <= j < front.len() implies is_whitespace(#[trigger] front[j]) by {
                assert(is_whitespace(text[j]));
            }
        }
        if word_count(text) == 0 {
            if text.len() >= 2 {
                assert(front[text.len() - 2] == text[text.len() - 2]);
            }
            assert(is_whitespace(text.last()));
            assert forall|j: int| 0 <= j < text.len() implies is_whitespace(#[trigger] text[j]) by {
                if j < front.len() {
                    assert(is_whitespace(front[j]));
                }
            }
        }
    }
}

/// Hyphenating adds one hyphen between every two words that follow each
/// other: the hyphenated text holds the hyphens of the text and one more
/// for every word but the first.
pub proof fn lemma_hyphenated_hyphen_count(text: Seq<char>)
    ensures
        hyphen_count(hyphenated(text)) == hyphen_count(text) + if word_count(text) > 0 {
            word_count(text) - 1
        } else {
            0
        },
    decreases text.len(),
{
    if text.len() > 0 {
        let front = text.drop_last();
        let last = text.last();
        let before = hyphenated(front);
        lemma_hyphenated_hyphen_count(front);
        lemma_hyphenated_is_empty_iff_blank(front);
        lemma_no_word_iff_blank(front);
        if is_whitespace(last) {
            assert(hyphenated(text) == before);
        } else if before.len() > 0 && is_whitespace(text[text.len() - 2]) {
            let joined = before.push('-');
            assert(joined.drop_last() =~= before);
            assert(hyphen_count(joined) == hyphen_count(before) + 1);
            assert(joined.push(last).drop_last() =~= joined);
            assert(hyphenated(text) == joined.push(last));
        } else {
            assert(before.push(last).drop_last() =~= before);
            assert(hyphenated(text) == before.push(last));
            if before.len() == 0 {
                if text.len() >= 2 {
                    assert(is_whitespace(front[text.len() - 2]));
                }
            }
        }
    }
}

/// Whether the identifier of every species record is of ASCII.
pub open spec fn species_identifiers_are_ascii(rows: Seq<PokemonRow>) -> bool {
    forall|i: int| 0 <= i < rows.len() ==> is_ascii_text(#[trigger] rows[i].identifier@)
}

/// Every species of the reference data
/// carries the name it is stored under. Where the identifiers are of ASCII,
/// normalizing that name again changes nothing.
pub proof fn lemma_species_carry_their_names(
    rows: Seq<PokemonRow>,
    stat_rows: Seq<StatRow>,
    type_rows: Seq<TypeRow>,
)
    ensures
        ({
            let table = species_table(rows, stat_rows, type_rows);
            forall|key: Seq<char>| #[trigger]
                table.contains_key(key) ==> {
                    &&& table[key].name == key
                    &&& species_identifiers_are_ascii(rows) ==> normalized(key) == key
                }
        }),
    decreases rows.len(),
{
    if rows.len() > 0 {
        let front = rows.drop_last();
        let table = species_table(rows, stat_rows, type_rows);
        let ascii = species_identifiers_are_ascii(rows);
        lemma_species_carry_their_names(front, stat_rows, type_rows);
        if ascii {
            assert forall|i: int| 0 <= i < front.len() implies is_ascii_text(
                #[trigger] front[i].identifier@,
            ) by {
                assert(is_ascii_text(rows[i].identifier@));
            }
            assert(is_ascii_text(rows[rows.len() - 1].identifier@));
            lemma_normalize_is_idempotent_on_ascii(rows.last().identifier@);
        }
        assert forall|key: Seq<char>| #[trigger] table.contains_key(key) implies table[key].name
            == key && (ascii ==> normalized(key) == key) by {
            if !(is_listed(rows.last()) && key == normalized(rows.last().identifier@)) {
                assert(species_table(front, stat_rows, type_rows).contains_key(key));
            }
        }
    }
}

/// Whether the identifier of every move record is of ASCII.
pub open spec fn move_identifiers_are_ascii(rows: Seq<MoveRow>) -> bool {
    forall|i: int| 0 <= i < rows.len() ==> is_ascii_text(#[trigger] rows[i].identifier@)
}

/// Every move of the reference data
/// carries the name it is stored under. Where the identifiers are of ASCII,
/// normalizing that name again changes nothing.
pub proof fn lemma_moves_carry_their_names(
    rows: Seq<MoveRow>,
)
    ensures
        ({
            let table = move_table(rows);
            forall|key: Seq<char>| #[trigger]
                table.contains_key(key) ==> {
                    &&& table[key].name == key
                    &&& move_identifiers_are_ascii(rows) ==> normalized(key) == key
                }
        }),
    decreases rows.len(),
{
    if rows.len() > 0 {
        let front = rows.drop_last();
        let table = move_table(rows);
        let ascii = move_identifiers_are_ascii(rows);
        lemma_moves_carry_their_names(front);
        if ascii {
            assert forall|i: int| 0 <= i < front.len() implies is_ascii_text(
                #[trigger] front[i].identifier@,
            ) by {
                assert(is_ascii_text(rows[i].identifier@));
            }
            assert(is_ascii_text(rows[rows.len() - 1].identifier@));
            lemma_normalize_is_idempotent_on_ascii(rows.last().identifier@);
        }
        assert forall|key: Seq<char>| #[trigger] table.contains_key(key) implies table[key].name
            == key && (ascii ==> normalized(key) == key) by {
            if !(key == normalized(rows.last().identifier@)) {
                assert(move_table(front).contains_key(key));
            }
        }
    }
}

/// Whether the identifier of every species entry is of ASCII.
pub open spec fn gen1_species_identifiers_are_ascii(entries: Seq<PokemonEntry>) -> bool {
    forall|i: int| 0 <= i < entries.len() ==> is_ascii_text(#[trigger] entries[i].identifier@)
}

/// Every species of the first generation
/// carries the name it is stored under. Where the identifiers are of ASCII,
/// normalizing that name again changes nothing.
pub proof fn lemma_gen1_species_carry_their_names(
    entries: Seq<PokemonEntry>,
    learnsets: Seq<Seq<Option<u32>>>,
)
    ensures
        ({
            let table = gen1_species_table(entries, learnsets);
            forall|key: Seq<char>| #[trigger]
                table.contains_key(key) ==> {
                    &&& table[key].name == key
                    &&& gen1_species_identifiers_are_ascii(entries) ==> normalized(key) == key
                }
        }),
    decreases entries.len(),
{
    if entries.len() > 0 {
        let front = entries.drop_last();
        let table = gen1_species_table(entries, learnsets);
        let ascii = gen1_species_identifiers_are_ascii(entries);
        lemma_gen1_species_carry_their_names(front, learnsets);
        if ascii {
            assert forall|i: int| 0 <= i < front.len() implies is_ascii_text(
                #[trigger] front[i].identifier@,
            ) by {
                assert(is_ascii_text(entries[i].identifier@));
            }
            assert(is_ascii_text(entries[entries.len() - 1].identifier@));
            lemma_normalize_is_idempotent_on_ascii(entries.last().identifier@);
        }
        assert forall|key: Seq<char>| #[trigger] table.contains_key(key) implies table[key].name
            == key && (ascii ==> normalized(key) == key) by {
            if !(key == normalized(entries.last().identifier@)) {
                assert(gen1_species_table(front, learnsets).contains_key(key));
            }
        }
    }
}

/// Whether the identifier of every move entry is of ASCII.
pub open spec fn gen1_move_identifiers_are_ascii(entries: Seq<MoveEntry>) -> bool {
    forall|i: int| 0 <= i < entries.len() ==> is_ascii_text(#[trigger] entries[i].identifier@)
}

/// Every move of the first generation
/// carries the name it is stored under. Where the identifiers are of ASCII,
/// normalizing that name again changes nothing.
pub proof fn lemma_gen1_moves_carry_their_names(
    entries: Seq<MoveEntry>,
)
    ensures
        ({
            let table = gen1_move_table(entries);
            forall|key: Seq<char>| #[trigger]
                table.contains_key(key) ==> {
                    &&& table[key].name == key
                    &&& gen1_move_identifiers_are_ascii(entries) ==> normalized(key) == key
                }
        }),
    decreases entries.len(),
{
    if entries.len() > 0 {
        let front = entries.drop_last();
        let table = gen1_move_table(entries);
        let ascii = gen1_move_identifiers_are_ascii(entries);
        lemma_gen1_moves_carry_their_names(front);
        if ascii {
            assert forall|i: int| 0 <= i < front.len() implies is_ascii_text(
                #[trigger] front[i].identifier@,
            ) by {
                assert(is_ascii_text(entries[i].identifier@));
            }
            assert(is_ascii_text(entries[entries.len() - 1].identifier@));
            lemma_normalize_is_idempotent_on_ascii(entries.last().identifier@);
        }
        assert forall|key: Seq<char>| #[trigger] table.contains_key(key) implies table[key].name
            == key && (ascii ==> normalized(key) == key) by {
            if !(key == normalized(entries.last().identifier@)) {
                assert(gen1_move_table(front).contains_key(key));
            }
        }
    }
}

} // verus!
