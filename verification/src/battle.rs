use crate::chart::factor_of;
use crate::models::{Database, Move, PokemonSpecies, DAMAGE_CLASS_SPECIAL, DAMAGE_CLASS_STATUS};
use vstd::prelude::*;

verus! {

/// One of the two sides of a battle.
#[derive(Debug, Clone, Copy, PartialEq, Eq, Structural)]
pub enum Side {
    Player,
    Opponent,
}

impl Side {
    /// The side facing this one.
    pub open spec fn spec_other(self) -> Side {
        match self {
            Side::Player => Side::Opponent,
            Side::Opponent => Side::Player,
        }
    }

    /// The side facing this one.
    #[verifier::when_used_as_spec(spec_other)]
    pub fn other(self) -> (side: Side)
        ensures
            side == self.spec_other(),
    {
        match self {
            Side::Player => Side::Opponent,
            Side::Opponent => Side::Player,
        }
    }
}

/// A species in a battle, with the health it has left.
#[derive(Debug, Clone)]
pub struct BattlePokemon {
    pub species: PokemonSpecies,
    pub current_hp: i32,
}

impl BattlePokemon {
    /// The health a species enters a battle with: its health statistic, and
    /// at least 1.
    pub open spec fn starting_hp(species: PokemonSpecies) -> i32 {
        if species.stats.hp >= 1 {
            species.stats.hp
        } else {
            1
        }
    }

    /// Whether the health left lies between 0 and the health the species
    /// starts with.
    pub open spec fn well_formed(&self) -> bool {
        0 <= self.current_hp <= Self::starting_hp(self.species)
    }

    /// A combatant of the given species at full health.
    pub fn new(species: PokemonSpecies) -> (combatant: Self)
        ensures
            combatant.species == species,
            combatant.current_hp == Self::starting_hp(species),
            combatant.well_formed(),
            !combatant.is_fainted(),
    {
        let hp: i32 = if species.stats.hp >= 1 {
            species.stats.hp
        } else {
            1
        };
        Self { species, current_hp: hp }
    }

    /// Whether no health is left.
    pub open spec fn spec_is_fainted(&self) -> bool {
        self.current_hp <= 0
    }

    /// Whether no health is left.
    #[verifier::when_used_as_spec(spec_is_fainted)]
    pub fn is_fainted(&self) -> (fainted: bool)
        ensures
            fainted == (self.current_hp <= 0),
    {
        self.current_hp <= 0
    }
}

/// A battle: the two combatants and the number of the turn to be played.
#[derive(Debug, Clone)]
pub struct BattleState {
    pub player: BattlePokemon,
    pub opponent: BattlePokemon,
    pub turn: u32,
}

impl BattleState {
    /// Whether both combatants are well formed and the turn counter has
    /// started.
    pub open spec fn well_formed(&self) -> bool {
        &&& self.player.well_formed()
        &&& self.opponent.well_formed()
        &&& self.turn >= 1
    }

    /// A battle between two species, both at full health, at turn 1.
    pub fn new(player: PokemonSpecies, opponent: PokemonSpecies) -> (state: Self)
        ensures
            state.well_formed(),
            state.player.species == player,
            state.player.current_hp == BattlePokemon::starting_hp(player),
            state.opponent.species == opponent,
            state.opponent.current_hp == BattlePokemon::starting_hp(opponent),
            state.turn == 1,
            !state.is_over(),
    {
        Self { player: BattlePokemon::new(player), opponent: BattlePokemon::new(opponent), turn: 1 }
    }

    /// Whether one of the combatants has no health left.
    pub open spec fn spec_is_over(&self) -> bool {
        self.player.current_hp <= 0 || self.opponent.current_hp <= 0
    }

    /// Whether one of the combatants has no health left.
    #[verifier::when_used_as_spec(spec_is_over)]
    pub fn is_over(&self) -> (over: bool)
        ensures
            over == (self.player.current_hp <= 0 || self.opponent.current_hp <= 0),
    {
        self.player.is_fainted() || self.opponent.is_fainted()
    }
}

/// Something that happened during a turn.
#[derive(Debug, Clone, PartialEq, Eq)]
pub enum BattleEvent {
    /// A side used a move; `target_hp` is the health left to the other side.
    MoveUsed { side: Side, move_name: String, damage: i32, target_hp: i32 },
    /// A side lost its last health.
    Fainted { side: Side },
}

/// The mathematical value of a [`BattleEvent`].
pub enum BattleEventView {
    MoveUsed { side: Side, move_name: Seq<char>, damage: i32, target_hp: i32 },
    Fainted { side: Side },
}

impl View for BattleEvent {
    type V = BattleEventView;

    open spec fn view(&self) -> BattleEventView {
        match *self {
            BattleEvent::MoveUsed { side, move_name, damage, target_hp } => BattleEventView::MoveUsed {
                side,
                move_name: move_name@,
                damage,
                target_hp,
            },
            BattleEvent::Fainted { side } => BattleEventView::Fainted { side },
        }
    }
}

/// The values of a sequence of events.
pub open spec fn event_views(events: Seq<BattleEvent>) -> Seq<BattleEventView> {
    events.map_values(|event: BattleEvent| event@)
}

/// What a turn produced: its events in the order they happened, and the
/// winner if the battle ended.
#[derive(Debug, Clone, PartialEq, Eq)]
pub struct TurnResult {
    pub events: Vec<BattleEvent>,
    pub outcome: Option<Side>,
}

/// An effectiveness multiplier as an exact fraction.
#[derive(Debug, Clone, Copy, PartialEq, Eq)]
pub struct Multiplier {
    pub numerator: u64,
    pub denominator: u64,
}

impl Multiplier {
    /// Whether the multiplier is exactly zero.
    pub fn is_zero(&self) -> (zero: bool)
        ensures
            zero == (self.numerator == 0),
    {
        self.numerator == 0
    }
}

/// The largest number of elemental types of a species for which the
/// multiplier fits its fraction.
pub const MAX_TYPES: usize = 2;

/// The product of the chart's factors, in hundredths, for a move type
/// against each of the defending types.
pub open spec fn factor_product(table: Map<(u32, u32), u32>, move_type: u32, types: Seq<u32>) -> nat
    decreases types.len(),
{
    if types.len() == 0 {
        1
    } else {
        factor_product(table, move_type, types.drop_last()) * (factor_of(
            table,
            move_type,
            types.last(),
        ) as nat)
    }
}

/// One hundred to the power `n`.
pub open spec fn hundred_power(n: nat) -> nat
    decreases n,
{
    if n == 0 {
        1
    } else {
        100 * hundred_power((n - 1) as nat)
    }
}

/// The multiplier of a move type against a combatant with the given types:
/// the product of the chart's factors over all of them, as a fraction whose
/// denominator is one hundred for each type.
pub fn type_multiplier(move_type_id: u32, target_types: &[u32], db: &Database) -> (multiplier:
    Multiplier)
    requires
        target_types@.len() <= MAX_TYPES,
    ensures
        multiplier.numerator == factor_product(db.type_advantage@, move_type_id, target_types@),
        multiplier.denominator == hundred_power(target_types@.len()),
        multiplier.numerator <= 0xFFFF_FFFF * 0xFFFF_FFFF,
        1 <= multiplier.denominator <= 10_000,
{
    let mut numerator: u64 = 1;
    let mut denominator: u64 = 1;
    let mut i: usize = 0;
    while i < target_types.len()
        invariant
            i <= target_types@.len() <= MAX_TYPES,
            numerator == factor_product(db.type_advantage@, move_type_id, target_types@.take(i as int)),
            denominator == hundred_power(i as nat),
            i == 0 ==> numerator == 1 && denominator == 1,
            i == 1 ==> numerator <= 0xFFFF_FFFF && denominator == 100,
            i == 2 ==> numerator <= 0xFFFF_FFFF * 0xFFFF_FFFF && denominator == 10_000,
        decreases target_types@.len() - i,
    {
        let factor: u32 = db.type_advantage.factor(move_type_id, target_types[i]);
        proof {
            let next = target_types@.take(i + 1);
            assert(next.drop_last() =~= target_types@.take(i as int));
            assert(next.last() == target_types@[i as int]);
            assert(numerator * factor <= 0xFFFF_FFFF * 0xFFFF_FFFF) by (nonlinear_arith)
                requires
                    numerator <= 0xFFFF_FFFF,
                    factor <= 0xFFFF_FFFF,
            ;
            assert(hundred_power((i + 1) as nat) == 100 * hundred_power(i as nat));
        }
        numerator = numerator * (factor as u64);
        denominator = denominator * 100;
        i += 1;
    }
    proof {
        assert(target_types@.take(i as int) =~= target_types@);
    }
    Multiplier { numerator, denominator }
}

/// The integer nearest to `n / d`, the upper one where two are equally
/// near, for `n` not negative and `d` positive.
pub open spec fn nearest_integer(n: int, d: int) -> int {
    (2 * n + d) / (2 * d)
}

/// The damage of a hit, given the move's power, the attack and defense
/// statistics that apply and the multiplier as a fraction: power times
/// attack over defense (at least 1) times the multiplier, rounded to the
/// nearest integer with halves rounded up, and kept between 1 and the largest
/// `i32`.
pub open spec fn rounded_damage(
    power: int,
    attack: int,
    defense: int,
    numerator: int,
    denominator: int,
) -> int {
    let n = power * attack * numerator;
    let d = (if defense >= 1 {
        defense
    } else {
        1
    }) * denominator;
    let nearest = if n <= 0 {
        0
    } else {
        nearest_integer(n, d)
    };
    if nearest < 1 {
        1
    } else if nearest > i32::MAX {
        i32::MAX as int
    } else {
        nearest
    }
}

/// The damage that a move of `attacker` deals to `defender`: none for a
/// move without positive power or of the status class; otherwise
/// [`rounded_damage`] of the statistics that the move's class selects and of
/// the multiplier of the move's type against the defender's types.
pub open spec fn damage_of(
    attacker: PokemonSpecies,
    defender: PokemonSpecies,
    mv: Move,
    table: Map<(u32, u32), u32>,
) -> int {
    if !(mv.power is Some && mv.power.unwrap() > 0) {
        0
    } else if mv.damage_class_id == DAMAGE_CLASS_STATUS {
        0
    } else {
        let special = mv.damage_class_id == DAMAGE_CLASS_SPECIAL;
        rounded_damage(
            mv.power.unwrap() as int,
            (if special {
                attacker.stats.sp_attack
            } else {
                attacker.stats.attack
            }) as int,
            (if special {
                defender.stats.sp_defense
            } else {
                defender.stats.defense
            }) as int,
            factor_product(table, mv.type_id, defender.types@) as int,
            hundred_power(defender.types@.len()) as int,
        )
    }
}

/// The damage that `mv`, used by `attacker`, deals to `defender`.
///
/// The result is the exact quotient of the integers involved, rounded to
/// the nearest integer. An evaluation of the same formula in single-precision
/// floating point can differ from it on operands that single precision
/// cannot hold, such as a power of 16777217.
pub fn calculate_damage(
    attacker: &BattlePokemon,
    defender: &BattlePokemon,
    mv: &Move,
    db: &Database,
) -> (damage: i32)
    requires
        defender.species.types@.len() <= MAX_TYPES,
    ensures
        damage == damage_of(attacker.species, defender.species, *mv, db.type_advantage@),
        mv.power is None || mv.power.unwrap() <= 0 || mv.damage_class_id == DAMAGE_CLASS_STATUS
            ==> damage == 0,
        mv.power is Some && mv.power.unwrap() > 0 && mv.damage_class_id != DAMAGE_CLASS_STATUS
            ==> damage >= 1,
{
    let power: i32 = match mv.power {
        Some(power) => power,
        None => 0,
    };
    if power <= 0 {
        return 0;
    }
    if mv.damage_class_id == DAMAGE_CLASS_STATUS {
        return 0;
    }
    let special = mv.damage_class_id == DAMAGE_CLASS_SPECIAL;
    let attack: i32 = if special {
        attacker.species.stats.sp_attack
    } else {
        attacker.species.stats.attack
    };
    let defense: i32 = if special {
        defender.species.stats.sp_defense
    } else {
        defender.species.stats.defense
    };
    let multiplier = type_multiplier(mv.type_id, defender.species.types.as_slice(), db);
    if attack <= 0 || multiplier.numerator == 0 {
        proof {
            assert(power * attack * multiplier.numerator <= 0) by (nonlinear_arith)
                requires
                    power > 0,
                    attack <= 0 || multiplier.numerator == 0,
                    multiplier.numerator >= 0,
            ;
        }
        return 1;
    }
    let floor: i32 = if defense >= 1 {
        defense
    } else {
        1
    };
    proof {
        assert(0 < power * attack <= 0x7FFF_FFFF * 0x7FFF_FFFF) by (nonlinear_arith)
            requires
                0 < power <= 0x7FFF_FFFF,
                0 < attack <= 0x7FFF_FFFF,
        ;
        assert(0 < (power * attack) * multiplier.numerator <= (0x7FFF_FFFF * 0x7FFF_FFFF) * (
        0xFFFF_FFFF * 0xFFFF_FFFF)) by (nonlinear_arith)
            requires
                0 < power * attack <= 0x7FFF_FFFF * 0x7FFF_FFFF,
                0 < multiplier.numerator <= 0xFFFF_FFFF * 0xFFFF_FFFF,
        ;
        assert(0 < floor * multiplier.denominator <= 0x7FFF_FFFF * 10_000) by (nonlinear_arith)
            requires
                0 < floor <= 0x7FFF_FFFF,
                0 < multiplier.denominator <= 10_000,
        ;
    }
    let scaled: u128 = (power as u128) * (attack as u128);
    let n: u128 = scaled * (multiplier.numerator as u128);
    let d: u128 = (floor as u128) * (multiplier.denominator as u128);
    let nearest: u128 = (2 * n + d) / (2 * d);
    if nearest < 1 {
        1
    } else if nearest > 0x7FFF_FFFF {
        0x7FFF_FFFF
    } else {
        nearest as i32
    }
}

/// The health left after a hit: lowered by the damage, and never below 0.
pub open spec fn hp_after_hit(hp: i32, damage: i32) -> i32 {
    if damage > 0 {
        if hp - damage > 0 {
            (hp - damage) as i32
        } else {
            0
        }
    } else {
        hp
    }
}

/// How far a turn has come: the health of both sides and the events so far.
pub struct TurnProgress {
    pub player_hp: i32,
    pub opponent_hp: i32,
    pub events: Seq<BattleEventView>,
}

/// The turn after `side` had its action, with a move of the given name and
/// damage. Where a side has already fainted nothing happens. Otherwise the
/// other side is hit, the move is recorded with the health left to the
/// target, and, where none is left, the target's fainting is recorded too.
pub open spec fn after_action(
    before: TurnProgress,
    side: Side,
    move_name: Seq<char>,
    damage: i32,
) -> TurnProgress {
    if before.player_hp <= 0 || before.opponent_hp <= 0 {
        before
    } else {
        let target_hp = hp_after_hit(
            match side {
                Side::Player => before.opponent_hp,
                Side::Opponent => before.player_hp,
            },
            damage,
        );
        let used = before.events.push(
            BattleEventView::MoveUsed { side, move_name, damage, target_hp },
        );
        let events = if target_hp <= 0 {
            used.push(BattleEventView::Fainted { side: side.spec_other() })
        } else {
            used
        };
        match side {
            Side::Player => TurnProgress {
                player_hp: before.player_hp,
                opponent_hp: target_hp,
                events,
            },
            Side::Opponent => TurnProgress {
                player_hp: target_hp,
                opponent_hp: before.opponent_hp,
                events,
            },
        }
    }
}

/// The side that acts first: the one with strictly greater speed, and the
/// player where the speeds are equal.
pub open spec fn first_to_act(state: BattleState) -> Side {
    if state.player.species.stats.speed >= state.opponent.species.stats.speed {
        Side::Player
    } else {
        Side::Opponent
    }
}

/// The damage that the move of `side` deals to the other side.
pub open spec fn damage_by(
    state: BattleState,
    side: Side,
    mv: Move,
    table: Map<(u32, u32), u32>,
) -> i32 {
    match side {
        Side::Player => damage_of(state.player.species, state.opponent.species, mv, table) as i32,
        Side::Opponent => damage_of(state.opponent.species, state.player.species, mv, table) as i32,
    }
}

/// The move that `side` chose.
pub open spec fn move_of(side: Side, player_move: Move, opponent_move: Move) -> Move {
    match side {
        Side::Player => player_move,
        Side::Opponent => opponent_move,
    }
}

/// A turn played to its end: the first side acts, then the other.
pub open spec fn after_turn(
    state: BattleState,
    player_move: Move,
    opponent_move: Move,
    table: Map<(u32, u32), u32>,
) -> TurnProgress {
    let first = first_to_act(state);
    let second = first.spec_other();
    let first_move = move_of(first, player_move, opponent_move);
    let second_move = move_of(second, player_move, opponent_move);
    let start = TurnProgress {
        player_hp: state.player.current_hp,
        opponent_hp: state.opponent.current_hp,
        events: Seq::empty(),
    };
    after_action(
        after_action(start, first, first_move.name@, damage_by(state, first, first_move, table)),
        second,
        second_move.name@,
        damage_by(state, second, second_move, table),
    )
}

/// The winner once a turn is played: the opponent where the player has
/// fainted, else the player where the opponent has, else nobody.
pub open spec fn outcome_of(progress: TurnProgress) -> Option<Side> {
    if progress.player_hp <= 0 {
        Some(Side::Opponent)
    } else if progress.opponent_hp <= 0 {
        Some(Side::Player)
    } else {
        None
    }
}

/// The battle after a turn: the health that the turn left, and the turn
/// counter one higher unless the turn ended the battle.
pub open spec fn state_after_turn(
    state: BattleState,
    player_move: Move,
    opponent_move: Move,
    table: Map<(u32, u32), u32>,
) -> BattleState {
    let progress = after_turn(state, player_move, opponent_move, table);
    BattleState {
        player: BattlePokemon { species: state.player.species, current_hp: progress.player_hp },
        opponent: BattlePokemon {
            species: state.opponent.species,
            current_hp: progress.opponent_hp,
        },
        turn: if outcome_of(progress) is None {
            (state.turn + 1) as u32
        } else {
            state.turn
        },
    }
}

/// The progress of a turn as a battle and its event log hold it.
pub open spec fn progress_of(state: BattleState, events: Seq<BattleEvent>) -> TurnProgress {
    TurnProgress {
        player_hp: state.player.current_hp,
        opponent_hp: state.opponent.current_hp,
        events: event_views(events),
    }
}

/// Lets `side` act with `mv`: nothing where the battle is over, else the
/// other side is hit and the events are appended to `events`.
fn perform_action(
    state: &mut BattleState,
    side: Side,
    mv: &Move,
    db: &Database,
    events: &mut Vec<BattleEvent>,
)
    requires
        old(state).player.species.types@.len() <= MAX_TYPES,
        old(state).opponent.species.types@.len() <= MAX_TYPES,
    ensures
        final(state).player.species == old(state).player.species,
        final(state).opponent.species == old(state).opponent.species,
        final(state).turn == old(state).turn,
        progress_of(*final(state), final(events)@) == after_action(
            progress_of(*old(state), old(events)@),
            side,
            mv.name@,
            damage_by(*old(state), side, *mv, db.type_advantage@),
        ),
{
    if state.is_over() {
        return ;
    }
    let damage: i32 = match side {
        Side::Player => calculate_damage(&state.player, &state.opponent, mv, db),
        Side::Opponent => calculate_damage(&state.opponent, &state.player, mv, db),
    };
    let before: i32 = match side {
        Side::Player => state.opponent.current_hp,
        Side::Opponent => state.player.current_hp,
    };
    let target_hp: i32 = if damage > 0 {
        if before - damage > 0 {
            before - damage
        } else {
            0
        }
    } else {
        before
    };
    match side {
        Side::Player => {
            state.opponent.current_hp = target_hp;
        },
        Side::Opponent => {
            state.player.current_hp = target_hp;
        },
    }
    let used = BattleEvent::MoveUsed { side, move_name: mv.name.clone(), damage, target_hp };
    proof {
        assert(event_views(events@.push(used)) =~= event_views(events@).push(used@));
    }
    events.push(used);
    if target_hp <= 0 {
        let fainted = BattleEvent::Fainted { side: side.other() };
        proof {
            assert(event_views(events@.push(fainted)) =~= event_views(events@).push(fainted@));
        }
        events.push(fainted);
    }
}

/// Plays one turn. The side with strictly greater speed acts first, the
/// player on equal speeds; a side whose opponent has fainted does not act.
/// Each action hits the other side and is recorded, with a fainting where it
/// takes the last health. The turn counter goes up by one unless the battle
/// is over after the turn, in which case the result names the winner.
pub fn simulate_turn(
    state: &mut BattleState,
    player_move: &Move,
    opponent_move: &Move,
    db: &Database,
) -> (result: TurnResult)
    requires
        old(state).player.species.types@.len() <= MAX_TYPES,
        old(state).opponent.species.types@.len() <= MAX_TYPES,
        old(state).turn < u32::MAX,
    ensures
        *final(state) == state_after_turn(
            *old(state),
            *player_move,
            *opponent_move,
            db.type_advantage@,
        ),
        event_views(result.events@) == after_turn(
            *old(state),
            *player_move,
            *opponent_move,
            db.type_advantage@,
        ).events,
        result.outcome == outcome_of(
            after_turn(*old(state), *player_move, *opponent_move, db.type_advantage@),
        ),
        final(state).player.current_hp <= old(state).player.current_hp,
        final(state).opponent.current_hp <= old(state).opponent.current_hp,
        result.outcome is None ==> !final(state).is_over() && final(state).turn == old(state).turn
            + 1,
        result.outcome is Some ==> final(state).is_over() && final(state).turn == old(state).turn,
        !old(state).is_over() ==> 1 <= result.events@.len() <= 3,
        old(state).well_formed() ==> final(state).well_formed(),
{
    let mut events: Vec<BattleEvent> = Vec::new();
    proof {
        assert(event_views(events@) =~= Seq::<BattleEventView>::empty());
    }
    if state.player.species.stats.speed >= state.opponent.species.stats.speed {
        perform_action(state, Side::Player, player_move, db, &mut events);
        perform_action(state, Side::Opponent, opponent_move, db, &mut events);
    } else {
        perform_action(state, Side::Opponent, opponent_move, db, &mut events);
        perform_action(state, Side::Player, player_move, db, &mut events);
    }
    let outcome = if state.player.is_fainted() {
        Some(Side::Opponent)
    } else if state.opponent.is_fainted() {
        Some(Side::Player)
    } else {
        None
    };
    if outcome.is_none() {
        state.turn += 1;
    }
    proof {
        assert(event_views(events@).len() == events@.len());
    }
    TurnResult { events, outcome }
}

} // verus!
