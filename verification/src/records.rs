use crate::models::Stats;
use vstd::prelude::*;
use vstd::string::StringExecFns;

verus! {

/// A record of the species table.
pub struct PokemonRow {
    pub id: u32,
    pub identifier: String,
    pub is_default: u8,
}

/// A record of the statistics table: one statistic of one species.
pub struct StatRow {
    pub pokemon_id: u32,
    pub stat_id: u32,
    pub base_stat: i32,
}

/// A record of the table of species types: the type in one slot of one
/// species.
pub struct TypeRow {
    pub pokemon_id: u32,
    pub type_id: u32,
    pub slot: u32,
}

/// A record of the moves table.
pub struct MoveRow {
    pub id: u32,
    pub identifier: String,
    pub type_id: u32,
    pub power: Option<i32>,
    pub accuracy: Option<i32>,
    pub priority: i32,
    pub damage_class_id: u32,
}

/// A record of the table of type names: the name of a type in a language.
pub struct TypeNameRow {
    pub type_id: u32,
    pub local_language_id: u32,
    pub name: String,
}

/// A record of the effectiveness table: the factor, in hundredths, of an
/// attacking type against a defending type.
pub struct TypeAdvantageRow {
    pub damage_type_id: u32,
    pub target_type_id: u32,
    pub damage_factor: u32,
}

/// The statistics that the table holds for a species: none where no record
/// is about it; otherwise all zero but for what its records set, a later
/// record for the same statistic replacing an earlier one.
pub open spec fn stats_of(rows: Seq<StatRow>, id: u32) -> Option<Stats>
    decreases rows.len(),
{
    if rows.len() == 0 {
        None
    } else {
        let before = stats_of(rows.drop_last(), id);
        let row = rows.last();
        if row.pokemon_id == id {
            Some(
                (match before {
                    Some(stats) => stats,
                    None => Stats::spec_empty(),
                }).spec_with_stat(row.stat_id, row.base_stat),
            )
        } else {
            before
        }
    }
}

/// The statistics that the table holds for a species.
pub fn stats_for(rows: &[StatRow], id: u32) -> (found: Option<Stats>)
    ensures
        found == stats_of(rows@, id),
{
    let mut found: Option<Stats> = None;
    let mut i: usize = 0;
    while i < rows.len()
        invariant
            i <= rows@.len(),
            found == stats_of(rows@.take(i as int), id),
        decreases rows@.len() - i,
    {
        proof {
            assert(rows@.take(i + 1).drop_last() =~= rows@.take(i as int));
        }
        if rows[i].pokemon_id == id {
            let before = match found {
                Some(stats) => stats,
                None => Stats::empty(),
            };
            found = Some(before.with_stat(rows[i].stat_id, rows[i].base_stat));
        }
        i += 1;
    }
    proof {
        assert(rows@.take(i as int) =~= rows@);
    }
    found
}

/// A list of slots and types, ordered by slot, with one more entry: it
/// stands behind every entry whose slot is not greater than its own.
pub open spec fn insert_by_slot(sorted: Seq<(u32, u32)>, entry: (u32, u32)) -> Seq<(u32, u32)>
    decreases sorted.len(),
{
    if sorted.len() == 0 {
        seq![entry]
    } else if sorted.last().0 <= entry.0 {
        sorted.push(entry)
    } else {
        insert_by_slot(sorted.drop_last(), entry).push(sorted.last())
    }
}

/// The slots and types that the table holds for a species, ordered by
/// slot; entries with the same slot stand in the order of their records.
pub open spec fn slots_of(rows: Seq<TypeRow>, id: u32) -> Seq<(u32, u32)>
    decreases rows.len(),
{
    if rows.len() == 0 {
        Seq::empty()
    } else {
        let before = slots_of(rows.drop_last(), id);
        let row = rows.last();
        if row.pokemon_id == id {
            insert_by_slot(before, (row.slot, row.type_id))
        } else {
            before
        }
    }
}

/// The types that the table holds for a species, ordered by slot.
pub open spec fn types_of(rows: Seq<TypeRow>, id: u32) -> Seq<u32> {
    slots_of(rows, id).map_values(|entry: (u32, u32)| entry.1)
}

/// Inserting by slot puts the entry at the place behind which every slot
/// is greater and before which the nearest slot is not.
pub proof fn lemma_insert_by_slot_at(sorted: Seq<(u32, u32)>, entry: (u32, u32), place: int)
    requires
        0 <= place <= sorted.len(),
        forall|j: int| place <= j < sorted.len() ==> sorted[j].0 > entry.0,
        place > 0 ==> sorted[place - 1].0 <= entry.0,
    ensures
        insert_by_slot(sorted, entry) == sorted.insert(place, entry),
    decreases sorted.len(),
{
    if sorted.len() == 0 {
        assert(sorted.insert(place, entry) =~= seq![entry]);
    } else if place == sorted.len() {
        assert(sorted.insert(place, entry) =~= sorted.push(entry));
    } else {
        lemma_insert_by_slot_at(sorted.drop_last(), entry, place);
        assert(sorted.insert(place, entry) =~= sorted.drop_last().insert(place, entry).push(
            sorted.last(),
        ));
    }
}

/// Whether the entries stand in the order of their slots.
pub open spec fn is_ordered_by_slot(entries: Seq<(u32, u32)>) -> bool {
    forall|i: int, j: int| 0 <= i < j < entries.len() ==> entries[i].0 <= entries[j].0
}

/// Inserting by slot into an ordered list adds the entry at some place and
/// leaves the list ordered.
pub proof fn lemma_insert_by_slot_keeps_order(sorted: Seq<(u32, u32)>, entry: (u32, u32)) -> (place:
    int)
    requires
        is_ordered_by_slot(sorted),
    ensures
        0 <= place <= sorted.len(),
        insert_by_slot(sorted, entry) == sorted.insert(place, entry),
        is_ordered_by_slot(insert_by_slot(sorted, entry)),
    decreases sorted.len(),
{
    if sorted.len() == 0 {
        assert(sorted.insert(0, entry) =~= seq![entry]);
        0
    } else if sorted.last().0 <= entry.0 {
        assert(sorted.insert(sorted.len() as int, entry) =~= sorted.push(entry));
        sorted.len() as int
    } else {
        let place = lemma_insert_by_slot_keeps_order(sorted.drop_last(), entry);
        assert(sorted.insert(place, entry) =~= sorted.drop_last().insert(place, entry).push(
            sorted.last(),
        ));
        place
    }
}

/// The slots and types that the table holds for a species stand in the
/// order of their slots.
pub proof fn lemma_slots_are_ordered(rows: Seq<TypeRow>, id: u32)
    ensures
        is_ordered_by_slot(slots_of(rows, id)),
    decreases rows.len(),
{
    if rows.len() > 0 {
        lemma_slots_are_ordered(rows.drop_last(), id);
        if rows.last().pokemon_id == id {
            lemma_insert_by_slot_keeps_order(
                slots_of(rows.drop_last(), id),
                (rows.last().slot, rows.last().type_id),
            );
        }
    }
}

/// The slots and types that the table holds for a species, ordered by slot.
pub fn slots_for(rows: &[TypeRow], id: u32) -> (found: Vec<(u32, u32)>)
    ensures
        found@ == slots_of(rows@, id),
{
    let mut found: Vec<(u32, u32)> = Vec::new();
    let mut i: usize = 0;
    while i < rows.len()
        invariant
            i <= rows@.len(),
            found@ == slots_of(rows@.take(i as int), id),
        decreases rows@.len() - i,
    {
        proof {
            assert(rows@.take(i + 1).drop_last() =~= rows@.take(i as int));
        }
        if rows[i].pokemon_id == id {
            let slot: u32 = rows[i].slot;
            let mut place: usize = found.len();
            while place > 0 && found[place - 1].0 > slot
                invariant
                    place <= found@.len(),
                    forall|j: int| place <= j < found@.len() ==> found@[j].0 > slot,
                decreases place,
            {
                place -= 1;
            }
            proof {
                lemma_insert_by_slot_at(found@, (slot, rows[i as int].type_id), place as int);
            }
            found.insert(place, (slot, rows[i].type_id));
        }
        i += 1;
    }
    proof {
        assert(rows@.take(i as int) =~= rows@);
    }
    found
}

/// The types that the table holds for a species, ordered by slot; none
/// where no record is about the species.
pub fn types_for(rows: &[TypeRow], id: u32) -> (found: Option<Vec<u32>>)
    ensures
        found is Some <==> slots_of(rows@, id).len() > 0,
        found is Some ==> found.unwrap()@ == types_of(rows@, id),
{
    let slots = slots_for(rows, id);
    if slots.len() == 0 {
        return None;
    }
    let mut types: Vec<u32> = Vec::new();
    let mut i: usize = 0;
    while i < slots.len()
        invariant
            i <= slots@.len(),
            types@ == slots@.take(i as int).map_values(|entry: (u32, u32)| entry.1),
        decreases slots@.len() - i,
    {
        proof {
            assert(slots@.take(i + 1).map_values(|entry: (u32, u32)| entry.1) =~= slots@.take(
                i as int,
            ).map_values(|entry: (u32, u32)| entry.1).push(slots@[i as int].1));
        }
        types.push(slots[i].1);
        i += 1;
    }
    proof {
        assert(slots@.take(i as int) =~= slots@);
    }
    Some(types)
}

/// The decimal digit for a value below ten.
pub open spec fn digit_of(value: nat) -> char {
    if value == 0 {
        '0'
    } else if value == 1 {
        '1'
    } else if value == 2 {
        '2'
    } else if value == 3 {
        '3'
    } else if value == 4 {
        '4'
    } else if value == 5 {
        '5'
    } else if value == 6 {
        '6'
    } else if value == 7 {
        '7'
    } else if value == 8 {
        '8'
    } else {
        '9'
    }
}

/// A number written in decimal digits, without leading zeros.
pub open spec fn decimal_of(value: nat) -> Seq<char>
    decreases value,
{
    if value < 10 {
        seq![digit_of(value)]
    } else {
        decimal_of(value / 10).push(digit_of(value % 10))
    }
}

fn digit(value: u32) -> (text: &'static str)
    requires
        value < 10,
    ensures
        text@ == seq![digit_of(value as nat)],
{
    proof {
        reveal_strlit("0");
        reveal_strlit("1");
        reveal_strlit("2");
        reveal_strlit("3");
        reveal_strlit("4");
        reveal_strlit("5");
        reveal_strlit("6");
        reveal_strlit("7");
        reveal_strlit("8");
        reveal_strlit("9");
    }
    let text = if value == 0 {
        "0"
    } else if value == 1 {
        "1"
    } else if value == 2 {
        "2"
    } else if value == 3 {
        "3"
    } else if value == 4 {
        "4"
    } else if value == 5 {
        "5"
    } else if value == 6 {
        "6"
    } else if value == 7 {
        "7"
    } else if value == 8 {
        "8"
    } else {
        "9"
    };
    assert(text@ =~= seq![digit_of(value as nat)]);
    text
}

/// The number written in decimal digits.
pub fn decimal(value: u32) -> (text: String)
    ensures
        text@ == decimal_of(value as nat),
    decreases value,
{
    if value < 10 {
        String::from_str(digit(value))
    } else {
        let text = decimal(value / 10).concat(digit(value % 10));
        proof {
            assert(text@ =~= decimal_of(value as nat / 10).push(digit_of(value as nat % 10)));
        }
        text
    }
}

/// An entry of the list of moves of the first generation: `name` is the
/// name for display, `identifier` the one that is normalized and stored.
pub struct MoveEntry {
    pub id: u32,
    pub name: String,
    pub identifier: String,
    pub type_id: u32,
    pub power: Option<i32>,
    pub accuracy: Option<i32>,
    pub priority: i32,
    pub damage_class_id: u32,
}

/// An entry of the list of species of the first generation: `name` is the
/// name for display, `identifier` the one that is normalized and stored.
pub struct PokemonEntry {
    pub id: u32,
    pub name: String,
    pub identifier: String,
    pub types: Vec<u32>,
    pub stats: Stats,
}

} // verus!
