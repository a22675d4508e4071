use crate::chart::TypeChart;
use crate::error::SimulatorError;
use crate::models::{Database, Move, MoveView, PokemonSpecies, SpeciesView};
use crate::learnsets::{
    csv_records, field_texts, learnset_for, learnset_of, learnset_records, numbers_of_records,
    read_learnsets, record_texts, record_views,
};
use crate::records::{
    decimal, decimal_of, slots_of, stats_for, stats_of, types_for, types_of, MoveEntry, MoveRow,
    PokemonEntry, PokemonRow, StatRow, TypeAdvantageRow, TypeNameRow, TypeRow,
};
use std::collections::HashMap;
use vstd::hash_map::StringHashMap;
use vstd::prelude::*;
use vstd::string::StringExecFns;

verus! {

broadcast use vstd::std_specs::hash::group_hash_axioms;

/// Whether a character has Unicode's White_Space property.
pub open spec fn is_whitespace(c: char) -> bool {
    let code = c as u32;
    ||| 0x09 <= code <= 0x0D
    ||| code == 0x20
    ||| code == 0x85
    ||| code == 0xA0
    ||| code == 0x1680
    ||| 0x2000 <= code <= 0x200A
    ||| code == 0x2028
    ||| code == 0x2029
    ||| code == 0x202F
    ||| code == 0x205F
    ||| code == 0x3000
}

/// A text without the whitespace it begins with.
pub open spec fn trim_start(text: Seq<char>) -> Seq<char>
    decreases text.len(),
{
    if text.len() > 0 && is_whitespace(text[0]) {
        trim_start(text.drop_first())
    } else {
        text
    }
}

/// A text without the whitespace it ends with.
pub open spec fn trim_end(text: Seq<char>) -> Seq<char>
    decreases text.len(),
{
    if text.len() > 0 && is_whitespace(text.last()) {
        trim_end(text.drop_last())
    } else {
        text
    }
}

/// A text without the whitespace around it.
pub open spec fn trimmed(text: Seq<char>) -> Seq<char> {
    trim_end(trim_start(text))
}

/// The words of a text, joined by single hyphens: every run of whitespace
/// between two words becomes one hyphen, and whitespace before the first
/// word or after the last one is dropped.
pub open spec fn hyphenated(text: Seq<char>) -> Seq<char>
    decreases text.len(),
{
    if text.len() == 0 {
        Seq::empty()
    } else {
        let before = hyphenated(text.drop_last());
        if is_whitespace(text.last()) {
            before
        } else if before.len() > 0 && is_whitespace(text[text.len() - 2]) {
            before.push('-').push(text.last())
        } else {
            before.push(text.last())
        }
    }
}

/// Whether a character is one of ASCII.
pub open spec fn is_ascii_char(c: char) -> bool {
    c as u32 <= 0x7F
}

/// Whether a character is one of the ASCII capital letters `A` to `Z`.
pub open spec fn is_ascii_uppercase(c: char) -> bool {
    0x41 <= c as u32 <= 0x5A
}

/// Whether every character of a text is one of ASCII.
pub open spec fn is_ascii_text(text: Seq<char>) -> bool {
    forall|i: int| 0 <= i < text.len() ==> is_ascii_char(#[trigger] text[i])
}

/// A character with `A` to `Z` mapped to `a` to `z`.
pub open spec fn ascii_lower(c: char) -> char {
    if is_ascii_uppercase(c) {
        ((c as u32 + 0x20) as u8) as char
    } else {
        c
    }
}

/// A text with `A` to `Z` mapped to `a` to `z`, character by character.
pub open spec fn ascii_lowercase(text: Seq<char>) -> Seq<char> {
    text.map_values(|c: char| ascii_lower(c))
}

/// The lowercase form that `str::to_lowercase` of the standard library
/// gives a text that is not all ASCII.
pub uninterp spec fn unicode_lowercase_of(text: Seq<char>) -> Seq<char>;

/// The lowercase form of a text: for a text of ASCII the letters `A` to `Z`
/// become `a` to `z` and nothing else changes; any other text has the
/// lowercase form that the standard library gives it.
pub open spec fn lowercase_of(text: Seq<char>) -> Seq<char> {
    if is_ascii_text(text) {
        ascii_lowercase(text)
    } else {
        unicode_lowercase_of(text)
    }
}

/// The normalized form of a name: trimmed, in lowercase, its words joined
/// by hyphens.
pub open spec fn normalized(text: Seq<char>) -> Seq<char> {
    hyphenated(lowercase_of(trimmed(text)))
}

/// Calls `str::to_lowercase` of the standard library. Of a text that is
/// not all ASCII the contract only names the result, which depends on
/// nothing but the text. Of a text of ASCII it states what the library
/// documents of lowercasing ASCII characters: `A` to `Z` are mapped to `a`
/// to `z`, and characters without case are not changed.
#[verifier::external_body]
fn to_lowercase(text: &str) -> (lowered: String)
    ensures
        lowered@ == lowercase_of(text@),
        is_ascii_text(text@) ==> lowered@ == ascii_lowercase(text@),
        !is_ascii_text(text@) ==> lowered@ == unicode_lowercase_of(text@),
{
    text.to_lowercase()
}

/// Whether a character has Unicode's White_Space property.
pub fn is_whitespace_char(c: char) -> (whitespace: bool)
    ensures
        whitespace == is_whitespace(c),
{
    let code: u32 = c as u32;
    (0x09 <= code && code <= 0x0D) || code == 0x20 || code == 0x85 || code == 0xA0 || code
        == 0x1680 || (0x2000 <= code && code <= 0x200A) || code == 0x2028 || code == 0x2029 || code
        == 0x202F || code == 0x205F || code == 0x3000
}

/// The text without the whitespace around it.
pub fn trim(text: &str) -> (inner: &str)
    ensures
        inner@ == trimmed(text@),
{
    let n: usize = text.unicode_len();
    let mut start: usize = 0;
    proof {
        assert(text@.subrange(0, n as int) =~= text@);
    }
    while start < n && is_whitespace_char(text.get_char(start))
        invariant
            start <= n == text@.len(),
            trim_start(text@) == trim_start(text@.subrange(start as int, n as int)),
        decreases n - start,
    {
        proof {
            assert(text@.subrange(start as int, n as int).drop_first() =~= text@.subrange(
                start + 1,
                n as int,
            ));
        }
        start += 1;
    }
    let mut end: usize = n;
    while end > start && is_whitespace_char(text.get_char(end - 1))
        invariant
            start <= end <= n == text@.len(),
            trim_end(text@.subrange(start as int, n as int)) == trim_end(
                text@.subrange(start as int, end as int),
            ),
        decreases end - start,
    {
        proof {
            assert(text@.subrange(start as int, end as int).drop_last() =~= text@.subrange(
                start as int,
                end - 1,
            ));
        }
        end -= 1;
    }
    text.substring_char(start, end)
}

/// The words of the text, joined by single hyphens.
pub fn hyphenate(text: &str) -> (joined: String)
    ensures
        joined@ == hyphenated(text@),
{
    let n: usize = text.unicode_len();
    let mut joined = String::new();
    let mut started = false;
    let mut gap = false;
    let mut i: usize = 0;
    while i < n
        invariant
            i <= n == text@.len(),
            joined@ == hyphenated(text@.take(i as int)),
            started == (joined@.len() > 0),
            gap == (i > 0 && is_whitespace(text@[i - 1])),
        decreases n - i,
    {
        let c = text.get_char(i);
        let whitespace = is_whitespace_char(c);
        proof {
            let next = text@.take(i + 1);
            assert(next.drop_last() =~= text@.take(i as int));
            assert(next.last() == c);
            reveal_strlit("-");
            assert("-"@ =~= seq!['-']);
            assert(text@.subrange(i as int, i + 1) =~= seq![c]);
        }
        if !whitespace {
            if started && gap {
                joined.append("-");
            }
            joined.append(text.substring_char(i, i + 1));
            started = true;
            proof {
                let before = hyphenated(text@.take(i as int));
                assert(before + seq!['-'] + seq![c] =~= before.push('-').push(c));
                assert(before + seq![c] =~= before.push(c));
            }
        }
        gap = whitespace;
        i += 1;
    }
    proof {
        assert(text@.take(n as int) =~= text@);
    }
    joined
}

/// The normalized form of a name, under which the reference data stores
/// it: the name without the whitespace around it, in lowercase, with every
/// run of whitespace between two words replaced by one hyphen.
pub fn normalize_name(input: &str) -> (name: String)
    ensures
        name@ == normalized(input@),
{
    let lowered = to_lowercase(trim(input));
    hyphenate(lowered.as_str())
}

/// The language whose type names the reference data keeps.
pub const NAME_LANGUAGE: u32 = 9;

/// The type names that the table gives: of each type the name in the kept
/// language, a later record replacing an earlier one.
pub open spec fn type_names_of(rows: Seq<TypeNameRow>) -> Map<u32, String>
    decreases rows.len(),
{
    if rows.len() == 0 {
        Map::empty()
    } else {
        let before = type_names_of(rows.drop_last());
        let row = rows.last();
        if row.local_language_id == NAME_LANGUAGE {
            before.insert(row.type_id, row.name)
        } else {
            before
        }
    }
}

/// The effectiveness chart that the table gives, a later record for a
/// pairing replacing an earlier one.
pub open spec fn chart_of(rows: Seq<TypeAdvantageRow>) -> Map<(u32, u32), u32>
    decreases rows.len(),
{
    if rows.len() == 0 {
        Map::empty()
    } else {
        let row = rows.last();
        chart_of(rows.drop_last()).insert((row.damage_type_id, row.target_type_id), row.damage_factor)
    }
}

/// Whether a record of the species table stands for a species of the
/// reference data: only the default forms do.
pub open spec fn is_listed(row: PokemonRow) -> bool {
    row.is_default == 1
}

/// Whether nothing is missing for a record of the species table: it is not
/// listed, or the tables hold statistics and types for it.
pub open spec fn is_complete(row: PokemonRow, stat_rows: Seq<StatRow>, type_rows: Seq<TypeRow>) -> bool {
    is_listed(row) ==> stats_of(stat_rows, row.id) is Some && slots_of(type_rows, row.id).len() > 0
}

/// The species that a complete, listed record stands for.
pub open spec fn species_from(
    row: PokemonRow,
    stat_rows: Seq<StatRow>,
    type_rows: Seq<TypeRow>,
) -> SpeciesView {
    SpeciesView {
        id: row.id,
        name: normalized(row.identifier@),
        stats: stats_of(stat_rows, row.id).unwrap(),
        types: types_of(type_rows, row.id),
        learnset: Seq::empty(),
    }
}

/// The species of the listed records, each under its normalized name, a
/// later record replacing an earlier one of the same name.
pub open spec fn species_table(
    rows: Seq<PokemonRow>,
    stat_rows: Seq<StatRow>,
    type_rows: Seq<TypeRow>,
) -> Map<Seq<char>, SpeciesView>
    decreases rows.len(),
{
    if rows.len() == 0 {
        Map::empty()
    } else {
        let before = species_table(rows.drop_last(), stat_rows, type_rows);
        let row = rows.last();
        if is_listed(row) {
            before.insert(normalized(row.identifier@), species_from(row, stat_rows, type_rows))
        } else {
            before
        }
    }
}

/// The place of the first record of the species table for which something
/// is missing, if there is one.
pub open spec fn first_incomplete(
    rows: Seq<PokemonRow>,
    stat_rows: Seq<StatRow>,
    type_rows: Seq<TypeRow>,
) -> Option<int>
    decreases rows.len(),
{
    if rows.len() == 0 {
        None
    } else {
        match first_incomplete(rows.drop_last(), stat_rows, type_rows) {
            Some(place) => Some(place),
            None => if is_complete(rows.last(), stat_rows, type_rows) {
                None
            } else {
                Some(rows.len() - 1)
            },
        }
    }
}

/// What is reported as missing for an incomplete record: its statistics,
/// or else its types.
pub open spec fn missing_detail(row: PokemonRow, stat_rows: Seq<StatRow>) -> Seq<char> {
    if stats_of(stat_rows, row.id) is None {
        "stats for pokemon "@ + decimal_of(row.id as nat)
    } else {
        "types for pokemon "@ + decimal_of(row.id as nat)
    }
}

/// The move that a record of the moves table stands for.
pub open spec fn move_from(row: MoveRow) -> MoveView {
    MoveView {
        id: row.id,
        name: normalized(row.identifier@),
        type_id: row.type_id,
        power: row.power,
        accuracy: row.accuracy,
        priority: row.priority,
        damage_class_id: row.damage_class_id,
    }
}

/// The moves of the table, each under its normalized name, a later record
/// replacing an earlier one of the same name.
pub open spec fn move_table(rows: Seq<MoveRow>) -> Map<Seq<char>, MoveView>
    decreases rows.len(),
{
    if rows.len() == 0 {
        Map::empty()
    } else {
        move_table(rows.drop_last()).insert(
            normalized(rows.last().identifier@),
            move_from(rows.last()),
        )
    }
}

/// The first incomplete record of a beginning of the table is the first
/// incomplete record of the whole table.
pub proof fn lemma_first_incomplete_extends(
    rows: Seq<PokemonRow>,
    stat_rows: Seq<StatRow>,
    type_rows: Seq<TypeRow>,
    length: int,
)
    requires
        0 <= length <= rows.len(),
        first_incomplete(rows.take(length), stat_rows, type_rows) is Some,
    ensures
        first_incomplete(rows, stat_rows, type_rows) == first_incomplete(
            rows.take(length),
            stat_rows,
            type_rows,
        ),
    decreases rows.len(),
{
    if length == rows.len() {
        assert(rows.take(length) =~= rows);
    } else {
        assert(rows.drop_last().take(length) =~= rows.take(length));
        lemma_first_incomplete_extends(rows.drop_last(), stat_rows, type_rows, length);
    }
}

/// The type names that the table gives.
pub fn build_type_names(rows: &[TypeNameRow]) -> (names: HashMap<u32, String>)
    ensures
        names@ == type_names_of(rows@),
{
    let mut names: HashMap<u32, String> = HashMap::new();
    let mut i: usize = 0;
    while i < rows.len()
        invariant
            i <= rows@.len(),
            names@ == type_names_of(rows@.take(i as int)),
        decreases rows@.len() - i,
    {
        proof {
            assert(rows@.take(i + 1).drop_last() =~= rows@.take(i as int));
        }
        if rows[i].local_language_id == NAME_LANGUAGE {
            names.insert(rows[i].type_id, rows[i].name.clone());
        }
        i += 1;
    }
    proof {
        assert(rows@.take(i as int) =~= rows@);
    }
    names
}

/// The effectiveness chart that the table gives.
pub fn build_chart(rows: &[TypeAdvantageRow]) -> (chart: TypeChart)
    ensures
        chart@ == chart_of(rows@),
{
    let mut chart = TypeChart::new();
    let mut i: usize = 0;
    while i < rows.len()
        invariant
            i <= rows@.len(),
            chart@ == chart_of(rows@.take(i as int)),
        decreases rows@.len() - i,
    {
        proof {
            assert(rows@.take(i + 1).drop_last() =~= rows@.take(i as int));
        }
        chart.insert(rows[i].damage_type_id, rows[i].target_type_id, rows[i].damage_factor);
        i += 1;
    }
    proof {
        assert(rows@.take(i as int) =~= rows@);
    }
    chart
}

/// The species of the listed records by normalized name, or the
/// missing-data error for the first record that lacks statistics or types.
pub fn build_species(pokemon_rows: &[PokemonRow], stat_rows: &[StatRow], type_rows: &[TypeRow]) -> (built:
    Result<StringHashMap<PokemonSpecies>, SimulatorError>)
    ensures
        match first_incomplete(pokemon_rows@, stat_rows@, type_rows@) {
            Some(place) => built is Err && built->Err_0 is MissingData
                && built->Err_0->MissingData_0@ == missing_detail(
                pokemon_rows@[place],
                stat_rows@,
            ),
            None => built is Ok && built->Ok_0@.map_values(|species: PokemonSpecies| species@)
                == species_table(pokemon_rows@, stat_rows@, type_rows@),
        },
{
    let mut species: StringHashMap<PokemonSpecies> = StringHashMap::new();
    let mut i: usize = 0;
    proof {
        assert(species@.map_values(|species: PokemonSpecies| species@) =~= species_table(
            pokemon_rows@.take(0),
            stat_rows@,
            type_rows@,
        ));
    }
    while i < pokemon_rows.len()
        invariant
            i <= pokemon_rows@.len(),
            first_incomplete(pokemon_rows@.take(i as int), stat_rows@, type_rows@) is None,
            species@.map_values(|species: PokemonSpecies| species@) == species_table(
                pokemon_rows@.take(i as int),
                stat_rows@,
                type_rows@,
            ),
        decreases pokemon_rows@.len() - i,
    {
        proof {
            assert(pokemon_rows@.take(i + 1).drop_last() =~= pokemon_rows@.take(i as int));
        }
        let row = &pokemon_rows[i];
        if row.is_default == 1 {
            let stats = match stats_for(stat_rows, row.id) {
                Some(stats) => stats,
                None => {
                    proof {
                        lemma_first_incomplete_extends(
                            pokemon_rows@,
                            stat_rows@,
                            type_rows@,
                            i + 1,
                        );
                    }
                    return Err(
                        SimulatorError::MissingData(
                            String::from_str("stats for pokemon ").concat(decimal(row.id).as_str()),
                        ),
                    );
                },
            };
            let types = match types_for(type_rows, row.id) {
                Some(types) => types,
                None => {
                    proof {
                        lemma_first_incomplete_extends(
                            pokemon_rows@,
                            stat_rows@,
                            type_rows@,
                            i + 1,
                        );
                    }
                    return Err(
                        SimulatorError::MissingData(
                            String::from_str("types for pokemon ").concat(decimal(row.id).as_str()),
                        ),
                    );
                },
            };
            let name = normalize_name(row.identifier.as_str());
            let entry = PokemonSpecies {
                id: row.id,
                name: name.clone(),
                stats,
                types,
                learnset: Vec::new(),
            };
            proof {
                assert(entry@ == species_from(*row, stat_rows@, type_rows@));
                assert(species@.insert(name@, entry).map_values(|species: PokemonSpecies| species@)
                    =~= species@.map_values(|species: PokemonSpecies| species@).insert(
                    name@,
                    entry@,
                ));
            }
            species.insert(name, entry);
        }
        i += 1;
    }
    proof {
        assert(pokemon_rows@.take(i as int) =~= pokemon_rows@);
    }
    Ok(species)
}

/// The moves of the table by normalized name.
pub fn build_moves(rows: &[MoveRow]) -> (moves: StringHashMap<Move>)
    ensures
        moves@.map_values(|mv: Move| mv@) == move_table(rows@),
{
    let mut moves: StringHashMap<Move> = StringHashMap::new();
    let mut i: usize = 0;
    proof {
        assert(moves@.map_values(|mv: Move| mv@) =~= move_table(rows@.take(0)));
    }
    while i < rows.len()
        invariant
            i <= rows@.len(),
            moves@.map_values(|mv: Move| mv@) == move_table(rows@.take(i as int)),
        decreases rows@.len() - i,
    {
        proof {
            assert(rows@.take(i + 1).drop_last() =~= rows@.take(i as int));
        }
        let row = &rows[i];
        let name = normalize_name(row.identifier.as_str());
        let entry = Move {
            id: row.id,
            name: name.clone(),
            type_id: row.type_id,
            power: row.power,
            accuracy: row.accuracy,
            priority: row.priority,
            damage_class_id: row.damage_class_id,
        };
        proof {
            assert(entry@ == move_from(*row));
            assert(moves@.insert(name@, entry).map_values(|mv: Move| mv@) =~= moves@.map_values(
                |mv: Move| mv@,
            ).insert(name@, entry@));
        }
        moves.insert(name, entry);
        i += 1;
    }
    proof {
        assert(rows@.take(i as int) =~= rows@);
    }
    moves
}

/// Builds the reference data from the records of its six tables. Species
/// come from the listed records of the species table, each with the
/// statistics and types that the other tables hold for it and under its
/// normalized name; moves come under their normalized names; type names are
/// kept in one language; the chart holds every factor of the effectiveness
/// table. Where a listed species lacks statistics or types, the first such
/// record is reported as missing data.
pub fn load_database(
    pokemon_rows: &[PokemonRow],
    stat_rows: &[StatRow],
    type_rows: &[TypeRow],
    move_rows: &[MoveRow],
    type_name_rows: &[TypeNameRow],
    type_advantage_rows: &[TypeAdvantageRow],
) -> (loaded: Result<Database, SimulatorError>)
    ensures
        match first_incomplete(pokemon_rows@, stat_rows@, type_rows@) {
            Some(place) => loaded is Err && loaded->Err_0 is MissingData
                && loaded->Err_0->MissingData_0@ == missing_detail(
                pokemon_rows@[place],
                stat_rows@,
            ),
            None => {
                &&& loaded is Ok
                &&& loaded->Ok_0.species_views() == species_table(
                    pokemon_rows@,
                    stat_rows@,
                    type_rows@,
                )
                &&& loaded->Ok_0.move_views() == move_table(move_rows@)
                &&& loaded->Ok_0.type_names@ == type_names_of(type_name_rows@)
                &&& loaded->Ok_0.type_advantage@ == chart_of(type_advantage_rows@)
            },
        },
{
    let type_names = build_type_names(type_name_rows);
    let type_advantage = build_chart(type_advantage_rows);
    let pokemon = match build_species(pokemon_rows, stat_rows, type_rows) {
        Ok(pokemon) => pokemon,
        Err(error) => {
            return Err(error);
        },
    };
    let moves = build_moves(move_rows);
    Ok(Database { pokemon, moves, type_names, type_advantage })
}

/// The species that an entry of the first generation stands for: named by
/// its normalized identifier, with the learnset that the records give it.
/// The display name of the entry is not kept.
pub open spec fn gen1_species_from(
    entry: PokemonEntry,
    learnsets: Seq<Seq<Option<u32>>>,
) -> SpeciesView {
    SpeciesView {
        id: entry.id,
        name: normalized(entry.identifier@),
        stats: entry.stats,
        types: entry.types@,
        learnset: learnset_of(learnsets, entry.id),
    }
}

/// The species of the first generation, each under its normalized name, a
/// later entry replacing an earlier one of the same name.
pub open spec fn gen1_species_table(
    entries: Seq<PokemonEntry>,
    learnsets: Seq<Seq<Option<u32>>>,
) -> Map<Seq<char>, SpeciesView>
    decreases entries.len(),
{
    if entries.len() == 0 {
        Map::empty()
    } else {
        gen1_species_table(entries.drop_last(), learnsets).insert(
            normalized(entries.last().identifier@),
            gen1_species_from(entries.last(), learnsets),
        )
    }
}

/// The move that an entry of the first generation stands for, named by
/// its normalized identifier. The display name of the entry is not kept.
pub open spec fn gen1_move_from(entry: MoveEntry) -> MoveView {
    MoveView {
        id: entry.id,
        name: normalized(entry.identifier@),
        type_id: entry.type_id,
        power: entry.power,
        accuracy: entry.accuracy,
        priority: entry.priority,
        damage_class_id: entry.damage_class_id,
    }
}

/// The moves of the first generation, each under its normalized name, a
/// later entry replacing an earlier one of the same name.
pub open spec fn gen1_move_table(entries: Seq<MoveEntry>) -> Map<Seq<char>, MoveView>
    decreases entries.len(),
{
    if entries.len() == 0 {
        Map::empty()
    } else {
        gen1_move_table(entries.drop_last()).insert(
            normalized(entries.last().identifier@),
            gen1_move_from(entries.last()),
        )
    }
}

/// The species of the first generation by normalized name, each with the
/// learnset that the records, read as numbers, give it.
pub fn build_gen1_species(entries: &[PokemonEntry], learnsets: &[Vec<Option<u32>>]) -> (species:
    StringHashMap<PokemonSpecies>)
    ensures
        species@.map_values(|species: PokemonSpecies| species@) == gen1_species_table(
            entries@,
            record_views(learnsets@),
        ),
{
    let mut species: StringHashMap<PokemonSpecies> = StringHashMap::new();
    let mut i: usize = 0;
    proof {
        assert(species@.map_values(|species: PokemonSpecies| species@) =~= gen1_species_table(
            entries@.take(0),
            record_views(learnsets@),
        ));
    }
    while i < entries.len()
        invariant
            i <= entries@.len(),
            species@.map_values(|species: PokemonSpecies| species@) == gen1_species_table(
                entries@.take(i as int),
                record_views(learnsets@),
            ),
        decreases entries@.len() - i,
    {
        proof {
            assert(entries@.take(i + 1).drop_last() =~= entries@.take(i as int));
        }
        let entry = &entries[i];
        let key = normalize_name(entry.identifier.as_str());
        let value = PokemonSpecies {
            id: entry.id,
            name: key.clone(),
            stats: entry.stats,
            types: entry.types.clone(),
            learnset: learnset_for(learnsets, entry.id),
        };
        proof {
            assert(value@ == gen1_species_from(*entry, record_views(learnsets@)));
            assert(species@.insert(key@, value).map_values(|species: PokemonSpecies| species@)
                =~= species@.map_values(|species: PokemonSpecies| species@).insert(key@, value@));
        }
        species.insert(key, value);
        i += 1;
    }
    proof {
        assert(entries@.take(i as int) =~= entries@);
    }
    species
}

/// The moves of the first generation by normalized name.
pub fn build_gen1_moves(entries: &[MoveEntry]) -> (moves: StringHashMap<Move>)
    ensures
        moves@.map_values(|mv: Move| mv@) == gen1_move_table(entries@),
{
    let mut moves: StringHashMap<Move> = StringHashMap::new();
    let mut i: usize = 0;
    proof {
        assert(moves@.map_values(|mv: Move| mv@) =~= gen1_move_table(entries@.take(0)));
    }
    while i < entries.len()
        invariant
            i <= entries@.len(),
            moves@.map_values(|mv: Move| mv@) == gen1_move_table(entries@.take(i as int)),
        decreases entries@.len() - i,
    {
        proof {
            assert(entries@.take(i + 1).drop_last() =~= entries@.take(i as int));
        }
        let entry = &entries[i];
        let key = normalize_name(entry.identifier.as_str());
        let value = Move {
            id: entry.id,
            name: key.clone(),
            type_id: entry.type_id,
            power: entry.power,
            accuracy: entry.accuracy,
            priority: entry.priority,
            damage_class_id: entry.damage_class_id,
        };
        proof {
            assert(value@ == gen1_move_from(*entry));
            assert(moves@.insert(key@, value).map_values(|mv: Move| mv@) =~= moves@.map_values(
                |mv: Move| mv@,
            ).insert(key@, value@));
        }
        moves.insert(key, value);
        i += 1;
    }
    proof {
        assert(entries@.take(i as int) =~= entries@);
    }
    moves
}

/// Builds the reference data of the first generation from its type names,
/// its lists of moves and species and the records of its learnsets. Moves
/// and species come under their normalized identifiers, which are also the
/// names they carry, each species with the move ids of the last learnset
/// record about it: a record is about the species
/// whose id its first field holds, and its other fields hold move ids, of
/// which those that are empty or no number are passed over. The chart
/// stays empty, so every pairing is neutral.
pub fn gen1_database(
    type_names: HashMap<u32, String>,
    moves: &[MoveEntry],
    pokemon: &[PokemonEntry],
    learnsets: &[Vec<String>],
) -> (db: Database)
    ensures
        db.species_views() == gen1_species_table(
            pokemon@,
            numbers_of_records(record_texts(learnsets@)),
        ),
        db.move_views() == gen1_move_table(moves@),
        db.type_names@ == type_names@,
        db.type_advantage@ == Map::<(u32, u32), u32>::empty(),
{
    let numbers = read_learnsets(learnsets);
    Database {
        pokemon: build_gen1_species(pokemon, numbers.as_slice()),
        moves: build_gen1_moves(moves),
        type_names,
        type_advantage: TypeChart::new(),
    }
}

/// The learnset records that a first-generation data set comes with: none
/// where it has no learnset text, else what the text reads as, if it can
/// be read.
pub open spec fn gen1_learnsets(learnsets: Option<&[u8]>) -> Option<Seq<Seq<Seq<char>>>> {
    match learnsets {
        Some(bytes) => csv_records(bytes@),
        None => Some(Seq::empty()),
    }
}

/// Builds the reference data of the first generation from its type names,
/// its lists of moves and species and, where there is one, the text of its
/// learnsets, which holds one record per line: the id of a species and the
/// ids of its moves. A text that cannot be read as records is reported as
/// invalid data; otherwise the result is that of [`gen1_database`] on the
/// records read.
pub fn load_gen1_database(
    type_names: HashMap<u32, String>,
    moves: &[MoveEntry],
    pokemon: &[PokemonEntry],
    learnsets: Option<&[u8]>,
) -> (loaded: Result<Database, SimulatorError>)
    ensures
        match gen1_learnsets(learnsets) {
            Some(records) => {
                &&& loaded is Ok
                &&& loaded->Ok_0.species_views() == gen1_species_table(
                    pokemon@,
                    numbers_of_records(records),
                )
                &&& loaded->Ok_0.move_views() == gen1_move_table(moves@)
                &&& loaded->Ok_0.type_names@ == type_names@
                &&& loaded->Ok_0.type_advantage@ == Map::<(u32, u32), u32>::empty()
            },
            None => {
                &&& loaded is Err
                &&& loaded->Err_0 is InvalidData
                &&& "learnsets.csv record: "@.is_prefix_of(loaded->Err_0->InvalidData_0@)
            },
        },
{
    let records: Vec<Vec<String>> = match learnsets {
        Some(bytes) => match learnset_records(bytes) {
            Ok(records) => records,
            Err(text) => {
                let detail = String::from_str("learnsets.csv record: ").concat(text.as_str());
                proof {
                    assert(detail@.subrange(0, "learnsets.csv record: "@.len() as int)
                        =~= "learnsets.csv record: "@);
                }
                return Err(SimulatorError::InvalidData(detail));
            },
        },
        None => Vec::new(),
    };
    proof {
        assert(learnsets is None ==> record_texts(records@) =~= Seq::<Seq<Seq<char>>>::empty());
    }
    Ok(gen1_database(type_names, moves, pokemon, records.as_slice()))
}

/// Whether no later name of the list equals the one at `place`: the entry
/// there is the one that the reference data keeps under that name.
pub open spec fn is_last_of_its_name(names: Seq<Seq<char>>, place: int) -> bool {
    forall|later: int| place < later < names.len() ==> names[later] != names[place]
}

/// Whether no later name of the list equals the one at `place`.
pub fn is_last_name(names: &Vec<String>, place: usize) -> (last: bool)
    requires
        place < names@.len(),
    ensures
        last == is_last_of_its_name(field_texts(names@), place as int),
{
    let count: usize = names.len();
    let mut later: usize = place + 1;
    while later < count
        invariant
            count == names@.len(),
            place < later <= names@.len(),
            forall|j: int|
                place < j < later ==> field_texts(names@)[j] != field_texts(names@)[place as int],
        decreases names@.len() - later,
    {
        if names[later] == names[place] {
            proof {
                assert(field_texts(names@)[later as int] == field_texts(names@)[place as int]);
            }
            return false;
        }
        later += 1;
    }
    true
}

/// The normalized names of the species entries, entry by entry.
pub open spec fn gen1_species_names(entries: Seq<PokemonEntry>) -> Seq<Seq<char>> {
    entries.map_values(|entry: PokemonEntry| normalized(entry.identifier@))
}

/// The normalized names of the move entries, entry by entry.
pub open spec fn gen1_move_names(entries: Seq<MoveEntry>) -> Seq<Seq<char>> {
    entries.map_values(|entry: MoveEntry| normalized(entry.identifier@))
}

/// The species that the reference data of the first generation keeps, in
/// the order of their entries: of the first `count` entries each one that
/// no later entry replaces.
pub open spec fn gen1_species_kept(
    entries: Seq<PokemonEntry>,
    learnsets: Seq<Seq<Option<u32>>>,
    count: int,
) -> Seq<SpeciesView>
    decreases count,
{
    if count <= 0 {
        Seq::empty()
    } else {
        let before = gen1_species_kept(entries, learnsets, count - 1);
        if is_last_of_its_name(gen1_species_names(entries), count - 1) {
            before.push(gen1_species_from(entries[count - 1], learnsets))
        } else {
            before
        }
    }
}

/// The moves that the reference data of the first generation keeps, in the
/// order of their entries: of the first `count` entries each one that no
/// later entry replaces.
pub open spec fn gen1_moves_kept(entries: Seq<MoveEntry>, count: int) -> Seq<MoveView>
    decreases count,
{
    if count <= 0 {
        Seq::empty()
    } else {
        let before = gen1_moves_kept(entries, count - 1);
        if is_last_of_its_name(gen1_move_names(entries), count - 1) {
            before.push(gen1_move_from(entries[count - 1]))
        } else {
            before
        }
    }
}

/// The values of a list of species.
pub open spec fn species_list_views(list: Seq<PokemonSpecies>) -> Seq<SpeciesView> {
    list.map_values(|species: PokemonSpecies| species@)
}

/// The values of a list of moves.
pub open spec fn move_list_views(list: Seq<Move>) -> Seq<MoveView> {
    list.map_values(|mv: Move| mv@)
}

/// The species that the reference data of the first generation keeps, once
/// each, in the order of their entries.
pub fn gen1_species_list(entries: &[PokemonEntry], learnsets: &[Vec<String>]) -> (list: Vec<
    PokemonSpecies,
>)
    ensures
        species_list_views(list@) == gen1_species_kept(
            entries@,
            numbers_of_records(record_texts(learnsets@)),
            entries@.len() as int,
        ),
{
    let numbers = read_learnsets(learnsets);
    let mut names: Vec<String> = Vec::new();
    let mut i: usize = 0;
    while i < entries.len()
        invariant
            i <= entries@.len(),
            field_texts(names@) == gen1_species_names(entries@.take(i as int)),
        decreases entries@.len() - i,
    {
        let name = normalize_name(entries[i].identifier.as_str());
        proof {
            assert(gen1_species_names(entries@.take(i + 1)) =~= gen1_species_names(
                entries@.take(i as int),
            ).push(name@));
            assert(field_texts(names@.push(name)) =~= field_texts(names@).push(name@));
        }
        names.push(name);
        i += 1;
    }
    proof {
        assert(entries@.take(i as int) =~= entries@);
    }
    let mut list: Vec<PokemonSpecies> = Vec::new();
    let mut place: usize = 0;
    while place < entries.len()
        invariant
            place <= entries@.len(),
            names@.len() == entries@.len(),
            field_texts(names@) == gen1_species_names(entries@),
            record_views(numbers@) == numbers_of_records(record_texts(learnsets@)),
            species_list_views(list@) == gen1_species_kept(
                entries@,
                record_views(numbers@),
                place as int,
            ),
        decreases entries@.len() - place,
    {
        if is_last_name(&names, place) {
            let entry = &entries[place];
            let species = PokemonSpecies {
                id: entry.id,
                name: names[place].clone(),
                stats: entry.stats,
                types: entry.types.clone(),
                learnset: learnset_for(numbers.as_slice(), entry.id),
            };
            proof {
                assert(species@.name == gen1_species_names(entries@)[place as int]);
                assert(species@ == gen1_species_from(*entry, record_views(numbers@)));
                assert(species_list_views(list@.push(species)) =~= species_list_views(list@).push(
                    species@,
                ));
            }
            list.push(species);
        }
        place += 1;
    }
    list
}

/// The moves that the reference data of the first generation keeps, once
/// each, in the order of their entries.
pub fn gen1_move_list(entries: &[MoveEntry]) -> (list: Vec<Move>)
    ensures
        move_list_views(list@) == gen1_moves_kept(entries@, entries@.len() as int),
{
    let mut names: Vec<String> = Vec::new();
    let mut i: usize = 0;
    while i < entries.len()
        invariant
            i <= entries@.len(),
            field_texts(names@) == gen1_move_names(entries@.take(i as int)),
        decreases entries@.len() - i,
    {
        let name = normalize_name(entries[i].identifier.as_str());
        proof {
            assert(gen1_move_names(entries@.take(i + 1)) =~= gen1_move_names(
                entries@.take(i as int),
            ).push(name@));
            assert(field_texts(names@.push(name)) =~= field_texts(names@).push(name@));
        }
        names.push(name);
        i += 1;
    }
    proof {
        assert(entries@.take(i as int) =~= entries@);
    }
    let mut list: Vec<Move> = Vec::new();
    let mut place: usize = 0;
    while place < entries.len()
        invariant
            place <= entries@.len(),
            names@.len() == entries@.len(),
            field_texts(names@) == gen1_move_names(entries@),
            move_list_views(list@) == gen1_moves_kept(entries@, place as int),
        decreases entries@.len() - place,
    {
        if is_last_name(&names, place) {
            let entry = &entries[place];
            let mv = Move {
                id: entry.id,
                name: names[place].clone(),
                type_id: entry.type_id,
                power: entry.power,
                accuracy: entry.accuracy,
                priority: entry.priority,
                damage_class_id: entry.damage_class_id,
            };
            proof {
                assert(mv@.name == gen1_move_names(entries@)[place as int]);
                assert(mv@ == gen1_move_from(*entry));
                assert(move_list_views(list@.push(mv)) =~= move_list_views(list@).push(mv@));
            }
            list.push(mv);
        }
        place += 1;
    }
    list
}

/// An entry that no later entry replaces is the species that the table
/// holds under its name.
pub proof fn lemma_kept_species_is_stored(
    entries: Seq<PokemonEntry>,
    learnsets: Seq<Seq<Option<u32>>>,
    place: int,
)
    requires
        0 <= place < entries.len(),
        is_last_of_its_name(gen1_species_names(entries), place),
    ensures
        gen1_species_table(entries, learnsets).contains_key(normalized(entries[place].identifier@)),
        gen1_species_table(entries, learnsets)[normalized(entries[place].identifier@)]
            == gen1_species_from(entries[place], learnsets),
    decreases entries.len(),
{
    if place < entries.len() - 1 {
        let names = gen1_species_names(entries);
        assert(names[entries.len() - 1] != names[place]);
        assert(gen1_species_names(entries.drop_last()) =~= names.drop_last());
        assert(is_last_of_its_name(gen1_species_names(entries.drop_last()), place)) by {
            assert forall|later: int| place < later < entries.len() - 1 implies names.drop_last()[later]
                != names.drop_last()[place] by {
                assert(names[later] != names[place]);
            }
        }
        lemma_kept_species_is_stored(entries.drop_last(), learnsets, place);
    }
}

/// An entry that no later entry replaces is the move that the table holds
/// under its name.
pub proof fn lemma_kept_move_is_stored(entries: Seq<MoveEntry>, place: int)
    requires
        0 <= place < entries.len(),
        is_last_of_its_name(gen1_move_names(entries), place),
    ensures
        gen1_move_table(entries).contains_key(normalized(entries[place].identifier@)),
        gen1_move_table(entries)[normalized(entries[place].identifier@)] == gen1_move_from(
            entries[place],
        ),
    decreases entries.len(),
{
    if place < entries.len() - 1 {
        let names = gen1_move_names(entries);
        assert(names[entries.len() - 1] != names[place]);
        assert(gen1_move_names(entries.drop_last()) =~= names.drop_last());
        assert(is_last_of_its_name(gen1_move_names(entries.drop_last()), place)) by {
            assert forall|later: int| place < later < entries.len() - 1 implies names.drop_last()[later]
                != names.drop_last()[place] by {
                assert(names[later] != names[place]);
            }
        }
        lemma_kept_move_is_stored(entries.drop_last(), place);
    }
}

} // verus!
