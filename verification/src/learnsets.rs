use vstd::prelude::*;

verus! {

/// Whether a character is one of the decimal digits `0` to `9`.
pub open spec fn is_decimal_digit(c: char) -> bool {
    0x30 <= c as u32 <= 0x39
}

/// The value of a sequence of decimal digits.
pub open spec fn digits_value(digits: Seq<char>) -> nat
    decreases digits.len(),
{
    if digits.len() == 0 {
        0
    } else {
        10 * digits_value(digits.drop_last()) + (digits.last() as u32 - 0x30) as nat
    }
}

/// The number that a text stands for: the text is an optional `+` and then
/// one or more decimal digits, and their value fits a `u32`. Every other
/// text stands for none.
pub open spec fn parsed_number(text: Seq<char>) -> Option<u32> {
    let digits = if text.len() > 0 && text[0] == '+' {
        text.drop_first()
    } else {
        text
    };
    if digits.len() > 0 && (forall|i: int|
        0 <= i < digits.len() ==> is_decimal_digit(#[trigger] digits[i])) && digits_value(digits)
        <= u32::MAX {
        Some(digits_value(digits) as u32)
    } else {
        None
    }
}

/// Calls `str::parse::<u32>` of the standard library. The contract states
/// what its documentation says: a text of an optional `+` sign followed by
/// decimal digits only gives their value, and an empty text, any other
/// character or a value too large for a `u32` gives an error, which is
/// turned into none.
#[verifier::external_body]
fn parse_number(text: &str) -> (parsed: Option<u32>)
    ensures
        parsed == parsed_number(text@),
{
    text.parse::<u32>().ok()
}

/// The error type of the `csv` crate, carried through as it is.
#[verifier::external_type_specification]
#[verifier::external_body]
pub struct ExCsvError(csv::Error);

/// The records that the `csv` crate reads from a text that has no header
/// line and whose records may differ in length: of each record its fields;
/// none where the reader reports an error.
pub uninterp spec fn csv_records(bytes: Seq<u8>) -> Option<Seq<Seq<Seq<char>>>>;

/// Reads all records of a text with a reader of the `csv` crate, built by
/// `ReaderBuilder` with `has_headers(false)` and `flexible(true)`, and walked
/// by `Reader::records`. The contract only names the result, which depends
/// on nothing but the bytes: the fields of every record as strings, or the
/// first error that the reader reports.
#[verifier::external_body]
fn read_csv_records(bytes: &[u8]) -> (read: Result<Vec<Vec<String>>, csv::Error>)
    ensures
        read is Ok <==> csv_records(bytes@) is Some,
        read is Ok ==> record_texts(read->Ok_0@) == csv_records(bytes@).unwrap(),
{
    let mut reader = csv::ReaderBuilder::new().has_headers(false).flexible(true).from_reader(bytes);
    let mut records = Vec::new();
    for record in reader.records() {
        records.push(record?.iter().map(str::to_string).collect());
    }
    Ok(records)
}

/// The message of an error of the `csv` crate, as its `Display` writes it.
/// Nothing is claimed of the text.
#[verifier::external_body]
fn csv_error_text(error: &csv::Error) -> (text: String) {
    error.to_string()
}

/// The texts of the fields of a record.
pub open spec fn field_texts(fields: Seq<String>) -> Seq<Seq<char>> {
    fields.map_values(|field: String| field@)
}

/// The texts of the fields of all records.
pub open spec fn record_texts(records: Seq<Vec<String>>) -> Seq<Seq<Seq<char>>> {
    records.map_values(|fields: Vec<String>| field_texts(fields@))
}

/// The numbers in the fields of a learnset record, field by field.
pub open spec fn numbers_in(fields: Seq<Seq<char>>) -> Seq<Option<u32>> {
    fields.map_values(|field: Seq<char>| parsed_number(field))
}

/// The numbers in the fields of all learnset records.
pub open spec fn numbers_of_records(records: Seq<Seq<Seq<char>>>) -> Seq<Seq<Option<u32>>> {
    records.map_values(|fields: Seq<Seq<char>>| numbers_in(fields))
}

/// The records as sequences of numbers.
pub open spec fn record_views(records: Seq<Vec<Option<u32>>>) -> Seq<Seq<Option<u32>>> {
    records.map_values(|numbers: Vec<Option<u32>>| numbers@)
}

/// The move ids of a learnset record: the numbers behind the first field,
/// in their order.
pub open spec fn move_ids_of(numbers: Seq<Option<u32>>) -> Seq<u32>
    decreases numbers.len(),
{
    if numbers.len() <= 1 {
        Seq::empty()
    } else {
        let before = move_ids_of(numbers.drop_last());
        match numbers.last() {
            Some(id) => before.push(id),
            None => before,
        }
    }
}

/// Whether a learnset record is about the species with the given id: the
/// number in its first field is that id.
pub open spec fn is_learnset_of(numbers: Seq<Option<u32>>, id: u32) -> bool {
    numbers.len() > 0 && numbers[0] == Some(id)
}

/// The learnset that the records give a species: the move ids of the last
/// record about it, and nothing where no record is about it.
pub open spec fn learnset_of(records: Seq<Seq<Option<u32>>>, id: u32) -> Seq<u32>
    decreases records.len(),
{
    if records.len() == 0 {
        Seq::empty()
    } else if is_learnset_of(records.last(), id) {
        move_ids_of(records.last())
    } else {
        learnset_of(records.drop_last(), id)
    }
}

/// The records of a learnset text, or the error of the reader.
pub fn learnset_records(bytes: &[u8]) -> (read: Result<Vec<Vec<String>>, String>)
    ensures
        read is Ok <==> csv_records(bytes@) is Some,
        read is Ok ==> record_texts(read->Ok_0@) == csv_records(bytes@).unwrap(),
{
    match read_csv_records(bytes) {
        Ok(records) => Ok(records),
        Err(error) => Err(csv_error_text(&error)),
    }
}

/// The numbers in the fields of a learnset record.
pub fn read_numbers(fields: &Vec<String>) -> (numbers: Vec<Option<u32>>)
    ensures
        numbers@ == numbers_in(field_texts(fields@)),
{
    let mut numbers: Vec<Option<u32>> = Vec::new();
    let mut i: usize = 0;
    while i < fields.len()
        invariant
            i <= fields@.len(),
            numbers@ == numbers_in(field_texts(fields@.take(i as int))),
        decreases fields@.len() - i,
    {
        let field = fields[i].as_str();
        let number = if field.is_empty() {
            None
        } else {
            parse_number(field)
        };
        proof {
            assert(numbers_in(field_texts(fields@.take(i + 1))) =~= numbers_in(
                field_texts(fields@.take(i as int)),
            ).push(number));
        }
        numbers.push(number);
        i += 1;
    }
    proof {
        assert(fields@.take(i as int) =~= fields@);
    }
    numbers
}

/// The numbers in the fields of all learnset records.
pub fn read_learnsets(records: &[Vec<String>]) -> (parsed: Vec<Vec<Option<u32>>>)
    ensures
        record_views(parsed@) == numbers_of_records(record_texts(records@)),
{
    let mut parsed: Vec<Vec<Option<u32>>> = Vec::new();
    let mut i: usize = 0;
    proof {
        assert(record_views(parsed@) =~= numbers_of_records(record_texts(records@.take(0))));
    }
    while i < records.len()
        invariant
            i <= records@.len(),
            record_views(parsed@) == numbers_of_records(record_texts(records@.take(i as int))),
        decreases records@.len() - i,
    {
        let numbers = read_numbers(&records[i]);
        proof {
            assert(numbers_of_records(record_texts(records@.take(i + 1))) =~= numbers_of_records(
                record_texts(records@.take(i as int)),
            ).push(numbers@));
            assert(record_views(parsed@.push(numbers)) =~= record_views(parsed@).push(numbers@));
        }
        parsed.push(numbers);
        i += 1;
    }
    proof {
        assert(records@.take(i as int) =~= records@);
    }
    parsed
}

/// The move ids of a learnset record.
pub fn move_ids(numbers: &Vec<Option<u32>>) -> (ids: Vec<u32>)
    ensures
        ids@ == move_ids_of(numbers@),
{
    let mut ids: Vec<u32> = Vec::new();
    let mut i: usize = 1;
    if numbers.len() <= 1 {
        return ids;
    }
    proof {
        assert(move_ids_of(numbers@.take(1)) =~= Seq::<u32>::empty());
    }
    while i < numbers.len()
        invariant
            1 <= i <= numbers@.len(),
            ids@ == move_ids_of(numbers@.take(i as int)),
        decreases numbers@.len() - i,
    {
        proof {
            assert(numbers@.take(i + 1).drop_last() =~= numbers@.take(i as int));
        }
        match numbers[i] {
            Some(id) => {
                ids.push(id);
            },
            None => {},
        }
        i += 1;
    }
    proof {
        assert(numbers@.take(i as int) =~= numbers@);
    }
    ids
}

/// The learnset that the records give a species.
pub fn learnset_for(records: &[Vec<Option<u32>>], id: u32) -> (learnset: Vec<u32>)
    ensures
        learnset@ == learnset_of(record_views(records@), id),
{
    let mut learnset: Vec<u32> = Vec::new();
    let mut i: usize = 0;
    proof {
        assert(record_views(records@.take(0)) =~= Seq::<Seq<Option<u32>>>::empty());
    }
    while i < records.len()
        invariant
            i <= records@.len(),
            learnset@ == learnset_of(record_views(records@.take(i as int)), id),
        decreases records@.len() - i,
    {
        proof {
            assert(record_views(records@.take(i + 1)).drop_last() =~= record_views(
                records@.take(i as int),
            ));
            assert(record_views(records@.take(i + 1)).last() == records@[i as int]@);
        }
        let numbers = &records[i];
        if numbers.len() > 0 {
            match numbers[0] {
                Some(owner) => {
                    if owner == id {
                        learnset = move_ids(numbers);
                    }
                },
                None => {},
            }
        }
        i += 1;
    }
    proof {
        assert(records@.take(i as int) =~= records@);
    }
    learnset
}

} // verus!
