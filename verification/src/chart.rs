use std::collections::HashMap;
use vstd::prelude::*;

verus! {

broadcast use vstd::std_specs::hash::group_hash_axioms;

/// The factor, in hundredths, of a pairing that the chart does not list.
pub const NEUTRAL_FACTOR: u32 = 100;

/// The key under which the pairing of an attacking and a defending type is
/// stored: the attacking type in the upper half, the defending type in the
/// lower half.
pub open spec fn pair_key(attack_type: u32, defend_type: u32) -> u64 {
    (attack_type as u64 * 0x1_0000_0000 + defend_type as u64) as u64
}

/// The effectiveness chart: for a pairing of an attacking type and a
/// defending type, the damage factor in hundredths (0, 50, 100, 200).
pub struct TypeChart {
    cells: HashMap<u64, u32>,
}

impl View for TypeChart {
    type V = Map<(u32, u32), u32>;

    closed spec fn view(&self) -> Map<(u32, u32), u32> {
        Map::new(
            |pair: (u32, u32)| self.cells@.contains_key(pair_key(pair.0, pair.1)),
            |pair: (u32, u32)| self.cells@[pair_key(pair.0, pair.1)],
        )
    }
}

/// The factor, in hundredths, that `table` gives for a pairing: the listed
/// one, or the neutral factor where none is listed.
pub open spec fn factor_of(table: Map<(u32, u32), u32>, attack_type: u32, defend_type: u32) -> u32 {
    if table.contains_key((attack_type, defend_type)) {
        table[(attack_type, defend_type)]
    } else {
        NEUTRAL_FACTOR
    }
}

/// Distinct pairings have distinct keys.
pub proof fn lemma_pair_key_injective(a1: u32, d1: u32, a2: u32, d2: u32)
    ensures
        pair_key(a1, d1) == pair_key(a2, d2) <==> (a1 == a2 && d1 == d2),
{
}

fn key_for(attack_type: u32, defend_type: u32) -> (key: u64)
    ensures
        key == pair_key(attack_type, defend_type),
{
    attack_type as u64 * 0x1_0000_0000 + defend_type as u64
}

impl TypeChart {
    /// A chart that lists no pairing.
    pub fn new() -> (chart: Self)
        ensures
            chart@ == Map::<(u32, u32), u32>::empty(),
    {
        let chart = Self { cells: HashMap::new() };
        assert(chart@ =~= Map::<(u32, u32), u32>::empty());
        chart
    }

    /// Lists `factor` for the pairing, in place of what was listed for it.
    pub fn insert(&mut self, attack_type: u32, defend_type: u32, factor: u32)
        ensures
            final(self)@ == old(self)@.insert((attack_type, defend_type), factor),
    {
        let key = key_for(attack_type, defend_type);
        self.cells.insert(key, factor);
        proof {
            assert forall|pair: (u32, u32)|
                pair_key(pair.0, pair.1) == key <==> pair == (attack_type, defend_type) by {
                lemma_pair_key_injective(pair.0, pair.1, attack_type, defend_type);
            }
            assert(self@ =~= old(self)@.insert((attack_type, defend_type), factor));
        }
    }

    /// The factor listed for the pairing, if one is.
    pub fn get(&self, attack_type: u32, defend_type: u32) -> (listed: Option<u32>)
        ensures
            listed == (if self@.contains_key((attack_type, defend_type)) {
                Some(self@[(attack_type, defend_type)])
            } else {
                None
            }),
    {
        let key = key_for(attack_type, defend_type);
        match self.cells.get(&key) {
            Some(factor) => Some(*factor),
            None => None,
        }
    }

    /// The factor for the pairing, neutral where none is listed.
    pub fn factor(&self, attack_type: u32, defend_type: u32) -> (factor: u32)
        ensures
            factor == factor_of(self@, attack_type, defend_type),
    {
        match self.get(attack_type, defend_type) {
            Some(factor) => factor,
            None => NEUTRAL_FACTOR,
        }
    }
}

} // verus!
