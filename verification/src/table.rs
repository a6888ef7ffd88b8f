//! The symbol table: function records keyed by linkage name.
//!
//! The records stand in a list, at most one for each linkage name, in the
//! order in which the names first came. A record keeps its slot for as long
//! as the table lives, so the walk can remember a slot instead of searching
//! for a name.
use vstd::prelude::*;
use crate::model::{Subprogram, SubprogramModel, Variable};

verus! {

/// The linkage names of a list of records, in order.
pub open spec fn keys_of(records: Seq<Subprogram>) -> Seq<Seq<char>> {
    records.map_values(|r: Subprogram| r.linkage_name@)
}

/// The mapping that a list of records with distinct linkage names stands for.
pub open spec fn mapping_of(records: Seq<Subprogram>) -> Map<Seq<char>, SubprogramModel> {
    Map::new(
        |key: Seq<char>| keys_of(records).contains(key),
        |key: Seq<char>| records[keys_of(records).index_of(key)]@,
    )
}

/// With distinct keys, the record under the key of slot `i` is the record in
/// slot `i`.
proof fn lemma_slot(records: Seq<Subprogram>, i: int)
    requires
        keys_of(records).no_duplicates(),
        0 <= i < records.len(),
    ensures
        mapping_of(records).dom().contains(records[i].linkage_name@),
        mapping_of(records)[records[i].linkage_name@] == records[i]@,
{
    let keys = keys_of(records);
    let key = records[i].linkage_name@;
    assert(keys[i] == key);
    assert(keys.contains(key));
    let j = keys.index_of(key);
    assert(keys[j] == key);
}

/// Putting `record` into slot `i`, whose key it shares, puts it under that
/// key and leaves every other key alone.
proof fn lemma_replace(before: Seq<Subprogram>, i: int, record: Subprogram)
    requires
        keys_of(before).no_duplicates(),
        0 <= i < before.len(),
        record.linkage_name@ == before[i].linkage_name@,
    ensures
        keys_of(before.update(i, record)) == keys_of(before),
        mapping_of(before.update(i, record)) == mapping_of(before).insert(
            record.linkage_name@,
            record@,
        ),
{
    let after = before.update(i, record);
    assert(keys_of(after) =~= keys_of(before));
    assert forall|key: Seq<char>| keys_of(before).contains(key) implies #[trigger] mapping_of(
        after,
    )[key] == (if key == record.linkage_name@ {
        record@
    } else {
        mapping_of(before)[key]
    }) by {
        let j = keys_of(before).index_of(key);
        assert(keys_of(before)[j] == key);
        assert(keys_of(before)[i] == record.linkage_name@);
        lemma_slot(before, j);
        lemma_slot(after, j);
    }
    assert forall|key: Seq<char>|
        mapping_of(after).dom().contains(key) <==> mapping_of(before).insert(
            record.linkage_name@,
            record@,
        ).dom().contains(key) by {
        assert(keys_of(before)[i] == record.linkage_name@);
    }
    assert(mapping_of(after) =~= mapping_of(before).insert(record.linkage_name@, record@));
}

/// Adding a record whose key is new puts it under that key and leaves every
/// other key alone.
proof fn lemma_append(before: Seq<Subprogram>, record: Subprogram)
    requires
        keys_of(before).no_duplicates(),
        !keys_of(before).contains(record.linkage_name@),
    ensures
        keys_of(before.push(record)) == keys_of(before).push(record.linkage_name@),
        keys_of(before.push(record)).no_duplicates(),
        mapping_of(before.push(record)) == mapping_of(before).insert(
            record.linkage_name@,
            record@,
        ),
{
    let after = before.push(record);
    assert(keys_of(after) =~= keys_of(before).push(record.linkage_name@));
    assert(keys_of(after).no_duplicates());
    lemma_slot(after, before.len() as int);
    assert forall|key: Seq<char>| keys_of(before).contains(key) implies keys_of(after).contains(
        key,
    ) && #[trigger] mapping_of(after)[key] == mapping_of(before)[key] by {
        let j = keys_of(before).index_of(key);
        assert(keys_of(after)[j] == key);
        lemma_slot(before, j);
        lemma_slot(after, j);
    }
    assert forall|key: Seq<char>|
        mapping_of(after).dom().contains(key) <==> mapping_of(before).insert(
            record.linkage_name@,
            record@,
        ).dom().contains(key) by {
        assert(keys_of(after)[before.len() as int] == record.linkage_name@);
        if keys_of(before).contains(key) {
            let j = keys_of(before).index_of(key);
            assert(keys_of(after)[j] == key);
        }
        if keys_of(after).contains(key) {
            let j = keys_of(after).index_of(key);
            if j < before.len() {
                assert(keys_of(before)[j] == key);
            }
        }
    }
    assert(mapping_of(after) =~= mapping_of(before).insert(record.linkage_name@, record@));
}

/// Appends a variable to the record in `slot` of a list of records.
fn push_variable(records: &mut Vec<Subprogram>, slot: usize, variable: Variable)
    requires
        slot < old(records).len(),
    ensures
        final(records)@.len() == old(records)@.len(),
        final(records)@[slot as int].linkage_name@ == old(records)@[slot as int].linkage_name@,
        final(records)@[slot as int]@ == old(records)@[slot as int]@.with_variable(variable@),
        final(records)@ == old(records)@.update(slot as int, final(records)@[slot as int]),
{
    let ghost before = records@;
    records[slot].variables.push(variable);
    proof {
        assert(records@[slot as int]@.variables =~= before[slot as int]@.variables.push(
            variable@,
        ));
        assert(records@ =~= before.update(slot as int, records@[slot as int]));
    }
}

/// The symbol table: a mapping from linkage name to function record.
pub struct SymbolTable {
    records: Vec<Subprogram>,
}

impl View for SymbolTable {
    type V = Map<Seq<char>, SubprogramModel>;

    closed spec fn view(&self) -> Map<Seq<char>, SubprogramModel> {
        mapping_of(self.records@)
    }
}

impl SymbolTable {
    /// No linkage name stands in two slots.
    #[verifier::type_invariant]
    pub closed spec fn distinct(self) -> bool {
        keys_of(self.records@).no_duplicates()
    }

    /// The linkage names in the table, in slot order.
    pub closed spec fn keys(&self) -> Seq<Seq<char>> {
        keys_of(self.records@)
    }

    /// The keys are exactly the names the mapping knows.
    pub proof fn lemma_keys_are_domain(&self)
        ensures
            forall|key: Seq<char>| self.keys().contains(key) <==> self@.dom().contains(key),
    {
    }

    /// An empty table.
    pub fn new() -> (table: SymbolTable)
        ensures
            table@ == Map::<Seq<char>, SubprogramModel>::empty(),
            table.keys() == Seq::<Seq<char>>::empty(),
    {
        let table = SymbolTable { records: Vec::new() };
        assert(table.keys() =~= Seq::<Seq<char>>::empty());
        assert(table@ =~= Map::<Seq<char>, SubprogramModel>::empty());
        table
    }

    /// The number of records.
    pub fn len(&self) -> (n: usize)
        ensures
            n == self.keys().len(),
            n == self@.dom().len(),
            self@.dom().finite(),
    {
        proof {
            use_type_invariant(self);
            keys_of(self.records@).unique_seq_to_set();
            assert(self@.dom() =~= keys_of(self.records@).to_set());
        }
        self.records.len()
    }

    /// Whether the table holds no record.
    pub fn is_empty(&self) -> (empty: bool)
        ensures
            empty == (self.keys().len() == 0),
            empty == (self@ == Map::<Seq<char>, SubprogramModel>::empty()),
    {
        proof {
            if self.records@.len() == 0 {
                assert(self@ =~= Map::<Seq<char>, SubprogramModel>::empty());
            } else {
                assert(keys_of(self.records@)[0] == self.records@[0].linkage_name@);
                assert(self@.dom().contains(self.records@[0].linkage_name@));
            }
        }
        self.records.len() == 0
    }

    /// The records in slot order.
    pub fn records(&self) -> (records: &Vec<Subprogram>)
        ensures
            keys_of(records@) == self.keys(),
            self.keys().no_duplicates(),
            forall|i: int|
                0 <= i < records@.len() ==> self@.dom().contains(#[trigger] self.keys()[i])
                    && self@[self.keys()[i]] == records@[i]@,
    {
        proof {
            use_type_invariant(self);
            assert forall|i: int| 0 <= i < self.records@.len() implies self@.dom().contains(
                #[trigger] self.keys()[i],
            ) && self@[self.keys()[i]] == self.records@[i]@ by {
                lemma_slot(self.records@, i);
            }
        }
        &self.records
    }

    /// The slot of the record keyed by `key`.
    pub fn find(&self, key: &str) -> (slot: Option<usize>)
        ensures
            match slot {
                Some(i) => i < self.keys().len() && self.keys()[i as int] == key@,
                None => !self@.dom().contains(key@),
            },
    {
        let wanted = key.to_owned();
        let mut i: usize = 0;
        while i < self.records.len()
            invariant
                i <= self.records@.len(),
                wanted@ == key@,
                forall|k: int| 0 <= k < i ==> keys_of(self.records@)[k] != key@,
            decreases self.records@.len() - i,
        {
            if self.records[i].linkage_name == wanted {
                return Some(i);
            }
            i += 1;
        }
        None
    }

    /// The record keyed by `key`.
    pub fn get(&self, key: &str) -> (record: Option<&Subprogram>)
        ensures
            match record {
                Some(r) => self@.dom().contains(key@) && r@ == self@[key@],
                None => !self@.dom().contains(key@),
            },
    {
        match self.find(key) {
            Some(slot) => {
                proof {
                    use_type_invariant(self);
                    lemma_slot(self.records@, slot as int);
                }
                Some(&self.records[slot])
            },
            None => None,
        }
    }

    /// Puts `record` under its linkage name, in place of whatever stood there,
    /// and returns its slot.
    pub fn upsert(&mut self, record: Subprogram) -> (slot: usize)
        ensures
            final(self)@ == old(self)@.insert(record.linkage_name@, record@),
            final(self).keys() == if old(self).keys().contains(record.linkage_name@) {
                old(self).keys()
            } else {
                old(self).keys().push(record.linkage_name@)
            },
            slot < final(self).keys().len(),
            final(self).keys()[slot as int] == record.linkage_name@,
    {
        proof {
            use_type_invariant(&*self);
        }
        let found = self.find(record.linkage_name.as_str());
        let mut records: Vec<Subprogram> = Vec::new();
        core::mem::swap(&mut self.records, &mut records);
        let slot = match found {
            Some(i) => {
                proof {
                    lemma_replace(records@, i as int, record);
                    assert(keys_of(records@)[i as int] == record.linkage_name@);
                }
                records[i] = record;
                i
            },
            None => {
                proof {
                    lemma_append(records@, record);
                }
                records.push(record);
                records.len() - 1
            },
        };
        self.records = records;
        slot
    }

    /// Appends `variable` to the record in `slot`. Does nothing, and says so,
    /// where the table has no such slot.
    pub fn attach(&mut self, slot: usize, variable: Variable) -> (attached: bool)
        ensures
            attached == (slot < old(self).keys().len()),
            final(self).keys() == old(self).keys(),
            attached ==> final(self)@ == old(self)@.insert(
                old(self).keys()[slot as int],
                old(self)@[old(self).keys()[slot as int]].with_variable(variable@),
            ),
            !attached ==> final(self)@ == old(self)@,
    {
        if slot >= self.records.len() {
            return false;
        }
        proof {
            use_type_invariant(&*self);
            lemma_slot(self.records@, slot as int);
        }
        let mut records: Vec<Subprogram> = Vec::new();
        core::mem::swap(&mut self.records, &mut records);
        let ghost before = records@;
        push_variable(&mut records, slot, variable);
        proof {
            lemma_replace(before, slot as int, records@[slot as int]);
        }
        self.records = records;
        true
    }
}

} // verus!
