//! The record of the folders that were moved.

use std::path::PathBuf;

use vstd::prelude::*;
use vstd::string::*;

verus! {

/// `std::path::PathBuf`: a path is carried along and never looked into.
#[verifier::external_type_specification]
#[verifier::external_body]
pub struct ExPathBuf(PathBuf);

/// A folder that was moved.
#[derive(Debug)]
pub struct MigrationRecord {
    pub id: String,
    pub name: String,
    pub source_path: PathBuf,
    pub target_path: PathBuf,
    pub size_bytes: u64,
    pub timestamp: u64,
    pub batch_id: Option<String>,
    pub batch_timestamp: Option<u64>,
}

impl Clone for MigrationRecord {
    fn clone(&self) -> (r: MigrationRecord)
        ensures
            r == *self,
    {
        MigrationRecord {
            id: self.id.clone(),
            name: self.name.clone(),
            source_path: self.source_path.clone(),
            target_path: self.target_path.clone(),
            size_bytes: self.size_bytes,
            timestamp: self.timestamp,
            batch_id: match &self.batch_id {
                Some(id) => Some(id.clone()),
                None => None,
            },
            batch_timestamp: self.batch_timestamp,
        }
    }
}

/// The text form of a random id: thirty-six characters, lower case hexadecimal digits in
/// five groups with hyphens between them, with the marks of a version 4 id.
pub open spec fn is_record_id(id: Seq<char>) -> bool {
    &&& id.len() == 36
    &&& forall|i: int|
        0 <= i < 36 ==> {
            let c = #[trigger] id[i];
            if i == 8 || i == 13 || i == 18 || i == 23 {
                c == '-'
            } else {
                '0' <= c <= '9' || 'a' <= c <= 'f'
            }
        }
    &&& id[14] == '4'
    &&& id[19] == '8' || id[19] == '9' || id[19] == 'a' || id[19] == 'b'
}

/// Makes a fresh id with `uuid::Uuid::new_v4`, which draws it at random, and writes it as
/// `Uuid` displays itself: hyphenated and in lower case. Nothing more is claimed of it; in
/// particular not that two ids differ, which rests on chance. The call panics where the
/// operating system has no random bytes to give.
#[verifier::external_body]
pub(crate) fn fresh_record_id() -> (r: String)
    ensures
        is_record_id(r@),
{
    uuid::Uuid::new_v4().to_string()
}

/// The records, in the order in which the folders were moved.
pub struct HistoryManager;

/// The test that a record has another id than the given one.
pub open spec fn other_id(id: Seq<char>) -> spec_fn(MigrationRecord) -> bool {
    |r: MigrationRecord| r.id@ != id
}

/// The records but for those with the given id.
pub open spec fn without_id(records: Seq<MigrationRecord>, id: Seq<char>) -> Seq<MigrationRecord> {
    records.filter(other_id(id))
}

/// The records that were stored, or none where they could not be read.
pub open spec fn loaded(stored: Option<Vec<MigrationRecord>>) -> Seq<MigrationRecord> {
    match stored {
        Some(records) => records@,
        None => Seq::empty(),
    }
}

/// The records with one more.
pub open spec fn with_record(
    records: Seq<MigrationRecord>,
    record: MigrationRecord,
) -> Seq<MigrationRecord> {
    records.push(record)
}

impl HistoryManager {
    /// The records that were stored, or none where they could not be read.
    pub fn load_records(stored: Option<Vec<MigrationRecord>>) -> (r: Vec<MigrationRecord>)
        ensures
            r@ == loaded(stored),
    {
        match stored {
            Some(records) => records,
            None => Vec::new(),
        }
    }

    /// The records to store once `record` is added.
    pub fn add_record(records: Vec<MigrationRecord>, record: MigrationRecord) -> (r: Vec<
        MigrationRecord,
    >)
        ensures
            r@ == with_record(records@, record),
    {
        let mut r = records;
        r.push(record);
        r
    }

    /// The records to store once those with the id `id` are taken out.
    pub fn remove_record(records: Vec<MigrationRecord>, id: &str) -> (r: Vec<MigrationRecord>)
        ensures
            r@ == without_id(records@, id@),
    {
        let id_text = id.to_owned();
        let ghost all = records@;
        let mut kept: Vec<MigrationRecord> = Vec::new();
        proof {
            reveal(Seq::filter);
            assert(all.take(0) =~= Seq::empty());
        }
        for record in it: records
            invariant
                it.seq() == all,
                id_text@ == id@,
                kept@ == without_id(all.take(it.index()), id@),
        {
            let ghost i = it.index();
            proof {
                reveal(Seq::filter);
                assert(all.take(i + 1).drop_last() =~= all.take(i));
                assert(all.take(i + 1).last() == record);
            }
            if record.id != id_text {
                kept.push(record);
            }
        }
        assert(all.take(all.len() as int) =~= all);
        kept
    }
}

/// Once the records with an id are taken out, none is left with it, every other record
/// is still there, and nothing has come in.
pub proof fn law_removed_id_is_gone(records: Seq<MigrationRecord>, id: Seq<char>)
    ensures
        forall|i: int|
            0 <= i < without_id(records, id).len() ==> {
                &&& (#[trigger] without_id(records, id)[i]).id@ != id
                &&& records.contains(without_id(records, id)[i])
            },
        forall|i: int|
            0 <= i < records.len() && (#[trigger] records[i]).id@ != id ==> without_id(
                records,
                id,
            ).contains(records[i]),
{
    broadcast use vstd::seq_lib::group_filter_ensures;

    let keep = other_id(id);
    assert forall|i: int| 0 <= i < without_id(records, id).len() implies {
        &&& (#[trigger] without_id(records, id)[i]).id@ != id
        &&& records.contains(without_id(records, id)[i])
    } by {
        let r = without_id(records, id)[i];
        assert(keep(records.filter(keep)[i]));
        assert(records.filter(keep).contains(r));
        records.lemma_filter_contains_rev(keep, r);
    }
    assert forall|i: int| 0 <= i < records.len() && (#[trigger] records[i]).id@
        != id implies without_id(records, id).contains(records[i]) by {
        assert(keep(records[i]));
    }
}

/// Taking out the id of a record that was just added gives back the records as they
/// were, if none of them had that id.
pub proof fn law_remove_undoes_add(records: Seq<MigrationRecord>, record: MigrationRecord)
    requires
        forall|i: int| 0 <= i < records.len() ==> (#[trigger] records[i]).id@ != record.id@,
    ensures
        without_id(records.push(record), record.id@) == records,
{
    reveal(Seq::filter);
    assert(records.push(record).drop_last() =~= records);
    lemma_nothing_to_remove(records, record.id@);
}

proof fn lemma_nothing_to_remove(records: Seq<MigrationRecord>, id: Seq<char>)
    requires
        forall|i: int| 0 <= i < records.len() ==> (#[trigger] records[i]).id@ != id,
    ensures
        without_id(records, id) == records,
    decreases records.len(),
{
    reveal(Seq::filter);
    if records.len() > 0 {
        let shorter = records.drop_last();
        assert forall|i: int| 0 <= i < shorter.len() implies (#[trigger] shorter[i]).id@ != id by {
            assert(shorter[i] == records[i]);
        }
        lemma_nothing_to_remove(shorter, id);
        assert(records[records.len() - 1].id@ != id);
        assert(shorter.push(records.last()) =~= records);
    }
}

/// Taking out an id a second time changes nothing.
pub proof fn law_remove_twice_is_once(records: Seq<MigrationRecord>, id: Seq<char>)
    ensures
        without_id(without_id(records, id), id) == without_id(records, id),
{
    law_removed_id_is_gone(records, id);
    lemma_nothing_to_remove(without_id(records, id), id);
}

/// Records are taken out one by one: whether a record stays depends on its own id alone, and
/// those that stay keep their order.
pub proof fn law_records_go_one_by_one(
    a: Seq<MigrationRecord>,
    b: Seq<MigrationRecord>,
    record: MigrationRecord,
    id: Seq<char>,
)
    ensures
        without_id(a + b, id) == without_id(a, id) + without_id(b, id),
        record.id@ == id ==> without_id(seq![record], id).len() == 0,
        record.id@ != id ==> without_id(seq![record], id) == seq![record],
    decreases b.len(),
{
    reveal(Seq::filter);
    let none = Seq::<MigrationRecord>::empty();
    let one = seq![record];
    assert(one.drop_last() =~= none);
    assert(without_id(none, id) =~= none);
    assert(none.push(record) =~= one);
    if b.len() == 0 {
        assert(a + b =~= a);
        assert(without_id(b, id) =~= none);
        assert(without_id(a, id) + none =~= without_id(a, id));
    } else {
        law_records_go_one_by_one(a, b.drop_last(), record, id);
        assert((a + b).drop_last() =~= a + b.drop_last());
        assert(without_id(a + b, id) =~= without_id(a, id) + without_id(b, id));
    }
}

/// A record that is added is the last one, and those before it stay as they were.
pub proof fn law_added_record_is_last(records: Seq<MigrationRecord>, record: MigrationRecord)
    ensures
        with_record(records, record).len() == records.len() + 1,
        with_record(records, record).last() == record,
        forall|i: int|
            0 <= i < records.len() ==> #[trigger] with_record(records, record)[i] == records[i],
{
}

/// What was stored is loaded as it was; where nothing can be read there are no records.
pub proof fn law_stored_records_are_loaded(stored: Vec<MigrationRecord>)
    ensures
        loaded(Some(stored)) == stored@,
        loaded(None).len() == 0,
{
}

} // verus!
