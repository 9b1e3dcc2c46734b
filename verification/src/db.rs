//! The alias table in memory, and its snapshot.

use crate::codec::{encode_records, parse_records, parsed_snapshot, snapshot_text};
use crate::model::{
    has_alias, lemma_map_domain, lemma_map_entry, lemma_map_push, lemma_push_valid,
    lemma_visited_valid, table_map, valid_record, valid_table, visited, RecordView,
};
use vstd::hash_map::StringHashMap;
use vstd::prelude::*;

verus! {

/// One alias of the table: where it leads and how often it was followed.
#[derive(Debug, Clone, PartialEq, Eq)]
pub struct AliasRecord {
    pub alias: String,
    pub destination: String,
    pub visits: u64,
}

impl View for AliasRecord {
    type V = RecordView;

    open spec fn view(&self) -> RecordView {
        RecordView {
            alias: self.alias@,
            destination: self.destination@,
            visits: self.visits as nat,
        }
    }
}

/// The values of a sequence of records.
pub open spec fn views(records: Seq<AliasRecord>) -> Seq<RecordView> {
    records.map_values(|r: AliasRecord| r@)
}

/// The alias table: the records, each new one behind those that were there,
/// and an index from each alias to the place of its record.
pub struct Db {
    rows: Vec<AliasRecord>,
    index: StringHashMap<usize>,
}

impl View for Db {
    type V = Map<Seq<char>, (Seq<char>, nat)>;

    /// The table as a map from alias to destination and visit count.
    open spec fn view(&self) -> Map<Seq<char>, (Seq<char>, nat)> {
        table_map(self.records())
    }
}

impl Db {
    /// The records of the table, in the order in which they are listed.
    pub closed spec fn records(&self) -> Seq<RecordView> {
        views(self.rows@)
    }

    /// The index knows exactly the aliases of the records, each with its place.
    pub closed spec fn indexed(&self) -> bool {
        &&& forall|alias: Seq<char>| #[trigger]
            self.index@.contains_key(alias) ==> (self.index@[alias] as int) < self.rows@.len()
                && self.rows@[self.index@[alias] as int].alias@ == alias
        &&& forall|i: int|
            0 <= i < self.rows@.len() ==> self.index@.contains_key((#[trigger] self.rows@[i]).alias@)
                && self.index@[self.rows@[i].alias@] == i
    }

    /// The table is well formed: its records are valid, no alias occurs twice,
    /// and the index agrees with the records.
    pub open spec fn wf(&self) -> bool {
        &&& self.indexed()
        &&& valid_table(self.records())
    }

    /// An empty table.
    pub fn new() -> (db: Db)
        ensures
            db.wf(),
            db.records() == Seq::<RecordView>::empty(),
            db@ == Map::<Seq<char>, (Seq<char>, nat)>::empty(),
    {
        Db { rows: Vec::new(), index: StringHashMap::new() }
    }

    /// The number of aliases.
    pub fn len(&self) -> (n: usize)
        ensures
            n == self.records().len(),
    {
        self.rows.len()
    }

    /// The records as they are held, in the order of [`Db::records`].
    pub fn rows(&self) -> (rows: &Vec<AliasRecord>)
        ensures
            views(rows@) == self.records(),
    {
        &self.rows
    }

    /// The place of the record of `alias`, if the table has one.
    pub fn position(&self, alias: &String) -> (place: Option<usize>)
        requires
            self.wf(),
        ensures
            match place {
                Some(i) => i < self.records().len() && self.records()[i as int].alias == alias@,
                None => !has_alias(self.records(), alias@),
            },
    {
        match self.index.get(alias.as_str()) {
            Some(i) => Some(*i),
            None => {
                proof {
                    if has_alias(self.records(), alias@) {
                        let i = choose|i: int|
                            0 <= i < self.records().len() && (#[trigger] self.records()[i]).alias
                                == alias@;
                        assert(self.index@.contains_key(self.rows@[i].alias@));
                    }
                }
                None
            },
        }
    }

    /// Whether the table has a record of `alias`.
    pub fn contains_key(&self, alias: &String) -> (found: bool)
        requires
            self.wf(),
        ensures
            found == self@.contains_key(alias@),
    {
        proof {
            lemma_map_domain(self.records(), alias@);
        }
        self.position(alias).is_some()
    }

    /// The record of `alias`, if the table has one.
    pub fn get(&self, alias: &String) -> (found: Option<&AliasRecord>)
        requires
            self.wf(),
        ensures
            match found {
                Some(record) => self@.contains_key(alias@) && record@.alias == alias@
                    && self@[alias@] == (record@.destination, record@.visits),
                None => !self@.contains_key(alias@),
            },
    {
        proof {
            lemma_map_domain(self.records(), alias@);
        }
        match self.position(alias) {
            Some(i) => {
                proof {
                    lemma_map_entry(self.records(), i as int);
                }
                Some(&self.rows[i])
            },
            None => None,
        }
    }

    /// Appends a valid record whose alias is free.
    pub(crate) fn append(&mut self, record: AliasRecord)
        requires
            old(self).wf(),
            valid_record(record@),
            !old(self)@.contains_key(record@.alias),
        ensures
            final(self).wf(),
            final(self).records() == old(self).records().push(record@),
            final(self)@ == old(self)@.insert(
                record@.alias,
                (record@.destination, record@.visits),
            ),
    {
        let place = self.rows.len();
        let key = record.alias.clone();
        proof {
            lemma_map_domain(self.records(), record@.alias);
            lemma_map_push(self.records(), record@);
            assert forall|i: int| 0 <= i < self.rows@.len() implies (#[trigger] self.rows@[i]).alias@
                != record@.alias by {
                assert(self.records()[i].alias == self.rows@[i].alias@);
            }
        }
        self.rows.push(record);
        self.index.insert(key, place);
        assert(self.records() =~= old(self).records().push(record@));
    }

    /// Counts one more visit on the record at `place` and hands out its new state.
    pub(crate) fn count_visit(&mut self, place: usize) -> (after: (String, u64))
        requires
            old(self).wf(),
            place < old(self).records().len(),
            old(self).records()[place as int].visits < u64::MAX,
        ensures
            final(self).wf(),
            final(self).records() == visited(
                old(self).records(),
                old(self).records()[place as int].alias,
            ),
            after.0@ == old(self).records()[place as int].destination,
            after.1 == old(self).records()[place as int].visits + 1,
    {
        let visits = self.rows[place].visits + 1;
        self.rows[place].visits = visits;
        let destination = self.rows[place].destination.clone();
        proof {
            let before = old(self).records();
            let after = visited(before, before[place as int].alias);
            assert forall|i: int| 0 <= i < before.len() implies (#[trigger] self.records()[i])
                == after[i] by {
                if i != place as int {
                    assert(before[i].alias != before[place as int].alias);
                }
            }
            assert(self.records() =~= after);
        }
        (destination, visits)
    }
}

/// Why a snapshot was not taken for a table.
#[derive(Debug, Clone, Copy, PartialEq, Eq, Structural)]
pub enum CorruptSnapshot {
    /// The text is not a JSON object of the snapshot's shape.
    Unreadable,
    /// A record has an empty alias or destination, or two records share an alias.
    InvalidRecord,
}

/// The snapshot could not be written down as text.
#[derive(Debug, Clone, Copy, PartialEq, Eq, Structural)]
pub struct EncodeError;

/// What loading makes of what was read from a snapshot: the records
/// themselves where they form a valid table, else the reason for refusing them.
pub open spec fn load_result(parsed: Option<Seq<RecordView>>) -> Result<
    Seq<RecordView>,
    CorruptSnapshot,
> {
    match parsed {
        None => Err(CorruptSnapshot::Unreadable),
        Some(records) => if valid_table(records) {
            Ok(records)
        } else {
            Err(CorruptSnapshot::InvalidRecord)
        },
    }
}

impl Db {
    /// Builds the table that lists exactly these records, in this order. The
    /// records are refused where they do not form a valid table.
    pub fn from_records(records: Vec<AliasRecord>) -> (r: Result<Db, CorruptSnapshot>)
        ensures
            match r {
                Ok(db) => db.wf() && db.records() == views(records@),
                Err(e) => e == CorruptSnapshot::InvalidRecord && !valid_table(views(records@)),
            },
    {
        let mut index: StringHashMap<usize> = StringHashMap::new();
        let ghost table = views(records@);
        let mut i: usize = 0;
        while i < records.len()
            invariant
                i <= records.len(),
                table == views(records@),
                forall|alias: Seq<char>| #[trigger]
                    index@.contains_key(alias) ==> (index@[alias] as int) < i
                        && records@[index@[alias] as int].alias@ == alias,
                forall|j: int|
                    0 <= j < i ==> index@.contains_key((#[trigger] records@[j]).alias@)
                        && index@[records@[j].alias@] == j,
                forall|j: int| 0 <= j < i ==> valid_record(#[trigger] table[j]),
            decreases records.len() - i,
        {
            let record = &records[i];
            if record.alias.as_str().is_empty() || record.destination.as_str().is_empty() {
                assert(!valid_record(table[i as int]));
                return Err(CorruptSnapshot::InvalidRecord);
            }
            if index.contains_key(record.alias.as_str()) {
                proof {
                    let j = index@[record.alias@] as int;
                    assert(table[j].alias == table[i as int].alias);
                }
                return Err(CorruptSnapshot::InvalidRecord);
            }
            index.insert(record.alias.clone(), i);
            i = i + 1;
        }
        proof {
            assert forall|j: int, k: int| 0 <= j < k < table.len() implies (#[trigger] table[j]).alias
                != (#[trigger] table[k]).alias by {
                assert(index@[records@[j].alias@] == j);
                assert(index@[records@[k].alias@] == k);
            }
        }
        Ok(Db { rows: records, index })
    }
}

/// Loads the table from what was read at the persisted location: `None` where
/// nothing is kept there, else the text found. Nothing kept gives an empty
/// table. A text gives the table of the records that the codec reads from it,
/// and is refused where the codec fails or the records form no valid table.
pub fn load_db(contents: Option<&str>) -> (r: Result<Db, CorruptSnapshot>)
    ensures
        contents is None ==> r is Ok && r->Ok_0.records() == Seq::<RecordView>::empty(),
        r matches Ok(db) ==> db.wf(),
        contents matches Some(text) ==> match load_result(parsed_snapshot(text@)) {
            Ok(records) => r matches Ok(db) && db.records() == records,
            Err(e) => r == Err::<Db, CorruptSnapshot>(e),
        },
{
    match contents {
        None => Ok(Db::new()),
        Some(text) => match parse_records(text) {
            Ok(records) => Db::from_records(records),
            Err(_) => Err(CorruptSnapshot::Unreadable),
        },
    }
}

/// Writes the table down as the text of a snapshot: the text that the codec
/// gives for the table read as a map, or an error where the codec gives none.
pub fn save_db(db: &Db) -> (r: Result<String, EncodeError>)
    requires
        db.wf(),
    ensures
        match snapshot_text(db@) {
            Some(text) => r matches Ok(saved) && saved@ == text,
            None => r == Err::<String, EncodeError>(EncodeError),
        },
{
    match encode_records(&db.rows) {
        Ok(text) => Ok(text),
        Err(_) => Err(EncodeError),
    }
}

} // verus!
