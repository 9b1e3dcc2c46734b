//! The mathematical model of the alias table.
//!
//! A table is a sequence of records in which no alias occurs twice. Read as a
//! map it sends each alias to its destination and visit count; the sequence
//! adds the order in which the records are listed.

use vstd::prelude::*;

verus! {

/// Every thousandth visit of an alias is a milestone.
pub const MILESTONE_EVERY: u64 = 1000;

/// The value of one record: an alias, where it leads, and how often it was followed.
pub struct RecordView {
    pub alias: Seq<char>,
    pub destination: Seq<char>,
    pub visits: nat,
}

/// A record is valid when neither its alias nor its destination is empty.
pub open spec fn valid_record(record: RecordView) -> bool {
    record.alias.len() > 0 && record.destination.len() > 0
}

/// No alias occurs at two places of the table.
pub open spec fn distinct_aliases(table: Seq<RecordView>) -> bool {
    forall|i: int, j: int|
        0 <= i < j < table.len() ==> (#[trigger] table[i]).alias != (#[trigger] table[j]).alias
}

/// A table is valid when its records are valid and their aliases distinct.
pub open spec fn valid_table(table: Seq<RecordView>) -> bool {
    &&& forall|i: int| 0 <= i < table.len() ==> valid_record(#[trigger] table[i])
    &&& distinct_aliases(table)
}

/// Some record of the table carries this alias.
pub open spec fn has_alias(table: Seq<RecordView>, alias: Seq<char>) -> bool {
    exists|i: int| 0 <= i < table.len() && (#[trigger] table[i]).alias == alias
}

/// The table read as a map from alias to destination and visit count. Where an
/// alias occurs more than once, its last record counts.
pub open spec fn table_map(table: Seq<RecordView>) -> Map<Seq<char>, (Seq<char>, nat)>
    decreases table.len(),
{
    if table.len() == 0 {
        Map::empty()
    } else {
        let last = table.last();
        table_map(table.drop_last()).insert(last.alias, (last.destination, last.visits))
    }
}

/// The record that creating `alias` for `destination` adds: no visit yet.
pub open spec fn fresh_record(alias: Seq<char>, destination: Seq<char>) -> RecordView {
    RecordView { alias, destination, visits: 0 }
}

/// The table after `alias` was created: unchanged where the alias is taken,
/// one fresh record longer where it is free.
pub open spec fn created(table: Seq<RecordView>, alias: Seq<char>, destination: Seq<char>) -> Seq<
    RecordView,
> {
    if has_alias(table, alias) {
        table
    } else {
        table.push(fresh_record(alias, destination))
    }
}

/// A record after one more visit.
pub open spec fn visited_record(record: RecordView) -> RecordView {
    RecordView { visits: record.visits + 1, ..record }
}

/// The table after one visit of `alias`: its record counts one more, every
/// other record is as before. A table without the alias stays as it is.
pub open spec fn visited(table: Seq<RecordView>, alias: Seq<char>) -> Seq<RecordView> {
    Seq::new(
        table.len(),
        |i: int|
            if table[i].alias == alias {
                visited_record(table[i])
            } else {
                table[i]
            },
    )
}

/// The table after `times` visits of `alias`, one after the other.
pub open spec fn visited_times(table: Seq<RecordView>, alias: Seq<char>, times: nat) -> Seq<
    RecordView,
>
    decreases times,
{
    if times == 0 {
        table
    } else {
        visited(visited_times(table, alias, (times - 1) as nat), alias)
    }
}

/// Whether the visit that brings a count to `visits` is a milestone.
pub open spec fn is_milestone(visits: nat) -> bool {
    visits % (MILESTONE_EVERY as nat) == 0
}

/// The aliases of the map are those of the table.
pub proof fn lemma_map_domain(table: Seq<RecordView>, alias: Seq<char>)
    ensures
        table_map(table).contains_key(alias) <==> has_alias(table, alias),
    decreases table.len(),
{
    if table.len() > 0 {
        let front = table.drop_last();
        lemma_map_domain(front, alias);
        if has_alias(front, alias) {
            let i = choose|i: int| 0 <= i < front.len() && (#[trigger] front[i]).alias == alias;
            assert(table[i].alias == alias);
        }
        if has_alias(table, alias) && table.last().alias != alias {
            let i = choose|i: int| 0 <= i < table.len() && (#[trigger] table[i]).alias == alias;
            assert(front[i].alias == alias);
        }
    }
}

/// In a table of distinct aliases the map holds, for the alias of each record,
/// that record's destination and count.
pub proof fn lemma_map_entry(table: Seq<RecordView>, i: int)
    requires
        distinct_aliases(table),
        0 <= i < table.len(),
    ensures
        table_map(table).contains_key(table[i].alias),
        table_map(table)[table[i].alias] == (table[i].destination, table[i].visits),
    decreases table.len(),
{
    if i < table.len() - 1 {
        let front = table.drop_last();
        assert(distinct_aliases(front)) by {
            assert forall|a: int, b: int| 0 <= a < b < front.len() implies (#[trigger] front[a]).alias
                != (#[trigger] front[b]).alias by {
                assert(table[a].alias != table[b].alias);
            }
        }
        lemma_map_entry(front, i);
        assert(table[i].alias != table.last().alias);
    }
}

/// Appending a record inserts it into the map.
pub proof fn lemma_map_push(table: Seq<RecordView>, record: RecordView)
    ensures
        table_map(table.push(record)) == table_map(table).insert(
            record.alias,
            (record.destination, record.visits),
        ),
{
    assert(table.push(record).drop_last() == table);
}

/// Appending a valid record under a free alias keeps a table valid.
pub proof fn lemma_push_valid(table: Seq<RecordView>, record: RecordView)
    requires
        valid_table(table),
        valid_record(record),
        !has_alias(table, record.alias),
    ensures
        valid_table(table.push(record)),
{
    let longer = table.push(record);
    assert forall|i: int, j: int| 0 <= i < j < longer.len() implies (#[trigger] longer[i]).alias
        != (#[trigger] longer[j]).alias by {
        if j < table.len() {
            assert(table[i].alias != table[j].alias);
        } else {
            assert(table[i].alias != record.alias);
        }
    }
}

/// The records of a table keep their aliases through a visit.
proof fn lemma_visited_aliases(table: Seq<RecordView>, alias: Seq<char>, other: Seq<char>)
    ensures
        has_alias(visited(table, alias), other) <==> has_alias(table, other),
{
    let after = visited(table, alias);
    if has_alias(after, other) {
        let i = choose|i: int| 0 <= i < after.len() && (#[trigger] after[i]).alias == other;
        assert(table[i].alias == other);
    }
    if has_alias(table, other) {
        let i = choose|i: int| 0 <= i < table.len() && (#[trigger] table[i]).alias == other;
        assert(after[i].alias == other);
    }
}

/// A visit keeps the aliases and the validity of a table.
pub proof fn lemma_visited_valid(table: Seq<RecordView>, alias: Seq<char>)
    requires
        valid_table(table),
    ensures
        valid_table(visited(table, alias)),
        forall|a: Seq<char>| has_alias(visited(table, alias), a) <==> has_alias(table, a),
{
    let after = visited(table, alias);
    assert forall|i: int, j: int| 0 <= i < j < after.len() implies (#[trigger] after[i]).alias
        != (#[trigger] after[j]).alias by {
        assert(table[i].alias != table[j].alias);
    }
    assert forall|a: Seq<char>| has_alias(after, a) <==> has_alias(table, a) by {
        lemma_visited_aliases(table, alias, a);
    }
}

/// Read as a map, a visit of a present alias replaces its count by the next
/// one and leaves every other entry alone.
pub proof fn lemma_visited_map(table: Seq<RecordView>, alias: Seq<char>)
    requires
        distinct_aliases(table),
        has_alias(table, alias),
    ensures
        table_map(table).contains_key(alias),
        table_map(visited(table, alias)) == table_map(table).insert(
            alias,
            (table_map(table)[alias].0, table_map(table)[alias].1 + 1),
        ),
{
    let after = visited(table, alias);
    let before_map = table_map(table);
    let expected = before_map.insert(alias, (before_map[alias].0, before_map[alias].1 + 1));
    lemma_map_domain(table, alias);
    assert(distinct_aliases(after)) by {
        assert forall|i: int, j: int| 0 <= i < j < after.len() implies (#[trigger] after[i]).alias
            != (#[trigger] after[j]).alias by {
            assert(table[i].alias != table[j].alias);
        }
    }
    assert forall|a: Seq<char>| table_map(after).contains_key(a) <==> expected.contains_key(
        a,
    ) by {
        lemma_map_domain(table, a);
        lemma_map_domain(after, a);
        lemma_visited_aliases(table, alias, a);
    }
    assert forall|a: Seq<char>| table_map(after).contains_key(a) implies table_map(after)[a]
        == expected[a] by {
        lemma_map_domain(after, a);
        let i = choose|i: int| 0 <= i < after.len() && (#[trigger] after[i]).alias == a;
        lemma_map_entry(after, i);
        lemma_map_entry(table, i);
    }
    assert(table_map(after) =~= expected);
}

} // verus!
