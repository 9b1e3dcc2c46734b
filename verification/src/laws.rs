//! What holds of the table whatever the requests are, stated over the model
//! in which the contracts of the operations are written.

use crate::db::{load_result, CorruptSnapshot};
use crate::model::{
    created, distinct_aliases, fresh_record, has_alias, lemma_map_domain, lemma_map_entry,
    lemma_map_push, lemma_push_valid, lemma_visited_map, lemma_visited_valid, table_map,
    valid_record, valid_table, visited, visited_times, RecordView,
};
use crate::persist::{persist_step, PersistAction, PersistEvent, PersistPhase};
use vstd::prelude::*;

verus! {

/// The first to create an alias wins. After `alias` was created the table is
/// valid and has the alias; creating it once more, for whatever destination,
/// changes nothing. Where the alias was free it now leads to the destination
/// of the first creation, with no visit.
pub proof fn lemma_first_creation_wins(
    table: Seq<RecordView>,
    alias: Seq<char>,
    first: Seq<char>,
    second: Seq<char>,
)
    requires
        valid_table(table),
        alias.len() > 0,
        first.len() > 0,
    ensures
        valid_table(created(table, alias, first)),
        has_alias(created(table, alias, first), alias),
        created(created(table, alias, first), alias, second) == created(table, alias, first),
        !has_alias(table, alias) ==> table_map(created(table, alias, first))[alias] == (first, 0nat),
        has_alias(table, alias) ==> table_map(created(table, alias, first)) == table_map(table),
{
    if !has_alias(table, alias) {
        let record = fresh_record(alias, first);
        lemma_push_valid(table, record);
        lemma_map_push(table, record);
        assert(created(table, alias, first)[table.len() as int].alias == alias);
    }
}

/// Creating an alias takes nothing away: every alias that the table had keeps
/// its destination and its count.
pub proof fn lemma_creation_keeps_records(
    table: Seq<RecordView>,
    alias: Seq<char>,
    destination: Seq<char>,
    other: Seq<char>,
)
    requires
        has_alias(table, other),
    ensures
        table_map(created(table, alias, destination)).contains_key(other),
        table_map(created(table, alias, destination))[other] == table_map(table)[other],
{
    lemma_map_domain(table, other);
    if !has_alias(table, alias) {
        lemma_map_push(table, fresh_record(alias, destination));
    }
}

/// A visit of an alias that the table does not have changes nothing: no
/// record is made for it.
pub proof fn lemma_missing_alias_leaves_table(table: Seq<RecordView>, alias: Seq<char>)
    requires
        !has_alias(table, alias),
    ensures
        visited(table, alias) == table,
{
    assert forall|i: int| 0 <= i < table.len() implies (#[trigger] table[i]).alias != alias by {}
    assert(visited(table, alias) =~= table);
}

/// A visit changes one count and nothing else: the table keeps its aliases,
/// every alias keeps its destination, the visited alias counts one more and
/// every other alias counts what it did.
pub proof fn lemma_visit_changes_one_count(
    table: Seq<RecordView>,
    alias: Seq<char>,
    other: Seq<char>,
)
    requires
        valid_table(table),
        has_alias(table, other),
    ensures
        valid_table(visited(table, alias)),
        table_map(table).contains_key(other),
        table_map(visited(table, alias)).contains_key(other),
        table_map(visited(table, alias))[other].0 == table_map(table)[other].0,
        table_map(visited(table, alias))[other].1 == table_map(table)[other].1 + (if other
            == alias {
            1nat
        } else {
            0nat
        }),
{
    lemma_visited_valid(table, alias);
    lemma_map_domain(table, other);
    if has_alias(table, alias) {
        lemma_visited_map(table, alias);
    } else {
        lemma_missing_alias_leaves_table(table, alias);
    }
}

/// No visit is lost. After `times` visits of an alias that the table has, in
/// whatever order the callers took their turns, its count is `times` higher
/// and its destination is as before; the table is still valid.
pub proof fn lemma_visits_add_up(table: Seq<RecordView>, alias: Seq<char>, times: nat)
    requires
        valid_table(table),
        has_alias(table, alias),
    ensures
        valid_table(visited_times(table, alias, times)),
        has_alias(visited_times(table, alias, times), alias),
        table_map(table).contains_key(alias),
        table_map(visited_times(table, alias, times))[alias] == (
            table_map(table)[alias].0,
            table_map(table)[alias].1 + times,
        ),
    decreases times,
{
    lemma_map_domain(table, alias);
    if times > 0 {
        let before = visited_times(table, alias, (times - 1) as nat);
        lemma_visits_add_up(table, alias, (times - 1) as nat);
        lemma_visited_valid(before, alias);
        lemma_visited_map(before, alias);
    }
}

/// A new alias that was visited `times` times counts exactly `times`.
pub proof fn lemma_new_alias_counts_its_visits(
    table: Seq<RecordView>,
    alias: Seq<char>,
    destination: Seq<char>,
    times: nat,
)
    requires
        valid_table(table),
        !has_alias(table, alias),
        alias.len() > 0,
        destination.len() > 0,
    ensures
        table_map(visited_times(created(table, alias, destination), alias, times))[alias] == (
            destination,
            times,
        ),
{
    lemma_first_creation_wins(table, alias, destination, destination);
    lemma_visits_add_up(created(table, alias, destination), alias, times);
}

/// Loading takes every faithful listing of a valid table. Records with
/// distinct aliases that make the same map as a valid table form a valid
/// table themselves, so loading accepts them as they are.
pub proof fn lemma_faithful_listing_loads(table: Seq<RecordView>, listed: Seq<RecordView>)
    requires
        valid_table(table),
        distinct_aliases(listed),
        table_map(listed) == table_map(table),
    ensures
        valid_table(listed),
        load_result(Some(listed)) == Ok::<Seq<RecordView>, CorruptSnapshot>(listed),
{
    assert forall|i: int| 0 <= i < listed.len() implies valid_record(#[trigger] listed[i]) by {
        let alias = listed[i].alias;
        lemma_map_entry(listed, i);
        lemma_map_domain(table, alias);
        let j = choose|j: int| 0 <= j < table.len() && (#[trigger] table[j]).alias == alias;
        lemma_map_entry(table, j);
        assert(valid_record(table[j]));
    }
}

/// A failed save does not stop the persister. Whatever the outcome of a
/// save, the persister waits again, and the next tick starts the next save.
pub proof fn lemma_persister_keeps_going(phase: PersistPhase, outcome: PersistEvent)
    requires
        outcome != PersistEvent::Tick,
    ensures
        persist_step(phase, outcome).0 == PersistPhase::Waiting,
        persist_step(persist_step(phase, outcome).0, PersistEvent::Tick) == (
            PersistPhase::Saving,
            PersistAction::Save,
        ),
{
}

} // verus!
