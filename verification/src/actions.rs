//! What the service does for a request: list the statistics, create an alias,
//! follow an alias, and answer a rejection.

use crate::db::{AliasRecord, Db};
use crate::laws::lemma_missing_alias_leaves_table;
use crate::model::{
    created, is_milestone, lemma_map_domain, lemma_map_entry, lemma_visited_map, visited,
    RecordView, MILESTONE_EVERY,
};
use vstd::prelude::*;

verus! {

/// The status of the answer to a rejection that is taken for "not found".
pub const NOT_FOUND_STATUS: u16 = 404;

/// One line of the statistics: an alias and how often it was followed.
#[derive(Debug, Clone, PartialEq, Eq)]
pub struct Stats {
    alias: String,
    count: u64,
}

/// The value of one line of the statistics.
pub struct StatsView {
    pub alias: Seq<char>,
    pub count: nat,
}

impl View for Stats {
    type V = StatsView;

    closed spec fn view(&self) -> StatsView {
        StatsView { alias: self.alias@, count: self.count as nat }
    }
}

impl Stats {
    /// A line of the statistics.
    pub fn new(alias: String, count: u64) -> (line: Stats)
        ensures
            line@ == (StatsView { alias: alias@, count: count as nat }),
    {
        Stats { alias, count }
    }

    /// The alias of this line.
    pub fn alias(&self) -> (alias: &String)
        ensures
            alias@ == self@.alias,
    {
        &self.alias
    }

    /// The visit count of this line.
    pub fn count(&self) -> (count: u64)
        ensures
            count == self@.count,
    {
        self.count
    }
}

/// The values of a list of statistics.
pub open spec fn stats_views(list: Seq<Stats>) -> Seq<StatsView> {
    list.map_values(|s: Stats| s@)
}

/// The statistics of a table: for each record, in order, its alias and count.
pub open spec fn stats_of(table: Seq<RecordView>) -> Seq<StatsView> {
    table.map_values(|r: RecordView| StatsView { alias: r.alias, count: r.visits })
}

/// The body of a request to create an alias.
#[derive(Debug, Clone, PartialEq, Eq)]
pub struct CreateAliasRequest {
    pub url: String,
}

/// Why a request was turned down.
#[derive(Debug, Clone, Copy, PartialEq, Eq, Structural)]
pub enum Rejection {
    /// No record of the alias.
    NotFound,
    /// The alias is taken.
    Conflict,
    /// Any other reason, of which the handlers know nothing.
    Other,
}

impl Rejection {
    /// Whether the service answers this rejection as "not found". A conflict
    /// is answered so as well: clients of the service have come to expect it,
    /// though 409 would name the failure more exactly.
    pub open spec fn answered_as_not_found(self) -> bool {
        self == Rejection::NotFound || self == Rejection::Conflict
    }

    /// Whether the service answers this rejection as "not found".
    pub fn is_not_found(&self) -> (yes: bool)
        ensures
            yes == self.answered_as_not_found(),
    {
        match self {
            Rejection::NotFound => true,
            Rejection::Conflict => true,
            Rejection::Other => false,
        }
    }
}

/// Where to send the visitor of an alias, and what the visit came to.
#[derive(Debug, Clone, PartialEq, Eq)]
pub struct Redirect {
    /// The destination of the alias.
    pub location: String,
    /// The visit count of the alias, this visit included.
    pub visits: u64,
    /// Whether this visit is a milestone, to be reported in the log.
    pub milestone: bool,
}

/// A status and a plain body to answer with.
#[derive(Debug, Clone, PartialEq, Eq)]
pub struct Reply {
    pub status: u16,
    pub body: String,
}

/// Lists the statistics: one line for each record of the table, in the
/// table's order, all taken from the one state of the table that is passed in.
pub fn stats(db: &Db) -> (list: Vec<Stats>)
    requires
        db.wf(),
    ensures
        stats_views(list@) == stats_of(db.records()),
        list@.len() == db.records().len(),
        forall|i: int|
            0 <= i < list@.len() ==> db@.contains_key((#[trigger] list@[i])@.alias)
                && db@[list@[i]@.alias].1 == list@[i]@.count,
{
    let rows = db.rows();
    let mut list: Vec<Stats> = Vec::new();
    let mut i: usize = 0;
    while i < rows.len()
        invariant
            i <= rows.len(),
            list@.len() == i,
            forall|j: int|
                0 <= j < i ==> (#[trigger] list@[j])@ == (StatsView {
                    alias: rows@[j]@.alias,
                    count: rows@[j]@.visits,
                }),
        decreases rows.len() - i,
    {
        let row = &rows[i];
        list.push(Stats { alias: row.alias.clone(), count: row.visits });
        i = i + 1;
    }
    proof {
        assert(stats_views(list@) =~= stats_of(db.records()));
        assert forall|i: int| 0 <= i < list@.len() implies db@.contains_key(
            (#[trigger] list@[i])@.alias,
        ) && db@[list@[i]@.alias].1 == list@[i]@.count by {
            lemma_map_entry(db.records(), i);
        }
    }
    list
}

/// Creates `alias` for the destination of the request, with no visit yet. An
/// alias that the table already has is left as it is, and the request is
/// turned down as a conflict.
pub fn create_alias(alias: String, req: CreateAliasRequest, db: &mut Db) -> (r: Result<
    (),
    Rejection,
>)
    requires
        old(db).wf(),
        alias@.len() > 0,
        req.url@.len() > 0,
    ensures
        final(db).wf(),
        final(db).records() == created(old(db).records(), alias@, req.url@),
        match r {
            Ok(_) => !old(db)@.contains_key(alias@) && final(db)@ == old(db)@.insert(
                alias@,
                (req.url@, 0nat),
            ),
            Err(e) => e == Rejection::Conflict && old(db)@.contains_key(alias@) && *final(db)
                == *old(db),
        },
{
    proof {
        lemma_map_domain(db.records(), alias@);
    }
    if db.contains_key(&alias) {
        return Err(Rejection::Conflict);
    }
    db.append(AliasRecord { alias, destination: req.url, visits: 0 });
    Ok(())
}

/// Follows `alias`: counts the visit and hands out the destination, the new
/// count and whether it is a milestone. An alias that the table does not have
/// is turned down as not found, and the table stays as it is.
///
/// The count of the alias must be below `u64::MAX`, the largest that a record holds.
pub fn view_data(alias: String, db: &mut Db) -> (r: Result<Redirect, Rejection>)
    requires
        old(db).wf(),
        old(db)@.contains_key(alias@) ==> old(db)@[alias@].1 < u64::MAX,
    ensures
        final(db).wf(),
        final(db).records() == visited(old(db).records(), alias@),
        match r {
            Ok(redirect) => {
                &&& old(db)@.contains_key(alias@)
                &&& redirect.location@ == old(db)@[alias@].0
                &&& redirect.visits == old(db)@[alias@].1 + 1
                &&& redirect.milestone == is_milestone(redirect.visits as nat)
                &&& final(db)@ == old(db)@.insert(
                    alias@,
                    (old(db)@[alias@].0, old(db)@[alias@].1 + 1),
                )
            },
            Err(e) => e == Rejection::NotFound && !old(db)@.contains_key(alias@) && *final(db)
                == *old(db),
        },
{
    proof {
        lemma_map_domain(db.records(), alias@);
    }
    match db.position(&alias) {
        Some(place) => {
            proof {
                lemma_map_entry(db.records(), place as int);
                lemma_visited_map(db.records(), alias@);
            }
            let (location, visits) = db.count_visit(place);
            Ok(Redirect { location, visits, milestone: visits % MILESTONE_EVERY == 0 })
        },
        None => {
            proof {
                lemma_missing_alias_leaves_table(db.records(), alias@);
            }
            Err(Rejection::NotFound)
        },
    }
}

/// Answers a rejection: one that is taken for "not found" gets the reply 404
/// with the body "Not Found"; any other is handed back untouched.
pub fn handle_rejection(err: Rejection) -> (r: Result<Reply, Rejection>)
    ensures
        match r {
            Ok(reply) => err.answered_as_not_found() && reply.status == NOT_FOUND_STATUS
                && reply.body@ == "Not Found"@,
            Err(e) => !err.answered_as_not_found() && e == err,
        },
{
    if err.is_not_found() {
        Ok(Reply { status: NOT_FOUND_STATUS, body: "Not Found".to_owned() })
    } else {
        Err(err)
    }
}

} // verus!
