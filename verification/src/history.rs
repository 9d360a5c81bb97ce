//! The history of a run: the replies that came, and what follows from
//! them.
//!
//! Everything that a run reports is a function of the replies alone: which
//! request is due, the figures of each database, the ranking, and the
//! collections that gave no figures.

use vstd::prelude::*;
use crate::protocol::{EntryModel, ReplyModel, RequestModel};
use crate::ranking::{descending, insert_ranked, lemma_ranked_descends, lemma_ranked_keeps, ranked};
use crate::record::{
    adds_up,
    collection_stats,
    lemma_count_is_required,
    CollectionModel,
    FieldModel,
    InfoCollection,
};
use crate::report::{
    data_sum,
    index_sum,
    lemma_sums_of_ranked,
    qualified,
    DatabaseModel,
    FailureModel,
    InfoDatabase,
    ReportModel,
};

verus! {

/// What a reply to a request for statistics means for the collection
/// `collection`: its figures, or the reason why it has none. A record
/// that could not be had fails the collection as a record that cannot be
/// read does.
pub open spec fn outcome(
    collection: Seq<char>,
    answer: Result<Map<Seq<char>, FieldModel>, Seq<char>>,
) -> Result<CollectionModel, Seq<char>> {
    match answer {
        Ok(fields) => collection_stats(collection, fields),
        Err(reason) => Err(reason),
    }
}

/// The figures of the collections that gave some, in the order of the
/// listing. `replies` answer the first names of `listing`.
pub open spec fn successes(
    listing: Seq<Seq<char>>,
    replies: Seq<Result<Map<Seq<char>, FieldModel>, Seq<char>>>,
) -> Seq<CollectionModel>
    decreases replies.len(),
{
    if replies.len() == 0 {
        Seq::empty()
    } else {
        let before = successes(listing, replies.drop_last());
        match outcome(listing[replies.len() - 1], replies.last()) {
            Ok(figures) => before.push(figures),
            Err(_) => before,
        }
    }
}

/// The collections of `database` that gave no figures, in the order of the
/// listing.
pub open spec fn failures(
    database: Seq<char>,
    listing: Seq<Seq<char>>,
    replies: Seq<Result<Map<Seq<char>, FieldModel>, Seq<char>>>,
) -> Seq<FailureModel>
    decreases replies.len(),
{
    if replies.len() == 0 {
        Seq::empty()
    } else {
        let before = failures(database, listing, replies.drop_last());
        let collection = listing[replies.len() - 1];
        match outcome(collection, replies.last()) {
            Ok(_) => before,
            Err(reason) => before.push(
                FailureModel { qualified_name: qualified(database, collection), reason: reason },
            ),
        }
    }
}

/// What is known of one database: its line of the listing of databases, the
/// listing of its collections, and the replies that came for the first of
/// them.
pub ghost struct DatabaseRun {
    pub name: Seq<char>,
    pub size_on_disk: int,
    pub listing: Seq<Seq<char>>,
    pub replies: Seq<Result<Map<Seq<char>, FieldModel>, Seq<char>>>,
}

impl DatabaseRun {
    /// Whether every collection of the listing has its reply.
    pub open spec fn complete(self) -> bool {
        self.replies.len() >= self.listing.len()
    }

    /// The figures of the database: the size that the listing of databases
    /// gave, the collections that gave figures, ranked, and the sums of
    /// data and of indexes over those collections alone.
    pub open spec fn stats(self) -> DatabaseModel {
        let gathered = successes(self.listing, self.replies);
        DatabaseModel {
            name: self.name,
            total_storage_size: self.size_on_disk,
            collections: ranked::<InfoCollection>(gathered),
            data_storage_size: data_sum(gathered),
            index_storage_size: index_sum(gathered),
        }
    }

    /// The run with one more reply.
    pub open spec fn answered(self, answer: Result<Map<Seq<char>, FieldModel>, Seq<char>>) -> Self {
        DatabaseRun { replies: self.replies.push(answer), ..self }
    }
}

/// The figures of the databases that are complete, in the order of the
/// listing.
pub open spec fn finished(runs: Seq<DatabaseRun>) -> Seq<DatabaseModel>
    decreases runs.len(),
{
    if runs.len() == 0 {
        Seq::empty()
    } else if runs.last().complete() {
        finished(runs.drop_last()).push(runs.last().stats())
    } else {
        finished(runs.drop_last())
    }
}

/// The collections that gave no figures, in the order in which they were
/// met.
pub open spec fn all_failures(runs: Seq<DatabaseRun>) -> Seq<FailureModel>
    decreases runs.len(),
{
    if runs.len() == 0 {
        Seq::empty()
    } else {
        all_failures(runs.drop_last()) + failures(
            runs.last().name,
            runs.last().listing,
            runs.last().replies,
        )
    }
}

/// The replies that a collector has taken in.
pub ghost struct History {
    /// Whether the server has answered the ping.
    pub pinged: bool,
    /// The listing of databases, once it has come.
    pub listed: Option<Seq<EntryModel>>,
    /// The databases whose collections have been listed, in the order of
    /// the listing of databases.
    pub runs: Seq<DatabaseRun>,
    /// The reason why the run was given up, if it was.
    pub aborted: Option<Seq<char>>,
}

impl History {
    /// The history of a collector that has taken in nothing.
    pub open spec fn start() -> History {
        History { pinged: false, listed: None, runs: Seq::empty(), aborted: None }
    }

    /// The request that is due. Databases are taken in the order of their
    /// listing, and the collections of each in the order of theirs; a
    /// database is left when each of its collections has had its reply.
    pub open spec fn pending(self) -> RequestModel {
        if self.aborted is Some {
            RequestModel::Abort { reason: self.aborted->0 }
        } else if !self.pinged {
            RequestModel::Ping
        } else if self.listed is None {
            RequestModel::ListDatabases
        } else if self.runs.len() > 0 && !self.runs.last().complete() {
            RequestModel::CollectionStats {
                database: self.runs.last().name,
                collection: self.runs.last().listing[self.runs.last().replies.len() as int],
            }
        } else if self.runs.len() < self.listed->0.len() {
            RequestModel::ListCollections { database: self.listed->0[self.runs.len() as int].name }
        } else {
            RequestModel::Done
        }
    }

    /// The history of a run that is given up.
    pub open spec fn abort(self, reason: Seq<char>) -> History {
        History { aborted: Some(reason), ..self }
    }

    /// The history after the next database's collections were listed.
    pub open spec fn visit(self, listing: Seq<Seq<char>>) -> History {
        let entry = self.listed->0[self.runs.len() as int];
        History {
            runs: self.runs.push(
                DatabaseRun {
                    name: entry.name,
                    size_on_disk: entry.size_on_disk,
                    listing: listing,
                    replies: Seq::empty(),
                },
            ),
            ..self
        }
    }

    /// The history after the next collection's reply came.
    pub open spec fn record(self, answer: Result<Map<Seq<char>, FieldModel>, Seq<char>>) -> History {
        History {
            runs: self.runs.update(self.runs.len() - 1, self.runs.last().answered(answer)),
            ..self
        }
    }

    /// The history after one more reply. A reply that answers the request
    /// that is due is taken in: a record of statistics that could not be had
    /// counts against its collection alone, any other failure ends the run.
    /// A reply to another request changes nothing.
    pub open spec fn advance(self, reply: ReplyModel) -> History {
        match (self.pending(), reply) {
            (RequestModel::Ping, ReplyModel::Pinged(Ok(_))) => History { pinged: true, ..self },
            (RequestModel::Ping, ReplyModel::Pinged(Err(reason))) => self.abort(reason),
            (RequestModel::ListDatabases, ReplyModel::Databases(Ok(entries))) => History {
                listed: Some(entries),
                ..self
            },
            (RequestModel::ListDatabases, ReplyModel::Databases(Err(reason))) => self.abort(reason),
            (RequestModel::ListCollections { .. }, ReplyModel::Collections(Ok(listing))) => self.visit(
                listing,
            ),
            (RequestModel::ListCollections { .. }, ReplyModel::Collections(Err(reason))) => self.abort(
                reason,
            ),
            (RequestModel::CollectionStats { .. }, ReplyModel::Stats(answer)) => self.record(answer),
            _ => self,
        }
    }

    /// What the run has to report: the databases that are complete, ranked,
    /// and the collections that gave no figures.
    pub open spec fn report(self) -> ReportModel {
        ReportModel {
            databases: ranked::<InfoDatabase>(finished(self.runs)),
            failed: all_failures(self.runs),
        }
    }

    /// Whether the history is one that replies can have made: the
    /// databases were listed after the ping was answered and before any
    /// collections were, each database at work is the next of the listing,
    /// no collection has more than one reply, and only the last database
    /// may still lack replies.
    pub open spec fn valid(self) -> bool {
        &&& self.listed is None ==> self.runs.len() == 0
        &&& self.listed is Some ==> self.pinged && self.runs.len() <= self.listed->0.len()
        &&& forall|i: int|
            0 <= i < self.runs.len() ==> {
                let run = #[trigger] self.runs[i];
                &&& run.name == self.listed->0[i].name
                &&& run.size_on_disk == self.listed->0[i].size_on_disk
                &&& run.replies.len() <= run.listing.len()
                &&& i < self.runs.len() - 1 ==> run.complete()
            }
    }
}

/// Whether the figures of a database cohere: no collection is followed by
/// a larger one, the total of each collection is the sum of its data and
/// its indexes, and the sums of the database are those over its
/// collections.
pub open spec fn coherent(database: DatabaseModel) -> bool {
    &&& descending::<InfoCollection>(database.collections)
    &&& forall|i: int|
        0 <= i < database.collections.len() ==> adds_up(#[trigger] database.collections[i])
    &&& database.data_storage_size == data_sum(database.collections)
    &&& database.index_storage_size == index_sum(database.collections)
}

/// The history of a collector that has taken in nothing is valid.
pub proof fn lemma_start_is_valid()
    ensures
        History::start().valid(),
{
}

/// A valid history stays valid, whatever the reply.
pub proof fn lemma_advance_keeps_valid(history: History, reply: ReplyModel)
    requires
        history.valid(),
    ensures
        history.advance(reply).valid(),
{
    let after = history.advance(reply);
    assert forall|i: int| 0 <= i < after.runs.len() implies {
        let run = #[trigger] after.runs[i];
        &&& run.name == after.listed->0[i].name
        &&& run.size_on_disk == after.listed->0[i].size_on_disk
        &&& run.replies.len() <= run.listing.len()
        &&& i < after.runs.len() - 1 ==> run.complete()
    } by {
        if i < history.runs.len() - 1 {
            assert(after.runs[i] == history.runs[i]);
        } else if i < history.runs.len() {
            assert(history.runs[i] == history.runs.last());
        }
    }
}

/// A run that is complete or given up takes in nothing more.
pub proof fn lemma_the_end_is_final(history: History, reply: ReplyModel)
    requires
        history.pending() is Done || history.pending() is Abort,
    ensures
        history.advance(reply) == history,
{
}

/// A failure to answer the ping, to list the databases or to list the
/// collections of a database gives the run up at once, for the reason that
/// the reply gives.
pub proof fn lemma_failure_to_list_is_fatal(history: History, reason: Seq<char>)
    ensures
        history.pending() is Ping ==> history.advance(ReplyModel::Pinged(Err(reason))).pending()
            == (RequestModel::Abort { reason: reason }),
        history.pending() is ListDatabases ==> history.advance(
            ReplyModel::Databases(Err(reason)),
        ).pending() == (RequestModel::Abort { reason: reason }),
        history.pending() is ListCollections ==> history.advance(
            ReplyModel::Collections(Err(reason)),
        ).pending() == (RequestModel::Abort { reason: reason }),
{
}

/// The figures of the databases, where each of them is complete.
proof fn lemma_finished_of_complete(runs: Seq<DatabaseRun>)
    requires
        forall|i: int| 0 <= i < runs.len() ==> (#[trigger] runs[i]).complete(),
    ensures
        finished(runs).len() == runs.len(),
        forall|i: int| 0 <= i < runs.len() ==> #[trigger] finished(runs)[i] == runs[i].stats(),
    decreases runs.len(),
{
    if runs.len() > 0 {
        let front = runs.drop_last();
        assert forall|i: int| 0 <= i < front.len() implies (#[trigger] front[i]).complete() by {
            assert(front[i] == runs[i]);
        }
        lemma_finished_of_complete(front);
        assert(runs.last() == runs[runs.len() - 1]);
        assert forall|i: int| 0 <= i < runs.len() implies #[trigger] finished(runs)[i]
            == runs[i].stats() by {
            if i < front.len() {
                assert(front[i] == runs[i]);
                assert(finished(runs)[i] == finished(front)[i]);
            }
        }
    }
}

/// When nothing more is due, the report is complete: it ranks the figures
/// of every database of the listing, each under its name and with the size
/// that the listing gave, and every collection has had its reply.
pub proof fn lemma_done_is_complete(history: History)
    requires
        history.valid(),
        history.pending() is Done,
    ensures
        history.listed is Some,
        history.runs.len() == history.listed->0.len(),
        finished(history.runs).len() == history.listed->0.len(),
        forall|i: int|
            0 <= i < history.runs.len() ==> {
                let run = #[trigger] history.runs[i];
                &&& finished(history.runs)[i] == run.stats()
                &&& run.stats().name == history.listed->0[i].name
                &&& run.stats().total_storage_size == history.listed->0[i].size_on_disk
                &&& run.replies.len() == run.listing.len()
            },
        history.report().databases == ranked::<InfoDatabase>(finished(history.runs)),
{
    let runs = history.runs;
    assert forall|i: int| 0 <= i < runs.len() implies (#[trigger] runs[i]).complete() by {
        if i == runs.len() - 1 {
            assert(runs[i] == runs.last());
        }
    }
    lemma_finished_of_complete(runs);
}

/// The figures of a database cohere.
pub proof fn lemma_stats_cohere(run: DatabaseRun)
    ensures
        coherent(run.stats()),
{
    let gathered = successes(run.listing, run.replies);
    lemma_ranked_descends::<InfoCollection>(gathered);
    lemma_sums_of_ranked(gathered);
    lemma_successes_add_up(run.listing, run.replies);
    lemma_ranked_keeps::<InfoCollection>(gathered, |figures: CollectionModel| adds_up(figures));
}

/// The total of each collection that gave figures is the sum of its data
/// and its indexes.
pub proof fn lemma_successes_add_up(
    listing: Seq<Seq<char>>,
    replies: Seq<Result<Map<Seq<char>, FieldModel>, Seq<char>>>,
)
    ensures
        forall|i: int|
            0 <= i < successes(listing, replies).len() ==> adds_up(
                #[trigger] successes(listing, replies)[i],
            ),
    decreases replies.len(),
{
    if replies.len() > 0 {
        lemma_successes_add_up(listing, replies.drop_last());
        let before = successes(listing, replies.drop_last());
        let after = successes(listing, replies);
        assert forall|i: int| 0 <= i < after.len() implies adds_up(#[trigger] after[i]) by {
            if i < before.len() {
                assert(after[i] == before[i]);
            }
        }
    }
}

/// Every reply counts once: for its collection's figures, or against its
/// collection.
pub proof fn lemma_each_reply_counts_once(run: DatabaseRun)
    ensures
        successes(run.listing, run.replies).len() + failures(
            run.name,
            run.listing,
            run.replies,
        ).len() == run.replies.len(),
    decreases run.replies.len(),
{
    if run.replies.len() > 0 {
        lemma_each_reply_counts_once(DatabaseRun { replies: run.replies.drop_last(), ..run });
    }
}

/// A reply that gives no figures sets its collection aside: the
/// collection joins the failures under its qualified name, and the figures
/// of its database, the sums among them, are as they were.
pub proof fn lemma_failure_is_set_aside(
    run: DatabaseRun,
    answer: Result<Map<Seq<char>, FieldModel>, Seq<char>>,
)
    requires
        outcome(run.listing[run.replies.len() as int], answer) is Err,
    ensures
        run.answered(answer).stats() == run.stats(),
        failures(run.name, run.listing, run.answered(answer).replies) == failures(
            run.name,
            run.listing,
            run.replies,
        ).push(
            FailureModel {
                qualified_name: qualified(run.name, run.listing[run.replies.len() as int]),
                reason: outcome(run.listing[run.replies.len() as int], answer)->Err_0,
            },
        ),
{
    lemma_successes_answered(run, answer);
}

/// A reply that gives no figures adds one failure to the report, that of
/// the collection that was asked for, under the name of its database, a dot
/// and its own name. The run goes on.
pub proof fn lemma_failure_is_reported(
    history: History,
    answer: Result<Map<Seq<char>, FieldModel>, Seq<char>>,
)
    requires
        history.pending() is CollectionStats,
        outcome(history.pending()->CollectionStats_collection, answer) is Err,
    ensures
        history.advance(ReplyModel::Stats(answer)).report().failed == history.report().failed.push(
            FailureModel {
                qualified_name: qualified(
                    history.pending()->CollectionStats_database,
                    history.pending()->CollectionStats_collection,
                ),
                reason: outcome(history.pending()->CollectionStats_collection, answer)->Err_0,
            },
        ),
        history.advance(ReplyModel::Stats(answer)).aborted is None,
{
    let run = history.runs.last();
    lemma_record(history.runs, answer);
    lemma_successes_answered(run, answer);
    let earlier = all_failures(history.runs.drop_last());
    let here = failures(run.name, run.listing, run.replies);
    let after = failures(run.name, run.listing, run.answered(answer).replies);
    assert(earlier + after =~= (earlier + here).push(after.last()));
}

/// A record that lacks `count` sets its collection aside: the report gains
/// one failure, under the name of the database, a dot and the name of the
/// collection, and the figures of the database, its sums among them, are
/// what they were without the collection.
pub proof fn lemma_record_without_count(history: History, fields: Map<Seq<char>, FieldModel>)
    requires
        history.pending() is CollectionStats,
        !fields.contains_key("count"@),
    ensures
        ({
            let after = history.advance(ReplyModel::Stats(Ok(fields)));
            &&& after.report().failed.drop_last() == history.report().failed
            &&& after.report().failed.last().qualified_name == qualified(
                history.pending()->CollectionStats_database,
                history.pending()->CollectionStats_collection,
            )
            &&& after.runs.last().stats() == history.runs.last().stats()
            &&& after.pending() !is Abort
        }),
{
    let collection = history.pending()->CollectionStats_collection;
    let answer = Ok::<Map<Seq<char>, FieldModel>, Seq<char>>(fields);
    lemma_count_is_required(collection, fields);
    lemma_failure_is_reported(history, answer);
    lemma_failure_is_set_aside(history.runs.last(), answer);
    let failed = history.report().failed;
    let after = history.advance(ReplyModel::Stats(answer));
    assert(after.report().failed.drop_last() =~= failed);
    assert(after.runs.last() == history.runs.last().answered(answer));
}

/// One more reply adds the figures of its collection, if it gives any.
pub proof fn lemma_successes_answered(run: DatabaseRun, answer: Result<Map<Seq<char>, FieldModel>, Seq<char>>)
    ensures
        successes(run.listing, run.answered(answer).replies) == match outcome(
            run.listing[run.replies.len() as int],
            answer,
        ) {
            Ok(figures) => successes(run.listing, run.replies).push(figures),
            Err(_) => successes(run.listing, run.replies),
        },
        failures(run.name, run.listing, run.answered(answer).replies) == match outcome(
            run.listing[run.replies.len() as int],
            answer,
        ) {
            Ok(_) => failures(run.name, run.listing, run.replies),
            Err(reason) => failures(run.name, run.listing, run.replies).push(
                FailureModel {
                    qualified_name: qualified(run.name, run.listing[run.replies.len() as int]),
                    reason: reason,
                },
            ),
        },
{
    let after = run.replies.push(answer);
    assert(after.drop_last() =~= run.replies);
    assert(after.last() == answer);
}

/// What changes when the last database gets one more reply.
pub proof fn lemma_record(runs: Seq<DatabaseRun>, answer: Result<Map<Seq<char>, FieldModel>, Seq<char>>)
    requires
        runs.len() > 0,
        !runs.last().complete(),
    ensures
        ({
            let after = runs.last().answered(answer);
            let next = runs.update(runs.len() - 1, after);
            &&& all_failures(next) == all_failures(runs.drop_last()) + failures(
                after.name,
                after.listing,
                after.replies,
            )
            &&& all_failures(runs) == all_failures(runs.drop_last()) + failures(
                after.name,
                after.listing,
                runs.last().replies,
            )
            &&& finished(runs) == finished(runs.drop_last())
            &&& finished(next) == if after.complete() {
                finished(runs).push(after.stats())
            } else {
                finished(runs)
            }
        }),
{
    let after = runs.last().answered(answer);
    let next = runs.update(runs.len() - 1, after);
    assert(next.drop_last() =~= runs.drop_last());
    assert(next.last() == after);
}

/// What changes when the collections of one more database are listed.
pub proof fn lemma_visit(runs: Seq<DatabaseRun>, run: DatabaseRun)
    requires
        run.replies.len() == 0,
    ensures
        all_failures(runs.push(run)) == all_failures(runs),
        finished(runs.push(run)) == if run.complete() {
            finished(runs).push(run.stats())
        } else {
            finished(runs)
        },
        successes(run.listing, run.replies) == Seq::<CollectionModel>::empty(),
{
    let next = runs.push(run);
    assert(next.drop_last() =~= runs);
    assert(next.last() == run);
    assert(all_failures(runs) + failures(run.name, run.listing, run.replies) =~= all_failures(runs));
}

/// A ranking with one more item at its end.
pub proof fn lemma_ranked_push(items: Seq<DatabaseModel>, x: DatabaseModel)
    ensures
        ranked::<InfoDatabase>(items.push(x)) == insert_ranked::<InfoDatabase>(
            ranked::<InfoDatabase>(items),
            x,
        ),
{
    assert(items.push(x).drop_last() =~= items);
}

/// The sums and the ranking of a sequence of figures with one more at its
/// end.
pub proof fn lemma_gathered_push(items: Seq<CollectionModel>, x: CollectionModel)
    ensures
        ranked::<InfoCollection>(items.push(x)) == insert_ranked::<InfoCollection>(
            ranked::<InfoCollection>(items),
            x,
        ),
        data_sum(items.push(x)) == data_sum(items) + x.data_storage_size,
        index_sum(items.push(x)) == index_sum(items) + x.index_storage_size,
{
    assert(items.push(x).drop_last() =~= items);
}

} // verus!
