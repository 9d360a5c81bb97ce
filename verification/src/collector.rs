//! Gathering the figures of a server, one request at a time.
//!
//! The collector never talks to the server. It says which request is due;
//! its user performs the request and hands back the reply; the collector
//! takes the reply in and says which request is due next. What it holds at
//! any moment is described by the history of the replies that it took in.

use vstd::prelude::*;
use bson::Document;
use crate::history::{
    all_failures,
    failures,
    finished,
    lemma_gathered_push,
    lemma_ranked_push,
    lemma_record,
    lemma_successes_answered,
    lemma_visit,
    outcome,
    successes,
    History,
};
use crate::protocol::{stats_reply_view, DatabaseEntry, Reply, Request};
use crate::ranking::{insert_ranked_into, models, ranked};
use crate::record::{build_info_collection, stats_view, CollectionModel, InfoCollection};
use crate::report::{
    data_sum,
    index_sum,
    qualified,
    qualified_name,
    CollectionFailure,
    DatabaseModel,
    FailureModel,
    InfoDatabase,
    Report,
};

verus! {

/// The request that a collector waits for.
#[derive(Clone, Copy)]
enum Phase {
    Ping,
    Databases,
    Collections,
    Stats,
    Done,
    Aborted,
}

/// The most that the magnitude of one figure can be.
const FIGURE_LIMIT: i128 = 0x8000_0000_0000_0000;

/// Gathers the figures of a server from the replies to its requests.
pub struct Collector {
    phase: Phase,
    /// The listing of databases.
    databases: Vec<DatabaseEntry>,
    /// How many databases have had their collections listed.
    visited: usize,
    /// The listing of collections of the database at work.
    collections: Vec<String>,
    /// How many of them have had their reply.
    answered: usize,
    /// The figures of those that gave some, ranked.
    parsed: Vec<InfoCollection>,
    /// Their bytes of data on disk.
    data_sum: i128,
    /// Their bytes of indexes on disk.
    index_sum: i128,
    /// The databases that are complete, ranked.
    stat: Vec<InfoDatabase>,
    /// The collections that gave no figures.
    failed: Vec<CollectionFailure>,
    /// Why the run was given up.
    reason: String,
    history: Ghost<History>,
}

impl Collector {
    #[verifier::type_invariant]
    spec fn inv(self) -> bool {
        let h = self.history@;
        &&& h.runs.len() == self.visited
        &&& self.visited <= self.databases.len()
        &&& match h.listed {
            Some(entries) => models(self.databases@) == entries,
            None => self.databases.len() == 0,
        }
        &&& self.visited > 0 ==> h.runs.last().name == self.databases@[self.visited - 1]@.name
            && h.runs.last().size_on_disk == self.databases@[self.visited - 1]@.size_on_disk
        &&& models(self.stat@) == ranked::<InfoDatabase>(finished(h.runs))
        &&& models(self.failed@) == all_failures(h.runs)
        &&& match self.phase {
            Phase::Ping => h.aborted is None && !h.pinged && h.listed is None,
            Phase::Databases => h.aborted is None && h.pinged && h.listed is None,
            Phase::Collections => h.aborted is None && h.pinged && h.listed is Some && (self.visited
                == 0 || h.runs.last().complete()) && self.visited < self.databases.len(),
            Phase::Stats => {
                let run = h.runs.last();
                let gathered = successes(run.listing, run.replies);
                &&& h.aborted is None
                &&& h.pinged
                &&& h.listed is Some
                &&& self.visited > 0
                &&& run.listing == models(self.collections@)
                &&& run.replies.len() == self.answered
                &&& self.answered < self.collections.len()
                &&& models(self.parsed@) == ranked::<InfoCollection>(gathered)
                &&& self.data_sum == data_sum(gathered)
                &&& self.index_sum == index_sum(gathered)
                &&& -self.answered * FIGURE_LIMIT <= self.data_sum <= self.answered * FIGURE_LIMIT
                &&& -self.answered * FIGURE_LIMIT <= self.index_sum <= self.answered * FIGURE_LIMIT
            },
            Phase::Done => h.aborted is None && h.pinged && h.listed is Some && (self.visited == 0
                || h.runs.last().complete()) && self.visited == self.databases.len(),
            Phase::Aborted => h.aborted == Some(self.reason@),
        }
    }

    /// The replies that the collector has taken in.
    pub closed spec fn history(&self) -> History {
        self.history@
    }

    /// A collector that has taken in nothing.
    pub fn new() -> (collector: Collector)
        ensures
            collector.history() == History::start(),
    {
        let stat: Vec<InfoDatabase> = Vec::new();
        let failed: Vec<CollectionFailure> = Vec::new();
        proof {
            assert(models(stat@) =~= ranked::<InfoDatabase>(finished(History::start().runs)));
            assert(models(failed@) =~= all_failures(History::start().runs));
        }
        Collector {
            phase: Phase::Ping,
            databases: Vec::new(),
            visited: 0,
            collections: Vec::new(),
            answered: 0,
            parsed: Vec::new(),
            data_sum: 0,
            index_sum: 0,
            stat: stat,
            failed: failed,
            reason: String::new(),
            history: Ghost(History::start()),
        }
    }

    /// The request that is due.
    pub fn request(&self) -> (request: Request)
        ensures
            request@ == self.history().pending(),
    {
        proof {
            use_type_invariant(self);
        }
        match self.phase {
            Phase::Ping => Request::Ping,
            Phase::Databases => Request::ListDatabases,
            Phase::Collections => Request::ListCollections {
                database: self.databases[self.visited].name.clone(),
            },
            Phase::Stats => Request::CollectionStats {
                database: self.databases[self.visited - 1].name.clone(),
                collection: self.collections[self.answered].clone(),
            },
            Phase::Done => Request::Done,
            Phase::Aborted => Request::Abort { reason: self.reason.clone() },
        }
    }
}

impl Collector {
    /// Gives up the run.
    fn give_up(self, reason: String) -> (after: Collector)
        ensures
            after.history() == self.history().abort(reason@),
    {
        proof {
            use_type_invariant(&self);
        }
        let ghost history = self.history@.abort(reason@);
        Collector { phase: Phase::Aborted, reason: reason, history: Ghost(history), ..self }
    }

    /// Takes in the reply to the ping.
    fn take_ping(self, answer: Result<(), String>) -> (after: Collector)
        requires
            self.phase is Ping,
        ensures
            after.history() == self.history().advance(Reply::Pinged(answer)@),
    {
        proof {
            use_type_invariant(&self);
        }
        match answer {
            Ok(_) => {
                let ghost history = History { pinged: true, ..self.history@ };
                Collector { phase: Phase::Databases, history: Ghost(history), ..self }
            },
            Err(reason) => self.give_up(reason),
        }
    }

    /// Takes in the listing of databases.
    fn take_databases(self, answer: Result<Vec<DatabaseEntry>, String>) -> (after: Collector)
        requires
            self.phase is Databases,
        ensures
            after.history() == self.history().advance(Reply::Databases(answer)@),
    {
        proof {
            use_type_invariant(&self);
        }
        match answer {
            Ok(entries) => {
                let ghost history = History { listed: Some(models(entries@)), ..self.history@ };
                let phase = if entries.len() > 0 {
                    Phase::Collections
                } else {
                    Phase::Done
                };
                Collector { phase: phase, databases: entries, history: Ghost(history), ..self }
            },
            Err(reason) => self.give_up(reason),
        }
    }

    /// Takes in the listing of collections of the next database.
    fn take_collections(self, answer: Result<Vec<String>, String>) -> (after: Collector)
        requires
            self.phase is Collections,
        ensures
            after.history() == self.history().advance(Reply::Collections(answer)@),
    {
        proof {
            use_type_invariant(&self);
        }
        match answer {
            Ok(names) => {
                let ghost history = self.history@.visit(models(names@));
                proof {
                    lemma_visit(self.history@.runs, history.runs.last());
                }
                let visited = self.visited + 1;
                if names.len() > 0 {
                    let parsed: Vec<InfoCollection> = Vec::new();
                    proof {
                        assert(models(parsed@) =~= ranked::<InfoCollection>(
                            Seq::<CollectionModel>::empty(),
                        ));
                    }
                    Collector {
                        phase: Phase::Stats,
                        visited: visited,
                        collections: names,
                        answered: 0,
                        parsed: parsed,
                        data_sum: 0,
                        index_sum: 0,
                        history: Ghost(history),
                        ..self
                    }
                } else {
                    let Collector { databases, mut stat, failed, reason, .. } = self;
                    let done = complete_database(&databases[visited - 1], Vec::new(), 0, 0);
                    proof {
                        lemma_ranked_push(finished(self.history@.runs), history.runs.last().stats());
                        assert(done@.collections =~= ranked::<InfoCollection>(
                            Seq::<CollectionModel>::empty(),
                        ));
                        assert(done@ == history.runs.last().stats());
                    }
                    insert_ranked_into(&mut stat, done);
                    let phase = if visited < databases.len() {
                        Phase::Collections
                    } else {
                        Phase::Done
                    };
                    Collector {
                        phase: phase,
                        databases: databases,
                        visited: visited,
                        collections: Vec::new(),
                        answered: 0,
                        parsed: Vec::new(),
                        data_sum: 0,
                        index_sum: 0,
                        stat: stat,
                        failed: failed,
                        reason: reason,
                        history: Ghost(history),
                    }
                }
            },
            Err(reason) => self.give_up(reason),
        }
    }

    /// Takes in the reply for the next collection.
    fn take_stats(self, answer: Result<Document, String>) -> (after: Collector)
        requires
            self.phase is Stats,
        ensures
            after.history() == self.history().advance(Reply::Stats(answer)@),
    {
        proof {
            use_type_invariant(&self);
        }
        let ghost before = self.history@;
        let ghost history = before.record(stats_reply_view(answer));
        let ghost run = before.runs.last();
        proof {
            lemma_record(before.runs, stats_reply_view(answer));
            lemma_successes_answered(run, stats_reply_view(answer));
        }
        let Collector {
            databases,
            visited,
            collections,
            answered,
            mut parsed,
            mut data_sum,
            mut index_sum,
            mut stat,
            mut failed,
            reason,
            ..
        } = self;
        let figures = match answer {
            Ok(record) => build_info_collection(&collections[answered], record),
            Err(why) => Err(why),
        };
        assert(stats_view(figures) == outcome(run.listing[answered as int], stats_reply_view(answer)));
        match figures {
            Ok(info) => {
                proof {
                    lemma_gathered_push(successes(run.listing, run.replies), info@);
                }
                data_sum = data_sum + info.data_storage_size as i128;
                index_sum = index_sum + info.index_storage_size as i128;
                insert_ranked_into(&mut parsed, info);
            },
            Err(why) => {
                let name = qualified_name(
                    databases[visited - 1].name.as_str(),
                    collections[answered].as_str(),
                );
                let ghost failure = FailureModel {
                    qualified_name: qualified(run.name, run.listing[answered as int]),
                    reason: why@,
                };
                let ghost earlier = all_failures(before.runs.drop_last());
                let ghost here = failures(run.name, run.listing, run.replies);
                assert(name@ == failure.qualified_name);
                failed.push(CollectionFailure { qualified_name: name, reason: why });
                assert(models(failed@) =~= (earlier + here).push(failure));
                assert((earlier + here).push(failure) =~= earlier + here.push(failure));
            },
        }
        assert(models(failed@) == all_failures(history.runs));
        let answered = answered + 1;
        if answered < collections.len() {
            Collector {
                phase: Phase::Stats,
                databases: databases,
                visited: visited,
                collections: collections,
                answered: answered,
                parsed: parsed,
                data_sum: data_sum,
                index_sum: index_sum,
                stat: stat,
                failed: failed,
                reason: reason,
                history: Ghost(history),
            }
        } else {
            let done = complete_database(&databases[visited - 1], parsed, data_sum, index_sum);
            proof {
                lemma_ranked_push(finished(before.runs), history.runs.last().stats());
                assert(done@ == history.runs.last().stats());
            }
            insert_ranked_into(&mut stat, done);
            let phase = if visited < databases.len() {
                Phase::Collections
            } else {
                Phase::Done
            };
            Collector {
                phase: phase,
                databases: databases,
                visited: visited,
                collections: Vec::new(),
                answered: 0,
                parsed: Vec::new(),
                data_sum: 0,
                index_sum: 0,
                stat: stat,
                failed: failed,
                reason: reason,
                history: Ghost(history),
            }
        }
    }

    /// Takes in a reply and says which request is due next.
    pub fn step(self, reply: Reply) -> (next: (Collector, Request))
        ensures
            next.0.history() == self.history().advance(reply@),
            next.1@ == next.0.history().pending(),
    {
        proof {
            use_type_invariant(&self);
        }
        let after = match reply {
            Reply::Pinged(answer) => match self.phase {
                Phase::Ping => self.take_ping(answer),
                _ => self,
            },
            Reply::Databases(answer) => match self.phase {
                Phase::Databases => self.take_databases(answer),
                _ => self,
            },
            Reply::Collections(answer) => match self.phase {
                Phase::Collections => self.take_collections(answer),
                _ => self,
            },
            Reply::Stats(answer) => match self.phase {
                Phase::Stats => self.take_stats(answer),
                _ => self,
            },
        };
        let request = after.request();
        (after, request)
    }

    /// Hands out what the run has to report.
    pub fn into_report(self) -> (report: Report)
        ensures
            report@ == self.history().report(),
    {
        proof {
            use_type_invariant(&self);
        }
        Report { databases: self.stat, failed: self.failed }
    }
}

/// The figures of a database whose collections have all had their reply.
fn complete_database(
    entry: &DatabaseEntry,
    collections: Vec<InfoCollection>,
    data_sum: i128,
    index_sum: i128,
) -> (done: InfoDatabase)
    ensures
        done@ == (DatabaseModel {
            name: entry@.name,
            total_storage_size: entry@.size_on_disk,
            collections: models(collections@),
            data_storage_size: data_sum as int,
            index_storage_size: index_sum as int,
        }),
{
    InfoDatabase {
        name: entry.name.clone(),
        total_storage_size: entry.size_on_disk as i128,
        collections: collections,
        data_storage_size: data_sum,
        index_storage_size: index_sum,
    }
}

} // verus!
