//! What passes between a collector and its user: the requests that the
//! collector makes, and the replies that the user hands back.

use vstd::prelude::*;
use bson::Document;
use crate::ranking::models;
use crate::record::{document_fields, FieldModel};

verus! {

/// One line of the server's listing of databases.
pub struct DatabaseEntry {
    pub name: String,
    /// Bytes that the database takes on disk.
    pub size_on_disk: u64,
}

/// The mathematical counterpart of a [`DatabaseEntry`].
pub ghost struct EntryModel {
    pub name: Seq<char>,
    pub size_on_disk: int,
}

impl View for DatabaseEntry {
    type V = EntryModel;

    open spec fn view(&self) -> EntryModel {
        EntryModel { name: self.name@, size_on_disk: self.size_on_disk as int }
    }
}

/// What the collector asks its user to do next.
pub enum Request {
    /// Check that the server answers.
    Ping,
    /// List the databases, each with its size on disk.
    ListDatabases,
    /// List the names of the collections of a database.
    ListCollections { database: String },
    /// Fetch the statistics record of a collection.
    CollectionStats { database: String, collection: String },
    /// Nothing more: the report is complete.
    Done,
    /// Give up the run.
    Abort { reason: String },
}

/// The mathematical counterpart of a [`Request`].
pub ghost enum RequestModel {
    Ping,
    ListDatabases,
    ListCollections { database: Seq<char> },
    CollectionStats { database: Seq<char>, collection: Seq<char> },
    Done,
    Abort { reason: Seq<char> },
}

impl View for Request {
    type V = RequestModel;

    open spec fn view(&self) -> RequestModel {
        match self {
            Request::Ping => RequestModel::Ping,
            Request::ListDatabases => RequestModel::ListDatabases,
            Request::ListCollections { database } => RequestModel::ListCollections {
                database: database@,
            },
            Request::CollectionStats { database, collection } => RequestModel::CollectionStats {
                database: database@,
                collection: collection@,
            },
            Request::Done => RequestModel::Done,
            Request::Abort { reason } => RequestModel::Abort { reason: reason@ },
        }
    }
}

/// What came of a request. Each reply holds either what was asked for or
/// the reason why it could not be had.
pub enum Reply {
    Pinged(Result<(), String>),
    Databases(Result<Vec<DatabaseEntry>, String>),
    Collections(Result<Vec<String>, String>),
    Stats(Result<Document, String>),
}

/// The mathematical counterpart of a [`Reply`]. A record is held as its
/// fields.
pub ghost enum ReplyModel {
    Pinged(Result<(), Seq<char>>),
    Databases(Result<Seq<EntryModel>, Seq<char>>),
    Collections(Result<Seq<Seq<char>>, Seq<char>>),
    Stats(Result<Map<Seq<char>, FieldModel>, Seq<char>>),
}

/// A reply to a request for statistics, over mathematical values.
pub open spec fn stats_reply_view(answer: Result<Document, String>) -> Result<
    Map<Seq<char>, FieldModel>,
    Seq<char>,
> {
    match answer {
        Ok(record) => Ok(document_fields(record)),
        Err(reason) => Err(reason@),
    }
}

impl View for Reply {
    type V = ReplyModel;

    open spec fn view(&self) -> ReplyModel {
        match self {
            Reply::Pinged(answer) => ReplyModel::Pinged(
                match answer {
                    Ok(_) => Ok(()),
                    Err(reason) => Err(reason@),
                },
            ),
            Reply::Databases(answer) => ReplyModel::Databases(
                match answer {
                    Ok(entries) => Ok(models(entries@)),
                    Err(reason) => Err(reason@),
                },
            ),
            Reply::Collections(answer) => ReplyModel::Collections(
                match answer {
                    Ok(names) => Ok(models(names@)),
                    Err(reason) => Err(reason@),
                },
            ),
            Reply::Stats(answer) => ReplyModel::Stats(stats_reply_view(*answer)),
        }
    }
}

} // verus!
