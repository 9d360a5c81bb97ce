//! What a run reports: the figures of each database, and the collections
//! that gave none.

use vstd::prelude::*;
use crate::ranking::{insert_ranked, models, ranked, Ranked};
use crate::record::{CollectionModel, InfoCollection};

verus! {

/// The figures of one database.
pub struct InfoDatabase {
    pub name: String,
    /// Bytes on disk, as the server's listing of databases says.
    pub total_storage_size: i128,
    /// The collections that gave figures, the largest first.
    pub collections: Vec<InfoCollection>,
    /// Bytes on disk that hold data, summed over `collections`.
    pub data_storage_size: i128,
    /// Bytes on disk that hold indexes, summed over `collections`.
    pub index_storage_size: i128,
}

/// The mathematical counterpart of an [`InfoDatabase`].
pub ghost struct DatabaseModel {
    pub name: Seq<char>,
    pub total_storage_size: int,
    pub collections: Seq<CollectionModel>,
    pub data_storage_size: int,
    pub index_storage_size: int,
}

impl View for InfoDatabase {
    type V = DatabaseModel;

    open spec fn view(&self) -> DatabaseModel {
        DatabaseModel {
            name: self.name@,
            total_storage_size: self.total_storage_size as int,
            collections: models(self.collections@),
            data_storage_size: self.data_storage_size as int,
            index_storage_size: self.index_storage_size as int,
        }
    }
}

/// A collection that gave no figures.
pub struct CollectionFailure {
    /// The database's name, a dot and the collection's name.
    pub qualified_name: String,
    /// Why the collection gave no figures.
    pub reason: String,
}

/// The mathematical counterpart of a [`CollectionFailure`].
pub ghost struct FailureModel {
    pub qualified_name: Seq<char>,
    pub reason: Seq<char>,
}

impl View for CollectionFailure {
    type V = FailureModel;

    open spec fn view(&self) -> FailureModel {
        FailureModel { qualified_name: self.qualified_name@, reason: self.reason@ }
    }
}

/// The outcome of a run.
pub struct Report {
    /// The databases, the largest first.
    pub databases: Vec<InfoDatabase>,
    /// The collections that gave no figures, in the order in which they
    /// were met.
    pub failed: Vec<CollectionFailure>,
}

/// The mathematical counterpart of a [`Report`].
pub ghost struct ReportModel {
    pub databases: Seq<DatabaseModel>,
    pub failed: Seq<FailureModel>,
}

impl View for Report {
    type V = ReportModel;

    open spec fn view(&self) -> ReportModel {
        ReportModel { databases: models(self.databases@), failed: models(self.failed@) }
    }
}

impl Ranked for InfoCollection {
    open spec fn size_of(model: CollectionModel) -> int {
        model.total_storage_size
    }

    fn total_size(&self) -> (size: i128) {
        self.total_storage_size
    }
}

impl Ranked for InfoDatabase {
    open spec fn size_of(model: DatabaseModel) -> int {
        model.total_storage_size
    }

    fn total_size(&self) -> (size: i128) {
        self.total_storage_size
    }
}

/// The name by which a collection is known across databases.
pub open spec fn qualified(database: Seq<char>, collection: Seq<char>) -> Seq<char> {
    database + "."@ + collection
}

/// The bytes of data on disk of all of `collections`.
pub open spec fn data_sum(collections: Seq<CollectionModel>) -> int
    decreases collections.len(),
{
    if collections.len() == 0 {
        0
    } else {
        data_sum(collections.drop_last()) + collections.last().data_storage_size
    }
}

/// The bytes of indexes on disk of all of `collections`.
pub open spec fn index_sum(collections: Seq<CollectionModel>) -> int
    decreases collections.len(),
{
    if collections.len() == 0 {
        0
    } else {
        index_sum(collections.drop_last()) + collections.last().index_storage_size
    }
}

/// Taking a place in a ranking adds an item's bytes to the sums.
proof fn lemma_sums_of_insert_ranked(ranking: Seq<CollectionModel>, x: CollectionModel)
    ensures
        data_sum(insert_ranked::<InfoCollection>(ranking, x)) == data_sum(ranking)
            + x.data_storage_size,
        index_sum(insert_ranked::<InfoCollection>(ranking, x)) == index_sum(ranking)
            + x.index_storage_size,
    decreases ranking.len(),
{
    let after = insert_ranked::<InfoCollection>(ranking, x);
    if ranking.len() == 0 {
        assert(after.drop_last() =~= ranking);
    } else if InfoCollection::size_of(ranking.last()) >= InfoCollection::size_of(x) {
        assert(after.drop_last() =~= ranking);
    } else {
        lemma_sums_of_insert_ranked(ranking.drop_last(), x);
        assert(after.drop_last() =~= insert_ranked::<InfoCollection>(ranking.drop_last(), x));
    }
}

/// Ranking leaves the sums as they are.
pub proof fn lemma_sums_of_ranked(collections: Seq<CollectionModel>)
    ensures
        data_sum(ranked::<InfoCollection>(collections)) == data_sum(collections),
        index_sum(ranked::<InfoCollection>(collections)) == index_sum(collections),
    decreases collections.len(),
{
    if collections.len() > 0 {
        lemma_sums_of_ranked(collections.drop_last());
        lemma_sums_of_insert_ranked(
            ranked::<InfoCollection>(collections.drop_last()),
            collections.last(),
        );
    }
}

/// Builds the qualified name of a collection.
pub fn qualified_name(database: &str, collection: &str) -> (name: String)
    ensures
        name@ == qualified(database@, collection@),
{
    let mut name = String::from_str(database);
    name.append(".");
    name.append(collection);
    name
}

} // verus!
