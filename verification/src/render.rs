//! The report as lines of text.
//!
//! Each database has a line of its own, followed by a line for each of its
//! collections. The collections that gave no figures come last, under a
//! heading, and the heading is left out where there are none.

use vstd::prelude::*;
use crate::ranking::models;
use crate::record::{CollectionModel, InfoCollection};
use crate::report::{
    CollectionFailure,
    DatabaseModel,
    FailureModel,
    InfoDatabase,
    Report,
    ReportModel,
};
use crate::units::{bytes_text, count_text, push_bytes_amount, push_count_amount};

verus! {

/// The line of a database: its name, its size on disk, and the data and
/// the indexes of its collections.
pub open spec fn database_line(database: DatabaseModel) -> Seq<char> {
    "["@ + database.name + ": "@ + bytes_text(database.total_storage_size) + " = "@ + bytes_text(
        database.data_storage_size,
    ) + " + "@ + bytes_text(database.index_storage_size) + "]"@
}

/// The line of a collection: its name, its size on disk as the sum of data
/// and indexes, the size of its data, the number of its items and the size
/// of an average item.
pub open spec fn collection_line(collection: CollectionModel) -> Seq<char> {
    " - "@ + collection.name + ": "@ + bytes_text(collection.total_storage_size) + " = "@
        + bytes_text(collection.data_storage_size) + " + "@ + bytes_text(
        collection.index_storage_size,
    ) + " / data: "@ + bytes_text(collection.data_size) + " / items: "@ + count_text(
        collection.count,
    ) + " / object: "@ + bytes_text(collection.avg_object_size)
}

/// The line of a collection that gave no figures.
pub open spec fn failure_line(failure: FailureModel) -> Seq<char> {
    " - "@ + failure.qualified_name + ": "@ + failure.reason
}

/// The heading of the collections that gave no figures.
pub open spec fn failure_heading() -> Seq<char> {
    "Failed to process collections:"@
}

/// The lines of the first `n` collections.
pub open spec fn collection_lines(collections: Seq<CollectionModel>, n: int) -> Seq<Seq<char>> {
    Seq::new(n as nat, |i: int| collection_line(collections[i]))
}

/// The lines of a database: its own, and those of its collections.
pub open spec fn database_block(database: DatabaseModel) -> Seq<Seq<char>> {
    seq![database_line(database)] + collection_lines(
        database.collections,
        database.collections.len() as int,
    )
}

/// The lines of the databases, one block behind the other.
pub open spec fn database_blocks(databases: Seq<DatabaseModel>) -> Seq<Seq<char>>
    decreases databases.len(),
{
    if databases.len() == 0 {
        Seq::empty()
    } else {
        database_blocks(databases.drop_last()) + database_block(databases.last())
    }
}

/// The lines of the first `n` failures.
pub open spec fn failure_lines(failed: Seq<FailureModel>, n: int) -> Seq<Seq<char>> {
    Seq::new(n as nat, |i: int| failure_line(failed[i]))
}

/// The lines for the collections that gave no figures: none where there is
/// no such collection, else the heading and a line for each.
pub open spec fn failure_block(failed: Seq<FailureModel>) -> Seq<Seq<char>> {
    if failed.len() == 0 {
        Seq::empty()
    } else {
        seq![failure_heading()] + failure_lines(failed, failed.len() as int)
    }
}

/// The lines of a report: the databases first, then the failures.
pub open spec fn report_lines(report: ReportModel) -> Seq<Seq<char>> {
    database_blocks(report.databases) + failure_block(report.failed)
}

/// Writes the line of a database.
pub fn render_database(database: &InfoDatabase) -> (line: String)
    ensures
        line@ == database_line(database@),
{
    let mut line = String::from_str("[");
    line.append(database.name.as_str());
    line.append(": ");
    push_bytes_amount(&mut line, database.total_storage_size);
    line.append(" = ");
    push_bytes_amount(&mut line, database.data_storage_size);
    line.append(" + ");
    push_bytes_amount(&mut line, database.index_storage_size);
    line.append("]");
    line
}

/// Writes the line of a collection.
pub fn render_collection(collection: &InfoCollection) -> (line: String)
    ensures
        line@ == collection_line(collection@),
{
    let mut line = String::from_str(" - ");
    line.append(collection.name.as_str());
    line.append(": ");
    push_bytes_amount(&mut line, collection.total_storage_size);
    line.append(" = ");
    push_bytes_amount(&mut line, collection.data_storage_size as i128);
    line.append(" + ");
    push_bytes_amount(&mut line, collection.index_storage_size as i128);
    line.append(" / data: ");
    push_bytes_amount(&mut line, collection.data_size as i128);
    line.append(" / items: ");
    push_count_amount(&mut line, collection.count as i128);
    line.append(" / object: ");
    push_bytes_amount(&mut line, collection.avg_object_size as i128);
    line
}

/// Writes the line of a collection that gave no figures.
pub fn render_failure(failure: &CollectionFailure) -> (line: String)
    ensures
        line@ == failure_line(failure@),
{
    let mut line = String::from_str(" - ");
    line.append(failure.qualified_name.as_str());
    line.append(": ");
    line.append(failure.reason.as_str());
    line
}

/// Writes a report, line by line.
pub fn render_report(report: &Report) -> (lines: Vec<String>)
    ensures
        models(lines@) == report_lines(report@),
{
    let mut lines: Vec<String> = Vec::new();
    let mut d: usize = 0;
    assert(models(lines@) =~= database_blocks(report@.databases.take(0)));
    while d < report.databases.len()
        invariant
            d <= report.databases.len(),
            models(lines@) == database_blocks(report@.databases.take(d as int)),
        decreases report.databases.len() - d,
    {
        let database = &report.databases[d];
        let ghost before = models(lines@);
        lines.push(render_database(database));
        let mut c: usize = 0;
        assert(models(lines@) =~= before + seq![database_line(database@)] + collection_lines(
            database@.collections,
            0,
        ));
        while c < database.collections.len()
            invariant
                c <= database.collections.len(),
                models(lines@) == before + seq![database_line(database@)] + collection_lines(
                    database@.collections,
                    c as int,
                ),
            decreases database.collections.len() - c,
        {
            let ghost so_far = models(lines@);
            let line = render_collection(&database.collections[c]);
            proof {
                assert(database@.collections[c as int] == database.collections@[c as int]@);
                assert(collection_lines(database@.collections, c + 1) =~= collection_lines(
                    database@.collections,
                    c as int,
                ).push(line@));
            }
            lines.push(line);
            assert(models(lines@) =~= so_far.push(line@));
            c = c + 1;
            assert(models(lines@) =~= before + seq![database_line(database@)] + collection_lines(
                database@.collections,
                c as int,
            ));
        }
        d = d + 1;
        proof {
            let done = report@.databases.take(d as int);
            assert(done.drop_last() =~= report@.databases.take(d - 1));
            assert(done.last() == database@);
            assert(models(lines@) =~= before + database_block(database@));
        }
    }
    assert(report@.databases.take(d as int) =~= report@.databases);
    if report.failed.len() > 0 {
        let ghost before = models(lines@);
        lines.push(String::from_str("Failed to process collections:"));
        let mut f: usize = 0;
        assert(models(lines@) =~= before + seq![failure_heading()] + failure_lines(
            report@.failed,
            0,
        ));
        while f < report.failed.len()
            invariant
                f <= report.failed.len(),
                models(lines@) == before + seq![failure_heading()] + failure_lines(
                    report@.failed,
                    f as int,
                ),
            decreases report.failed.len() - f,
        {
            let ghost so_far = models(lines@);
            let line = render_failure(&report.failed[f]);
            proof {
                assert(report@.failed[f as int] == report.failed@[f as int]@);
                assert(failure_lines(report@.failed, f + 1) =~= failure_lines(
                    report@.failed,
                    f as int,
                ).push(line@));
            }
            lines.push(line);
            assert(models(lines@) =~= so_far.push(line@));
            f = f + 1;
            assert(models(lines@) =~= before + seq![failure_heading()] + failure_lines(
                report@.failed,
                f as int,
            ));
        }
        assert(models(lines@) =~= before + failure_block(report@.failed));
    } else {
        assert(models(lines@) =~= models(lines@) + failure_block(report@.failed));
    }
    lines
}

} // verus!
