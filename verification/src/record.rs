//! Reading a collection's statistics record.
//!
//! A record maps field names to loosely typed values. The figures of a
//! collection are read from five of its fields; a field counts as a number
//! when it holds a 32-bit integer or a double-precision number.

use vstd::prelude::*;
use bson::{Bson, Document};
use crate::double::{double_to_i64, double_to_int};

verus! {

/// What the library reads of one field's value.
pub enum FieldValue {
    /// A 32-bit integer.
    Int32(i32),
    /// A double-precision number, as its 64 bits.
    Double(u64),
    /// A value of any other kind, as the two texts that show it: the one
    /// that names its kind, and the plain one.
    Other { debug: String, display: String },
}

/// The mathematical counterpart of a [`FieldValue`].
pub ghost enum FieldModel {
    Int32(i32),
    Double(u64),
    Other { debug: Seq<char>, display: Seq<char> },
}

impl View for FieldValue {
    type V = FieldModel;

    open spec fn view(&self) -> FieldModel {
        match self {
            FieldValue::Int32(v) => FieldModel::Int32(*v),
            FieldValue::Double(bits) => FieldModel::Double(*bits),
            FieldValue::Other { debug, display } => FieldModel::Other {
                debug: debug@,
                display: display@,
            },
        }
    }
}

/// `bson::Document`: a record, as the server sends it. Of what is inside
/// one, only `document_fields` speaks.
#[verifier::external_type_specification]
#[verifier::external_body]
pub struct ExDocument(bson::Document);

/// The fields of a record: for each key that the document holds, what
/// stands for its value. A 32-bit integer stands for itself, a double for
/// its bits, and any other value for the texts that `bson::Bson` gives it
/// through `Debug` and through `Display`.
pub uninterp spec fn document_fields(doc: Document) -> Map<Seq<char>, FieldModel>;

/// Looks a field up with `bson::Document::get`.
///
/// Nothing is returned exactly when the document has no such key; else the
/// value found is handed out as the document's fields describe it.
#[verifier::external_body]
fn field_of(doc: &Document, name: &str) -> (found: Option<FieldValue>)
    ensures
        found is None <==> !document_fields(*doc).contains_key(name@),
        found is Some ==> found->0@ == document_fields(*doc)[name@],
{
    match doc.get(name) {
        None => None,
        Some(Bson::Int32(v)) => Some(FieldValue::Int32(*v)),
        Some(Bson::Double(v)) => Some(FieldValue::Double(v.to_bits())),
        Some(other) => Some(
            FieldValue::Other { debug: format!("{:?}", other), display: format!("{}", other) },
        ),
    }
}

/// The outcome of reading a number, with the error as a sequence of
/// characters.
pub open spec fn number_view(r: Result<i64, String>) -> Result<int, Seq<char>> {
    match r {
        Ok(n) => Ok(n as int),
        Err(reason) => Err(reason@),
    }
}

/// The reason given for a field that holds no number.
pub open spec fn unexpected_type(shown: Seq<char>) -> Seq<char> {
    "Field name has unexpected type: "@ + shown
}

/// The reason given for a field that the record lacks.
pub open spec fn does_not_exist(name: Seq<char>) -> Seq<char> {
    "Field "@ + name + " does not exist"@
}

/// The integer that a value is taken for. A 32-bit integer is taken as it
/// is and a double-precision number without what is behind its point. Any
/// other value is refused, with one of the texts that show it: the plain
/// one where `plain` is set, else the one that names its kind.
pub open spec fn coerced(value: FieldModel, plain: bool) -> Result<int, Seq<char>> {
    match value {
        FieldModel::Int32(v) => Ok(v as int),
        FieldModel::Double(bits) => Ok(double_to_int(bits)),
        FieldModel::Other { debug, display } => Err(
            unexpected_type(
                if plain {
                    display
                } else {
                    debug
                },
            ),
        ),
    }
}

/// A field that the record must hold, read as an integer. A value that is
/// refused is shown with its kind.
pub open spec fn int_field(fields: Map<Seq<char>, FieldModel>, name: Seq<char>) -> Result<
    int,
    Seq<char>,
> {
    if fields.contains_key(name) {
        coerced(fields[name], false)
    } else {
        Err(does_not_exist(name))
    }
}

/// A field that the record may lack, read as an integer; `default` where
/// it is lacking. A value that is refused is shown plainly.
pub open spec fn int_field_or(
    fields: Map<Seq<char>, FieldModel>,
    name: Seq<char>,
    default: int,
) -> Result<int, Seq<char>> {
    if fields.contains_key(name) {
        coerced(fields[name], true)
    } else {
        Ok(default)
    }
}

/// Takes a field's value for an integer.
pub fn coerce(value: FieldValue, plain: bool) -> (r: Result<i64, String>)
    ensures
        number_view(r) == coerced(value@, plain),
{
    match value {
        FieldValue::Int32(v) => Ok(v as i64),
        FieldValue::Double(bits) => Ok(double_to_i64(bits)),
        FieldValue::Other { debug, display } => {
            let mut reason = String::from_str("Field name has unexpected type: ");
            if plain {
                reason.append(display.as_str());
            } else {
                reason.append(debug.as_str());
            }
            Err(reason)
        },
    }
}

/// Reads a field that the record must hold.
pub fn get_int_field(doc: &Document, name: &str) -> (r: Result<i64, String>)
    ensures
        number_view(r) == int_field(document_fields(*doc), name@),
{
    match field_of(doc, name) {
        Some(value) => coerce(value, false),
        None => {
            let mut reason = String::from_str("Field ");
            reason.append(name);
            reason.append(" does not exist");
            Err(reason)
        },
    }
}

/// Reads a field that the record may lack.
pub fn get_int_field_or(doc: &Document, name: &str, default: i64) -> (r: Result<i64, String>)
    ensures
        number_view(r) == int_field_or(document_fields(*doc), name@, default as int),
{
    match field_of(doc, name) {
        Some(value) => coerce(value, true),
        None => Ok(default),
    }
}

/// The figures of one collection.
pub struct InfoCollection {
    pub name: String,
    /// Bytes on disk: data and indexes together.
    pub total_storage_size: i128,
    /// Bytes on disk that hold data.
    pub data_storage_size: i64,
    /// Bytes on disk that hold indexes.
    pub index_storage_size: i64,
    /// Bytes of data before storage.
    pub data_size: i64,
    /// Number of items.
    pub count: i64,
    /// Bytes of an average item; zero where the record does not say.
    pub avg_object_size: i64,
}

/// The mathematical counterpart of an [`InfoCollection`].
pub ghost struct CollectionModel {
    pub name: Seq<char>,
    pub total_storage_size: int,
    pub data_storage_size: int,
    pub index_storage_size: int,
    pub data_size: int,
    pub count: int,
    pub avg_object_size: int,
}

impl View for InfoCollection {
    type V = CollectionModel;

    open spec fn view(&self) -> CollectionModel {
        CollectionModel {
            name: self.name@,
            total_storage_size: self.total_storage_size as int,
            data_storage_size: self.data_storage_size as int,
            index_storage_size: self.index_storage_size as int,
            data_size: self.data_size as int,
            count: self.count as int,
            avg_object_size: self.avg_object_size as int,
        }
    }
}

/// Whether the total of a collection's figures is the sum of its data and
/// its indexes.
pub open spec fn adds_up(figures: CollectionModel) -> bool {
    figures.total_storage_size == figures.data_storage_size + figures.index_storage_size
}

/// The outcome of reading a record, over the mathematical counterparts.
pub open spec fn stats_view(r: Result<InfoCollection, String>) -> Result<
    CollectionModel,
    Seq<char>,
> {
    match r {
        Ok(info) => Ok(info@),
        Err(reason) => Err(reason@),
    }
}

/// The figures that a record gives for the collection `name`, or the reason
/// why it gives none: that of the first field, in the order `storageSize`,
/// `totalIndexSize`, `size`, `count`, `avgObjSize`, that cannot be read.
/// Only `avgObjSize` may be lacking. The total is the sum of data and
/// indexes.
pub open spec fn collection_stats(name: Seq<char>, fields: Map<Seq<char>, FieldModel>) -> Result<
    CollectionModel,
    Seq<char>,
> {
    let storage = int_field(fields, "storageSize"@);
    let index = int_field(fields, "totalIndexSize"@);
    let size = int_field(fields, "size"@);
    let count = int_field(fields, "count"@);
    let average = int_field_or(fields, "avgObjSize"@, 0);
    if storage is Err {
        Err(storage->Err_0)
    } else if index is Err {
        Err(index->Err_0)
    } else if size is Err {
        Err(size->Err_0)
    } else if count is Err {
        Err(count->Err_0)
    } else if average is Err {
        Err(average->Err_0)
    } else {
        Ok(
            CollectionModel {
                name: name,
                total_storage_size: storage->Ok_0 + index->Ok_0,
                data_storage_size: storage->Ok_0,
                index_storage_size: index->Ok_0,
                data_size: size->Ok_0,
                count: count->Ok_0,
                avg_object_size: average->Ok_0,
            },
        )
    }
}

/// Reads the figures of the collection `col_name` from its record.
pub fn build_info_collection(col_name: &String, res: Document) -> (r: Result<
    InfoCollection,
    String,
>)
    ensures
        stats_view(r) == collection_stats(col_name@, document_fields(res)),
{
    let storage = match get_int_field(&res, "storageSize") {
        Ok(n) => n,
        Err(reason) => {
            return Err(reason);
        },
    };
    let index = match get_int_field(&res, "totalIndexSize") {
        Ok(n) => n,
        Err(reason) => {
            return Err(reason);
        },
    };
    let size = match get_int_field(&res, "size") {
        Ok(n) => n,
        Err(reason) => {
            return Err(reason);
        },
    };
    let count = match get_int_field(&res, "count") {
        Ok(n) => n,
        Err(reason) => {
            return Err(reason);
        },
    };
    let average = match get_int_field_or(&res, "avgObjSize", 0) {
        Ok(n) => n,
        Err(reason) => {
            return Err(reason);
        },
    };
    Ok(
        InfoCollection {
            name: col_name.clone(),
            total_storage_size: storage as i128 + index as i128,
            data_storage_size: storage,
            index_storage_size: index,
            data_size: size,
            count: count,
            avg_object_size: average,
        },
    )
}

/// Whether the record holds a number under `name`.
pub open spec fn has_number(fields: Map<Seq<char>, FieldModel>, name: Seq<char>) -> bool {
    fields.contains_key(name) && !(fields[name] is Other)
}

/// Whether the record holds a number under each of the four names that it
/// must hold.
pub open spec fn has_required_numbers(fields: Map<Seq<char>, FieldModel>) -> bool {
    &&& has_number(fields, "storageSize"@)
    &&& has_number(fields, "totalIndexSize"@)
    &&& has_number(fields, "size"@)
    &&& has_number(fields, "count"@)
}

/// A record gives figures exactly when it holds a number under each of the
/// four required names, and under `avgObjSize` a number or nothing.
pub proof fn lemma_figures_are_given(name: Seq<char>, fields: Map<Seq<char>, FieldModel>)
    ensures
        collection_stats(name, fields) is Ok <==> has_required_numbers(fields) && (
        !fields.contains_key("avgObjSize"@) || has_number(fields, "avgObjSize"@)),
{
}

/// The figures that a record gives are the numbers of its fields, the
/// doubles cut off to integers, and their total is the sum of data and
/// indexes.
pub proof fn lemma_total_is_data_and_indexes(name: Seq<char>, fields: Map<Seq<char>, FieldModel>)
    requires
        collection_stats(name, fields) is Ok,
    ensures
        ({
            let figures = collection_stats(name, fields)->Ok_0;
            &&& figures.name == name
            &&& int_field(fields, "storageSize"@) == Ok::<int, Seq<char>>(
                figures.data_storage_size,
            )
            &&& int_field(fields, "totalIndexSize"@) == Ok::<int, Seq<char>>(
                figures.index_storage_size,
            )
            &&& int_field(fields, "size"@) == Ok::<int, Seq<char>>(figures.data_size)
            &&& int_field(fields, "count"@) == Ok::<int, Seq<char>>(figures.count)
            &&& adds_up(figures)
            &&& fields["storageSize"@] matches FieldModel::Int32(v)
                ==> figures.data_storage_size == v
            &&& fields["storageSize"@] matches FieldModel::Double(bits)
                ==> figures.data_storage_size == double_to_int(bits)
            &&& fields["totalIndexSize"@] matches FieldModel::Int32(v)
                ==> figures.index_storage_size == v
            &&& fields["totalIndexSize"@] matches FieldModel::Double(bits)
                ==> figures.index_storage_size == double_to_int(bits)
        }),
{
}

/// A record that lacks `avgObjSize` gives figures as one that holds it
/// does, with an average of zero.
pub proof fn lemma_average_may_be_lacking(name: Seq<char>, fields: Map<Seq<char>, FieldModel>)
    requires
        has_required_numbers(fields),
        !fields.contains_key("avgObjSize"@),
    ensures
        collection_stats(name, fields) is Ok,
        collection_stats(name, fields)->Ok_0.avg_object_size == 0,
{
}

/// A record that lacks one of the four required fields gives no figures.
/// Where `count` alone is lacking, the reason names it.
pub proof fn lemma_count_is_required(name: Seq<char>, fields: Map<Seq<char>, FieldModel>)
    requires
        !fields.contains_key("count"@),
    ensures
        collection_stats(name, fields) is Err,
        has_number(fields, "storageSize"@) && has_number(fields, "totalIndexSize"@) && has_number(
            fields,
            "size"@,
        ) ==> collection_stats(name, fields) == Err::<CollectionModel, Seq<char>>(
            does_not_exist("count"@),
        ),
{
}

} // verus!
