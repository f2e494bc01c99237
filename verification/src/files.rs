//! Uploaded files: filter, rows and updates.

use std::collections::HashMap;
use vstd::prelude::*;
use crate::deployments::page_clause;
use crate::errors::{found, DbError};
use crate::grouping::{by_id, rows_map};
use crate::names::{borrowed, str_or_none, text_or_none};
use crate::query::{flagged_text, Piece, SqlQuery};
use crate::time::Timestamp;

verus! {

/// A file's status, by its name in the database.
#[derive(Debug)]
pub struct FileStatus {
    pub name: String,
}

/// What a list of files is narrowed to.
#[derive(Debug)]
pub struct FileFilter {
    pub skip: i64,
    pub limit: i64,
    pub uploaded_by: Option<u128>,
    pub status: Option<FileStatus>,
}

impl FileFilter {
    /// A page of all files.
    pub fn new(skip: i64, limit: i64) -> (r: FileFilter)
        ensures
            r == (FileFilter { skip, limit, uploaded_by: None, status: None }),
    {
        FileFilter { skip, limit, uploaded_by: None, status: None }
    }

    /// Narrows to the files of a user.
    pub fn with_uploaded_by(self, user_id: u128) -> (r: FileFilter)
        ensures
            r == (FileFilter { uploaded_by: Some(user_id), ..self }),
    {
        let mut filter = self;
        filter.uploaded_by = Some(user_id);
        filter
    }

    /// Narrows to files with a status.
    pub fn with_status(self, status: FileStatus) -> (r: FileFilter)
        ensures
            r == (FileFilter { status: Some(status), ..self }),
    {
        let mut filter = self;
        filter.status = Some(status);
        filter
    }
}

/// The clause for the user.
pub open spec fn uploader_clause(f: FileFilter) -> Seq<Piece> {
    match f.uploaded_by {
        Some(user) => seq![Piece::Text(" AND uploaded_by = "@), Piece::Id(user)],
        None => Seq::empty(),
    }
}

/// The clause for the status.
pub open spec fn file_status_clause(f: FileFilter) -> Seq<Piece> {
    match f.status {
        Some(status) => seq![Piece::Text(" AND status = "@), Piece::Value(status.name@)],
        None => Seq::empty(),
    }
}

/// The query for a page of files.
pub fn file_list_query(filter: &FileFilter) -> (r: SqlQuery)
    ensures
        r@ == seq![Piece::Text("SELECT * FROM files WHERE 1=1"@)] + uploader_clause(*filter)
            + file_status_clause(*filter) + page_clause(filter.limit, filter.skip),
{
    let mut query = SqlQuery::new("SELECT * FROM files WHERE 1=1");
    if let Some(user_id) = filter.uploaded_by {
        query.push(" AND uploaded_by = ");
        query.bind_id(user_id);
    }
    assert(query@ =~= seq![Piece::Text("SELECT * FROM files WHERE 1=1"@)] + uploader_clause(
        *filter,
    ));
    if let Some(status) = &filter.status {
        query.push(" AND status = ");
        query.bind_text(status.name.as_str());
    }
    query.push(" ORDER BY created_at DESC LIMIT ");
    query.bind_int(filter.limit);
    query.push(" OFFSET ");
    query.bind_int(filter.skip);
    assert(query@ =~= seq![Piece::Text("SELECT * FROM files WHERE 1=1"@)] + uploader_clause(*filter)
        + file_status_clause(*filter) + page_clause(filter.limit, filter.skip));
    query
}

/// A file as stored.
#[derive(Debug)]
pub struct File {
    pub id: u128,
    pub filename: String,
    pub size_bytes: i64,
    pub status: String,
    pub error_message: Option<String>,
    pub expires_at: Option<Timestamp>,
    pub deleted_at: Option<Timestamp>,
    pub uploaded_by: u128,
    pub created_at: Timestamp,
    pub updated_at: Timestamp,
}

/// A file as handed out.
#[derive(Debug)]
pub struct FileDBResponse {
    pub id: u128,
    pub filename: String,
    pub size_bytes: i64,
    pub status: FileStatus,
    pub error_message: Option<String>,
    pub expires_at: Option<Timestamp>,
    pub deleted_at: Option<Timestamp>,
    pub uploaded_by: u128,
    pub created_at: Timestamp,
    pub updated_at: Timestamp,
}

/// A stored file as handed out.
pub open spec fn file_of(f: File) -> FileDBResponse {
    FileDBResponse {
        id: f.id,
        filename: f.filename,
        size_bytes: f.size_bytes,
        status: FileStatus { name: f.status },
        error_message: f.error_message,
        expires_at: f.expires_at,
        deleted_at: f.deleted_at,
        uploaded_by: f.uploaded_by,
        created_at: f.created_at,
        updated_at: f.updated_at,
    }
}

impl From<File> for FileDBResponse {
    fn from(f: File) -> (r: FileDBResponse) {
        FileDBResponse {
            id: f.id,
            filename: f.filename,
            size_bytes: f.size_bytes,
            status: FileStatus { name: f.status },
            error_message: f.error_message,
            expires_at: f.expires_at,
            deleted_at: f.deleted_at,
            uploaded_by: f.uploaded_by,
            created_at: f.created_at,
            updated_at: f.updated_at,
        }
    }
}

impl vstd::std_specs::convert::FromSpecImpl<File> for FileDBResponse {
    open spec fn obeys_from_spec() -> bool {
        true
    }

    open spec fn from_spec(f: File) -> FileDBResponse {
        file_of(f)
    }
}

/// Stored files as handed out, in order.
pub fn file_responses(files: Vec<File>) -> (r: Vec<FileDBResponse>)
    ensures
        r@ == files@.map_values(|f: File| file_of(f)),
{
    let ghost all = files@;
    let mut out: Vec<FileDBResponse> = Vec::new();
    for f in it: files
        invariant
            it.seq() == all,
            out@.len() == it.index(),
            forall|j: int| 0 <= j < it.index() ==> out@[j] == file_of(#[trigger] all[j]),
    {
        out.push(FileDBResponse::from(f));
    }
    assert(out@ =~= all.map_values(|f: File| file_of(f)));
    out
}

/// Stored files with their identifiers, as handed out.
pub open spec fn keyed_files(files: Seq<File>) -> Seq<(u128, FileDBResponse)> {
    files.map_values(|f: File| (f.id, file_of(f)))
}

/// Stored files as handed out, by identifier; of several with one identifier the
/// last stays.
pub fn files_by_id(files: Vec<File>) -> (r: HashMap<u128, FileDBResponse>)
    ensures
        r@ == rows_map(keyed_files(files@), files@.len() as int),
{
    let ghost all = files@;
    let mut keyed: Vec<(u128, FileDBResponse)> = Vec::new();
    for f in it: files
        invariant
            it.seq() == all,
            keyed@.len() == it.index(),
            forall|j: int|
                0 <= j < it.index() ==> keyed@[j] == (
                    (#[trigger] all[j]).id,
                    file_of(all[j]),
                ),
    {
        let id: u128 = f.id;
        keyed.push((id, FileDBResponse::from(f)));
    }
    assert(keyed@ =~= keyed_files(all));
    by_id(keyed)
}

/// A change of a file. An absent field leaves its column alone; an empty error
/// message clears it.
#[derive(Debug)]
pub struct FileUpdateDBRequest {
    pub filename: Option<String>,
    pub status: Option<FileStatus>,
    pub error_message: Option<Option<String>>,
    pub deleted_at: Option<Timestamp>,
}

/// The parameters of an update, in the order of its statement.
#[derive(Debug)]
pub struct FileUpdateColumns<'a> {
    pub filename: Option<&'a str>,
    pub status: Option<&'a str>,
    pub error_message: (bool, Option<&'a str>),
    pub deleted_at: Option<Timestamp>,
}

/// The parameters of an update.
pub fn file_update_columns<'a>(request: &'a FileUpdateDBRequest) -> (r: FileUpdateColumns<'a>)
    ensures
        str_or_none(r.filename) == text_or_none(request.filename),
        str_or_none(r.status) == (match request.status {
            Some(s) => Some(s.name@),
            None => None,
        }),
        r.error_message.0 == request.error_message is Some,
        str_or_none(r.error_message.1) == (match request.error_message {
            Some(message) => text_or_none(message),
            None => None,
        }),
        r.deleted_at == request.deleted_at,
{
    let status: Option<&'a str> = match &request.status {
        Some(s) => Some(s.name.as_str()),
        None => None,
    };
    FileUpdateColumns {
        filename: borrowed(&request.filename),
        status,
        error_message: flagged_text(&request.error_message),
        deleted_at: request.deleted_at,
    }
}

/// The file that an update gave back. Where it gave back none, there was no such
/// file.
pub fn updated_file(row: Option<File>) -> (r: Result<FileDBResponse, DbError>)
    ensures
        match row {
            Some(f) => r == Ok::<FileDBResponse, DbError>(file_of(f)),
            None => r matches Err(DbError::NotFound),
        },
{
    match found(row) {
        Ok(f) => Ok(FileDBResponse::from(f)),
        Err(e) => Err(e),
    }
}

/// A file is handed out as it is stored, each field under its own name.
pub proof fn law_responses_keep_their_files(f: File)
    ensures
        ({
            let r = file_of(f);
            &&& r.id == f.id
            &&& r.filename@ == f.filename@
            &&& r.size_bytes == f.size_bytes
            &&& r.status.name@ == f.status@
            &&& r.error_message == f.error_message
            &&& r.expires_at == f.expires_at
            &&& r.deleted_at == f.deleted_at
            &&& r.uploaded_by == f.uploaded_by
            &&& r.created_at == f.created_at
            &&& r.updated_at == f.updated_at
        }),
{
}

/// A list of files by identifier has each file under its own.
pub proof fn law_files_are_keyed_by_their_own(files: Seq<File>, i: int)
    requires
        0 <= i < files.len(),
    ensures
        keyed_files(files).len() == files.len(),
        keyed_files(files)[i].0 == files[i].id,
        keyed_files(files)[i].1.id == files[i].id,
        keyed_files(files)[i].1.filename@ == files[i].filename@,
{
}

/// Each filter on files that is set binds its own value, and one that is not set
/// adds nothing.
pub proof fn law_file_filters_bind_their_values(f: FileFilter)
    ensures
        f.uploaded_by is Some ==> uploader_clause(f).len() == 2 && uploader_clause(f)[1]
            == Piece::Id(f.uploaded_by->0),
        f.uploaded_by is None ==> uploader_clause(f).len() == 0,
        f.status is Some ==> file_status_clause(f).len() == 2 && file_status_clause(f)[1]
            == Piece::Value((f.status->0).name@),
        f.status is None ==> file_status_clause(f).len() == 0,
        page_clause(f.limit, f.skip)[1] == Piece::Int(f.limit),
        page_clause(f.limit, f.skip)[3] == Piece::Int(f.skip),
{
}

/// An update of a file hands every field on under its own name. An error message
/// that is not given is left alone, and an empty one is cleared.
pub proof fn law_file_updates_are_as_asked<'a>(
    request: &'a FileUpdateDBRequest,
    r: FileUpdateColumns<'a>,
)
    requires
        call_ensures(file_update_columns, (request,), r),
    ensures
        r.filename is Some <==> request.filename is Some,
        r.filename is Some ==> (r.filename->0)@ == (request.filename->0)@,
        r.status is Some <==> request.status is Some,
        r.status is Some ==> (r.status->0)@ == (request.status->0).name@,
        r.error_message.0 <==> request.error_message is Some,
        r.error_message.0 ==> (r.error_message.1 is Some <==> request.error_message->0 is Some),
        r.error_message.0 && r.error_message.1 is Some ==> (r.error_message.1->0)@ == (
        request.error_message->0->0)@,
        r.deleted_at == request.deleted_at,
{
}

/// An updated file is the row that came back, and where none did there was no such
/// file.
pub proof fn law_updates_of_missing_files_fail(row: Option<File>, r: Result<FileDBResponse, DbError>)
    requires
        call_ensures(updated_file, (row,), r),
    ensures
        r is Ok <==> row is Some,
        r is Ok ==> r->Ok_0.id == (row->0).id && r->Ok_0.filename@ == (row->0).filename@
            && r->Ok_0.size_bytes == (row->0).size_bytes && r->Ok_0.status.name@ == (row->0).status@,
        r is Err ==> r->Err_0 is NotFound,
{
}

/// Files by identifier: every file that no later one replaces is under its own
/// identifier, as it is stored.
pub proof fn law_files_are_found_by_identifier(
    files: Vec<File>,
    r: HashMap<u128, FileDBResponse>,
    i: int,
)
    requires
        call_ensures(files_by_id, (files,), r),
        0 <= i < files@.len(),
        forall|j: int| i < j < files@.len() ==> (#[trigger] files@[j]).id != files@[i].id,
    ensures
        r@.contains_key(files@[i].id),
        r@[files@[i].id].id == files@[i].id,
        r@[files@[i].id].filename@ == files@[i].filename@,
        r@[files@[i].id].size_bytes == files@[i].size_bytes,
        r@[files@[i].id].status.name@ == files@[i].status@,
        r@[files@[i].id].uploaded_by == files@[i].uploaded_by,
{
    let rows = keyed_files(files@);
    let id = files@[i].id;
    crate::grouping::law_last_row_stays(rows, rows.len() as int, id);
    assert(rows[i].0 == id);
    assert forall|j: int| i < j < rows.len() implies (#[trigger] rows[j]).0 != id by {
        assert(files@[j].id != files@[i].id);
    }
}

/// Files are listed in order, each as it is stored, and each builder of a filter
/// sets its own part and keeps the others.
pub proof fn law_listed_files_are_as_stored(
    files: Vec<File>,
    r: Vec<FileDBResponse>,
    i: int,
    f: FileFilter,
    user: u128,
    status: FileStatus,
    a: FileFilter,
    b: FileFilter,
)
    requires
        call_ensures(file_responses, (files,), r),
        0 <= i < files@.len(),
        call_ensures(FileFilter::with_uploaded_by, (f, user), a),
        call_ensures(FileFilter::with_status, (a, status), b),
    ensures
        r@.len() == files@.len(),
        r@[i].id == files@[i].id,
        r@[i].filename@ == files@[i].filename@,
        r@[i].size_bytes == files@[i].size_bytes,
        r@[i].status.name@ == files@[i].status@,
        r@[i].error_message == files@[i].error_message,
        r@[i].expires_at == files@[i].expires_at,
        r@[i].deleted_at == files@[i].deleted_at,
        b.uploaded_by == Some(user),
        b.status == Some(status),
        b.skip == f.skip,
        b.limit == f.limit,
{
}

/// A page of files binds what it is narrowed to, its limit and its offset.
pub proof fn law_file_pages_bind_their_values(f: FileFilter, r: SqlQuery)
    requires
        call_ensures(file_list_query, (&f,), r),
    ensures
        f.uploaded_by is Some ==> r@[2] == Piece::Id(f.uploaded_by->0),
        f.status is Some ==> r@[r@.len() - 5] == Piece::Value((f.status->0).name@),
        r@[r@.len() - 3] == Piece::Int(f.limit),
        r@[r@.len() - 1] == Piece::Int(f.skip),
        r@.len() == 5 + (if f.uploaded_by is Some {
            2int
        } else {
            0int
        }) + (if f.status is Some {
            2int
        } else {
            0int
        }),
{
}

}
