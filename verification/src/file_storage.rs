//! Where the contents of files are kept: keys, chunks, and how a files database
//! is set up.

use std::path::PathBuf;
use vstd::prelude::*;
use crate::errors::DbError;
use crate::ids::{id_digits, id_text};
use crate::text::{
    chars_of, contains_text, decimal, holds_text, signed_decimal, signed_decimal_text, text_of,
};

verus! {

/// A path in the file system.
#[verifier::external_type_specification]
#[verifier::external_body]
pub struct ExPathBuf(PathBuf);

/// A file to be kept.
#[derive(Debug)]
pub struct FileStorageRequest {
    pub content: Vec<u8>,
    pub content_type: String,
}

/// What a kept file is found by.
#[derive(Debug)]
pub struct FileStorageResponse {
    pub storage_key: String,
}

/// A place that keeps files.
pub trait FileStorage {
    /// Keeps a file and gives the key that it is found by.
    fn store(&self, request: FileStorageRequest) -> Result<FileStorageResponse, DbError>;

    /// The content of a file.
    fn retrieve(&self, storage_key: &str) -> Result<Vec<u8>, DbError>;

    /// Keeps a file no longer.
    fn delete(&self, storage_key: &str) -> Result<(), DbError>;

    /// Whether a file is kept.
    fn holds(&self, storage_key: &str) -> Result<bool, DbError>;
}

/// Files in a directory.
#[derive(Debug)]
pub struct LocalFileStorage {
    base_path: PathBuf,
}

impl LocalFileStorage {
    /// The directory.
    pub closed spec fn directory(self) -> PathBuf {
        self.base_path
    }

    /// Files in a directory.
    pub fn new(base_path: PathBuf) -> (r: LocalFileStorage)
        ensures
            r.directory() == base_path,
    {
        LocalFileStorage { base_path }
    }

    /// The directory.
    pub fn base_path(&self) -> (r: &PathBuf)
        ensures
            *r == self.directory(),
    {
        &self.base_path
    }
}

/// The path of a file below the directory: the first two digits of its
/// identifier, and the identifier.
pub open spec fn path_of(id: u128) -> Seq<char> {
    id_digits(id).subrange(0, 2) + "/"@ + id_digits(id) + ".dat"@
}

/// The path of a file below the directory.
pub fn storage_path(file_id: u128) -> (r: String)
    ensures
        r@ == path_of(file_id),
{
    let name = id_text(file_id);
    let chars = chars_of(name.as_str());
    text_of(&chars, 0, 2).concat("/").concat(name.as_str()).concat(".dat")
}

/// Files with different identifiers are kept apart.
pub proof fn law_storage_paths_differ(a: u128, b: u128)
    requires
        path_of(a) == path_of(b),
    ensures
        a == b,
{
    reveal_strlit("/");
    assert(id_digits(a) =~= path_of(a).subrange(3, 39));
    assert(id_digits(b) =~= path_of(b).subrange(3, 39));
    crate::ids::law_id_digits_differ(a, b);
}

/// A place that keeps nothing.
#[derive(Debug, Clone, Copy)]
pub struct NoopFileStorage;

/// That a place keeps nothing, in words.
pub open spec fn unsupported_words() -> Seq<char> {
    "NoopFileStorage: file storage operations are not supported in this context"@
}

/// Whether a result says that the place keeps nothing.
pub open spec fn is_unsupported<T>(r: Result<T, DbError>) -> bool {
    r matches Err(DbError::Other(words)) && words@ == unsupported_words()
}

fn unsupported<T>() -> (r: Result<T, DbError>)
    ensures
        is_unsupported(r),
{
    Err(
        DbError::Other(
            "NoopFileStorage: file storage operations are not supported in this context".to_owned(),
        ),
    )
}

impl FileStorage for NoopFileStorage {
    fn store(&self, request: FileStorageRequest) -> (r: Result<FileStorageResponse, DbError>)
        ensures
            is_unsupported(r),
    {
        unsupported()
    }

    fn retrieve(&self, storage_key: &str) -> (r: Result<Vec<u8>, DbError>)
        ensures
            is_unsupported(r),
    {
        unsupported()
    }

    fn delete(&self, storage_key: &str) -> (r: Result<(), DbError>)
        ensures
            is_unsupported(r),
    {
        unsupported()
    }

    fn holds(&self, storage_key: &str) -> (r: Result<bool, DbError>)
        ensures
            is_unsupported(r),
    {
        unsupported()
    }
}

/// How many bytes of a large object are written or read at once.
pub const CHUNK_SIZE: usize = 8192;

/// How many chunks a content has.
pub open spec fn chunk_count(len: int) -> int {
    (len + CHUNK_SIZE - 1) / (CHUNK_SIZE as int)
}

/// Where a chunk ends, in a content of some length.
pub open spec fn chunk_end(len: int, i: int) -> int {
    if CHUNK_SIZE * (i + 1) <= len {
        CHUNK_SIZE * (i + 1)
    } else {
        len
    }
}

/// The chunk number `i` of a content: a full one, but for the last. Behind the
/// last one there is nothing.
pub open spec fn chunk(content: Seq<u8>, i: int) -> Seq<u8> {
    if CHUNK_SIZE * i <= content.len() {
        content.subrange(CHUNK_SIZE * i, chunk_end(content.len() as int, i))
    } else {
        Seq::empty()
    }
}

/// The chunks of a content, in order.
pub fn content_chunks(content: &Vec<u8>) -> (r: Vec<Vec<u8>>)
    ensures
        r@.len() == chunk_count(content@.len() as int),
        forall|i: int| 0 <= i < r@.len() ==> (#[trigger] r@[i])@ == chunk(content@, i),
{
    let mut chunks: Vec<Vec<u8>> = Vec::new();
    let mut from: usize = 0;
    while from < content.len()
        invariant
            from <= content@.len(),
            from == CHUNK_SIZE * chunks@.len() || (from == content@.len() && chunks@.len()
                == chunk_count(content@.len() as int)),
            forall|i: int| 0 <= i < chunks@.len() ==> (#[trigger] chunks@[i])@ == chunk(
                content@,
                i,
            ),
        decreases content@.len() - from,
    {
        let left: usize = content.len() - from;
        let to: usize = if left < CHUNK_SIZE {
            content.len()
        } else {
            from + CHUNK_SIZE
        };
        let piece = vstd::slice::slice_subrange(content.as_slice(), from, to);
        let mut owned: Vec<u8> = Vec::new();
        owned.extend_from_slice(piece);
        assert(owned@ =~= chunk(content@, chunks@.len() as int));
        chunks.push(owned);
        from = to;
    }
    chunks
}

/// The first `n` chunks of a content, one after the other.
pub open spec fn joined_chunks(content: Seq<u8>, n: int) -> Seq<u8>
    decreases n,
{
    if n <= 0 {
        Seq::empty()
    } else {
        joined_chunks(content, n - 1) + chunk(content, n - 1)
    }
}

/// Reading chunk by chunk until nothing comes gives back what was written chunk
/// by chunk: the chunks make up the content, none of them is empty, and what
/// comes behind the last is.
pub proof fn law_chunks_make_up_the_content(content: Seq<u8>)
    ensures
        joined_chunks(content, chunk_count(content.len() as int)) == content,
        forall|i: int|
            0 <= i < chunk_count(content.len() as int) ==> (#[trigger] chunk(content, i)).len() > 0,
        chunk(content, chunk_count(content.len() as int)).len() == 0,
{
    let n = chunk_count(content.len() as int);
    lemma_joined_chunks(content, n);
    assert(content.subrange(0, content.len() as int) =~= content);
}

proof fn lemma_joined_chunks(content: Seq<u8>, n: int)
    requires
        0 <= n <= chunk_count(content.len() as int),
    ensures
        joined_chunks(content, n) == content.subrange(
            0,
            if CHUNK_SIZE * n <= content.len() {
                CHUNK_SIZE * n
            } else {
                content.len() as int
            },
        ),
    decreases n,
{
    if n > 0 {
        lemma_joined_chunks(content, n - 1);
        assert(CHUNK_SIZE * (n - 1) < content.len());
        assert(joined_chunks(content, n) =~= content.subrange(
            0,
            if CHUNK_SIZE * n <= content.len() {
                CHUNK_SIZE * n
            } else {
                content.len() as int
            },
        ));
    } else {
        assert(content.subrange(0, 0) =~= Seq::<u8>::empty());
    }
}

/// Adds a chunk that was read to what was read before, and says whether to read
/// on: an empty chunk is the end.
pub fn take_chunk(content: &mut Vec<u8>, read: &Vec<u8>) -> (more: bool)
    ensures
        final(content)@ == old(content)@ + read@,
        more == (read@.len() > 0),
{
    if read.len() == 0 {
        assert(content@ =~= old(content)@ + read@);
        return false;
    }
    content.extend_from_slice(read.as_slice());
    assert(content@ =~= old(content)@ + read@);
    true
}

/// The key of a large object: its number as a decimal numeral.
pub fn object_key(oid: i32) -> (r: String)
    ensures
        r@ == signed_decimal(oid as int),
{
    signed_decimal_text(oid as i64)
}

/// Whether a character is a decimal digit.
pub open spec fn is_digit(c: char) -> bool {
    '0' <= c && c <= '9'
}

/// Whether a text is made of decimal digits, at least one.
pub open spec fn is_numeral(s: Seq<char>) -> bool {
    s.len() > 0 && forall|i: int| 0 <= i < s.len() ==> is_digit(#[trigger] s[i])
}

/// The number that decimal digits stand for.
pub open spec fn numeral_value(s: Seq<char>) -> int
    decreases s.len(),
{
    if s.len() == 0 {
        0
    } else {
        10 * numeral_value(s.drop_last()) + (s.last() as int - 48)
    }
}

/// Whether a text has a sign in front.
pub open spec fn has_sign(s: Seq<char>) -> bool {
    s.len() > 0 && (s[0] == '-' || s[0] == '+')
}

/// A text without a sign in front.
pub open spec fn unsigned_part(s: Seq<char>) -> Seq<char> {
    if has_sign(s) {
        s.drop_first()
    } else {
        s
    }
}

/// The number that a key stands for: decimal digits, with or without a sign in
/// front, within the range of an object's number.
pub open spec fn object_of(key: Seq<char>) -> Option<i32> {
    let digits = unsigned_part(key);
    let magnitude = numeral_value(digits);
    let value = if key.len() > 0 && key[0] == '-' {
        -magnitude
    } else {
        magnitude
    };
    if is_numeral(digits) && i32::MIN <= value <= i32::MAX {
        Some(value as i32)
    } else {
        None
    }
}

/// The magnitude of a numeral, if it is one and is at most two to the thirty-first.
fn magnitude_of(chars: &Vec<char>, from: usize) -> (r: Option<i64>)
    requires
        from <= chars@.len(),
    ensures
        ({
            let digits = chars@.subrange(from as int, chars@.len() as int);
            match r {
                Some(m) => is_numeral(digits) && m == numeral_value(digits) && 0 <= m <= 2147483648,
                None => !is_numeral(digits) || numeral_value(digits) > 2147483648,
            }
        }),
{
    let ghost digits = chars@.subrange(from as int, chars@.len() as int);
    if from == chars.len() {
        return None;
    }
    let mut m: i64 = 0;
    let mut i: usize = from;
    assert(digits.take(0) =~= Seq::<char>::empty());
    while i < chars.len()
        invariant
            from <= i <= chars@.len(),
            digits == chars@.subrange(from as int, chars@.len() as int),
            forall|j: int| 0 <= j < i - from ==> is_digit(#[trigger] digits[j]),
            m == numeral_value(digits.take(i - from)),
            0 <= m <= 2147483648,
        decreases chars@.len() - i,
    {
        let c: char = chars[i];
        assert(digits[i - from] == c);
        if c < '0' || c > '9' {
            return None;
        }
        let digit: i64 = (c as u32 - 48) as i64;
        assert(digits.take(i - from + 1).drop_last() =~= digits.take(i - from));
        m = 10 * m + digit;
        i = i + 1;
        if m > 2147483648 {
            proof {
                if is_numeral(digits) {
                    lemma_numeral_grows(digits, i - from);
                }
            }
            return None;
        }
    }
    assert(digits.take(i - from) =~= digits);
    Some(m)
}

proof fn lemma_numeral_grows(s: Seq<char>, n: int)
    requires
        is_numeral(s),
        0 <= n <= s.len(),
    ensures
        0 <= numeral_value(s.take(n)) <= numeral_value(s),
    decreases s.len() - n,
{
    if n == s.len() {
        assert(s.take(n) =~= s);
        lemma_numeral_not_negative(s);
    } else {
        lemma_numeral_grows(s, n + 1);
        assert(s.take(n + 1).drop_last() =~= s.take(n));
        assert(is_digit(s[n]));
        lemma_numeral_not_negative(s.take(n));
    }
}

proof fn lemma_numeral_not_negative(s: Seq<char>)
    requires
        forall|i: int| 0 <= i < s.len() ==> is_digit(#[trigger] s[i]),
    ensures
        0 <= numeral_value(s),
    decreases s.len(),
{
    if s.len() > 0 {
        assert(is_digit(s[s.len() - 1]));
        assert forall|i: int| 0 <= i < s.drop_last().len() implies is_digit(
            #[trigger] s.drop_last()[i],
        ) by {
            assert(is_digit(s[i]));
        }
        lemma_numeral_not_negative(s.drop_last());
    }
}

/// The number of the large object that a key stands for.
pub fn object_number(storage_key: &str) -> (r: Result<i32, DbError>)
    ensures
        match object_of(storage_key@) {
            Some(oid) => r == Ok::<i32, DbError>(oid),
            None => r matches Err(DbError::Other(words)) && words@ == "Invalid postgres OID: "@
                + storage_key@,
        },
{
    let chars = chars_of(storage_key);
    let negative: bool = chars.len() > 0 && chars[0] == '-';
    let from: usize = if chars.len() > 0 && (chars[0] == '-' || chars[0] == '+') {
        1
    } else {
        0
    };
    assert(chars@.subrange(from as int, chars@.len() as int) =~= unsigned_part(storage_key@));
    match magnitude_of(&chars, from) {
        Some(m) => {
            if negative {
                return Ok((-m) as i32);
            }
            if m <= 2147483647 {
                return Ok(m as i32);
            }
        },
        None => {},
    }
    Err(DbError::Other("Invalid postgres OID: ".to_owned().concat(storage_key)))
}

/// A key stands for the object that it was made for.
pub proof fn law_object_key_reads_back(oid: i32)
    ensures
        object_of(signed_decimal(oid as int)) == Some(oid),
{
    let key = signed_decimal(oid as int);
    if oid < 0 {
        lemma_decimal_value(-(oid as int));
        assert(key.drop_first() =~= decimal(-(oid as int)));
        assert(key[0] == '-');
    } else {
        lemma_decimal_value(oid as int);
        assert(is_digit(decimal(oid as int)[0]));
    }
}

proof fn lemma_decimal_value(n: int)
    requires
        0 <= n,
    ensures
        is_numeral(decimal(n)),
        numeral_value(decimal(n)) == n,
    decreases n,
{
    if n < 10 {
        assert(decimal(n).drop_last() =~= Seq::<char>::empty());
        assert(decimal(n).last() as int == 48 + n);
        assert(numeral_value(decimal(n).drop_last()) == 0);
    } else {
        lemma_decimal_value(n / 10);
        assert(decimal(n).drop_last() =~= decimal(n / 10));
        assert(decimal(n).last() as int == 48 + n % 10);
        assert forall|i: int| 0 <= i < decimal(n).len() implies is_digit(#[trigger] decimal(n)[i]) by {
            if i < decimal(n / 10).len() {
                assert(is_digit(decimal(n / 10)[i]));
            }
        }
    }
}

/// The name of the files database beside a database.
pub open spec fn files_database(base: Option<Seq<char>>) -> Seq<char> {
    (match base {
        Some(name) => name,
        None => "control_layer"@,
    }) + "_files"@
}

/// The name of the files database beside a database.
pub fn files_database_name(base: Option<&str>) -> (r: String)
    ensures
        r@ == files_database(crate::names::str_or_none(base)),
{
    let name: &str = match base {
        Some(n) => n,
        None => "control_layer",
    };
    name.to_owned().concat("_files")
}

/// The statement that makes a database.
pub fn create_database_query(name: &str) -> (r: String)
    ensures
        r@ == "CREATE DATABASE \""@ + name@ + "\""@,
{
    "CREATE DATABASE \"".to_owned().concat(name).concat("\"")
}

/// The database that files go to: one of their own, or else the main one.
pub fn storage_url<'a>(configured: Option<&'a str>, default_url: &'a str) -> (r: &'a str)
    ensures
        r@ == (match configured {
            Some(url) => url@,
            None => default_url@,
        }),
{
    match configured {
        Some(url) => url,
        None => default_url,
    }
}

/// What is done next to set up a files database.
#[derive(Debug, Clone, Copy, PartialEq, Eq, Structural)]
pub enum SetupStep {
    /// Connect to the files database.
    Connect,
    /// Connect to the server's own database, to make the files database there.
    ConnectToServer,
    /// Make the files database.
    Create,
    /// Connect to the files database that was made.
    ConnectToNew,
}

/// What follows a step of the setup.
#[derive(Debug)]
pub enum SetupNext {
    /// Another step.
    Step(SetupStep),
    /// The files database is connected.
    Ready,
    /// The setup failed.
    Failed(DbError),
}

/// In which words a step of the setup failed.
pub open spec fn setup_failure(step: SetupStep, database: Seq<char>, words: Seq<char>) -> Seq<char> {
    match step {
        SetupStep::Connect => "Failed to connect to files database '"@ + database + "': "@ + words,
        SetupStep::ConnectToServer =>
            "Failed to connect to postgres database to create files database: "@ + words,
        SetupStep::Create => "Failed to create files database '"@ + database + "': "@ + words,
        SetupStep::ConnectToNew => "Failed to connect to new files database '"@ + database + "': "@
            + words,
    }
}

/// What follows a step that went well.
pub open spec fn after_success(step: SetupStep) -> Option<SetupStep> {
    match step {
        SetupStep::Connect => None,
        SetupStep::ConnectToServer => Some(SetupStep::Create),
        SetupStep::Create => Some(SetupStep::ConnectToNew),
        SetupStep::ConnectToNew => None,
    }
}

/// Whether what followed a step is right.
pub open spec fn follows(
    next: SetupNext,
    step: SetupStep,
    failure: Option<Seq<char>>,
    database: Seq<char>,
) -> bool {
    match failure {
        None => match after_success(step) {
            Some(s) => next == SetupNext::Step(s),
            None => next == SetupNext::Ready,
        },
        Some(words) => if step == SetupStep::Connect && holds_text(words, "does not exist"@) {
            next == SetupNext::Step(SetupStep::ConnectToServer)
        } else {
            next matches SetupNext::Failed(DbError::Other(w)) && w@ == setup_failure(
                step,
                database,
                words,
            )
        },
    }
}

fn setup_failure_words(step: SetupStep, database: &str, words: &str) -> (r: String)
    ensures
        r@ == setup_failure(step, database@, words@),
{
    match step {
        SetupStep::Connect => "Failed to connect to files database '".to_owned().concat(
            database,
        ).concat("': ").concat(words),
        SetupStep::ConnectToServer =>
            "Failed to connect to postgres database to create files database: ".to_owned().concat(
            words,
        ),
        SetupStep::Create => "Failed to create files database '".to_owned().concat(database).concat(
            "': ",
        ).concat(words),
        SetupStep::ConnectToNew => "Failed to connect to new files database '".to_owned().concat(
            database,
        ).concat("': ").concat(words),
    }
}

/// What follows a step of the setup, given how the step failed, if it did. A
/// files database that does not exist is made; any other failure ends the setup.
pub fn after_setup_step(step: SetupStep, failure: Option<&str>, database: &str) -> (r: SetupNext)
    ensures
        follows(r, step, crate::names::str_or_none(failure), database@),
{
    match failure {
        None => match step {
            SetupStep::Connect => SetupNext::Ready,
            SetupStep::ConnectToServer => SetupNext::Step(SetupStep::Create),
            SetupStep::Create => SetupNext::Step(SetupStep::ConnectToNew),
            SetupStep::ConnectToNew => SetupNext::Ready,
        },
        Some(words) => {
            if step == SetupStep::Connect && contains_text(words, "does not exist") {
                SetupNext::Step(SetupStep::ConnectToServer)
            } else {
                SetupNext::Failed(DbError::Other(setup_failure_words(step, database, words)))
            }
        },
    }
}

/// How many steps a setup takes at most from a step on.
pub open spec fn steps_from(step: SetupStep) -> int {
    match step {
        SetupStep::Connect => 4,
        SetupStep::ConnectToServer => 3,
        SetupStep::Create => 2,
        SetupStep::ConnectToNew => 1,
    }
}

/// A setup ends, after four steps at most: no step comes twice.
pub proof fn law_setup_ends(
    step: SetupStep,
    failure: Option<Seq<char>>,
    database: Seq<char>,
    next: SetupNext,
)
    requires
        follows(next, step, failure, database),
    ensures
        next matches SetupNext::Step(s) ==> 0 < steps_from(s) < steps_from(step),
{
}

/// That a database address cannot be read, in words.
pub fn invalid_url(words: &str) -> (r: DbError)
    ensures
        r matches DbError::Other(w) && w@ == "Invalid database URL: "@ + words@,
{
    DbError::Other("Invalid database URL: ".to_owned().concat(words))
}

/// That a directory cannot be made, in words. The directory is given as it is to
/// be shown.
pub fn directory_failure(shown_path: &str, words: &str) -> (r: DbError)
    ensures
        r matches DbError::Other(w) && w@ == "Failed to create local storage directory "@
            + shown_path@ + ": "@ + words@,
{
    DbError::Other(
        "Failed to create local storage directory ".to_owned().concat(shown_path).concat(
            ": ",
        ).concat(words),
    )
}

/// A setup connects first. Only where the files database does not exist does it
/// go to the server, make the database there and connect to it; any other failure
/// ends it in words that hold the failure's own.
pub proof fn law_setup_makes_a_missing_database(
    step: SetupStep,
    words: Seq<char>,
    database: Seq<char>,
    well: SetupNext,
    badly: SetupNext,
)
    requires
        follows(well, step, None, database),
        follows(badly, step, Some(words), database),
    ensures
        step is Connect || step is ConnectToNew ==> well is Ready,
        step is ConnectToServer ==> well == SetupNext::Step(SetupStep::Create),
        step is Create ==> well == SetupNext::Step(SetupStep::ConnectToNew),
        badly is Step <==> step is Connect && holds_text(words, "does not exist"@),
        badly is Step ==> badly == SetupNext::Step(SetupStep::ConnectToServer),
        badly is Step || badly is Failed,
        badly matches SetupNext::Failed(DbError::Other(w)) ==> w@.len() > words.len() && w@.skip(
            w@.len() - words.len(),
        ) == words,
{
    reveal_strlit("Failed to connect to files database '");
    reveal_strlit("Failed to connect to postgres database to create files database: ");
    reveal_strlit("Failed to create files database '");
    reveal_strlit("Failed to connect to new files database '");
    if let SetupNext::Failed(DbError::Other(w)) = badly {
        assert(w@.skip(w@.len() - words.len()) =~= words);
    }
}

/// The files database is named after the database beside it.
pub proof fn law_files_databases_are_named_after_their_base(a: Seq<char>, b: Seq<char>)
    ensures
        files_database(Some(a)).take(a.len() as int) == a,
        files_database(Some(a)) == files_database(Some(b)) ==> a == b,
{
    let suffix = "_files"@;
    assert(files_database(Some(a)).take(a.len() as int) =~= a);
    if files_database(Some(a)) == files_database(Some(b)) {
        assert((a + suffix).len() == (b + suffix).len());
        assert(files_database(Some(b)).take(b.len() as int) =~= b);
    }
}

/// Files go to the database that is configured for them, and only without one to
/// the main database.
pub proof fn law_configured_storage_is_used(
    configured: Option<&str>,
    default_url: &str,
    r: &str,
)
    requires
        call_ensures(storage_url, (configured, default_url), r),
    ensures
        configured is Some ==> r@ == (configured->0)@,
        configured is None ==> r@ == default_url@,
{
}

/// The chunks of a content are full but for the last, and hold its bytes in order.
pub proof fn law_chunks_hold_the_bytes_in_order(
    content: Vec<u8>,
    r: Vec<Vec<u8>>,
    i: int,
    j: int,
)
    requires
        call_ensures(content_chunks, (&content,), r),
        0 <= i < r@.len(),
        0 <= j < r@[i]@.len(),
    ensures
        r@[i]@[j] == content@[8192 * i + j],
        i < r@.len() - 1 ==> r@[i]@.len() == 8192,
        r@[i]@.len() <= 8192,
        8192 * (r@.len() - 1) < content@.len() <= 8192 * r@.len(),
{
    assert(r@[i]@ == chunk(content@, i));
}

/// A large object's key is its number, and reads back as that.
pub proof fn law_object_keys_read_back(oid: i32, key: String, text: &str, r: Result<i32, DbError>)
    requires
        call_ensures(object_key, (oid,), key),
        text@ == key@,
        call_ensures(object_number, (text,), r),
    ensures
        r matches Ok(n) && n == oid,
{
    law_object_key_reads_back(oid);
}

}
