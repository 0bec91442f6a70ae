//! The Canvas Data API side of the loader: the payload shapes, request
//! signing, and the decisions taken over API responses.
//!
//! The HTTPS round-trips themselves happen outside this crate; what is
//! here is everything about them that can be pinned down: how the
//! authorization header is computed, where dump files are saved, which
//! files of a dump still need downloading, how a table definition is
//! found in a schema, and when a dump counts as a historical refresh.

use vstd::prelude::*;
use vstd::string::StringExecFns;
use vstd::string::StrSliceExecFns;
use crate::settings::Settings;
use crate::strings::{lower_spec, ascii_lower, starts_with_str, str_eq, to_char_vec,
    vec_contains_str};

verus! {

/// A dump returned from the list-dumps endpoint.  Timestamps are UTC
/// epoch milliseconds.
pub struct DumpInList {
    /// The ID of this particular dump.
    pub dump_id: String,
    /// The sequence number of this dump.
    pub sequence: i64,
    /// The account this dump is for.
    pub account_id: String,
    /// The number of files this dump is reporting.
    pub num_files: i64,
    /// Whether this dump has finished populating.
    pub finished: bool,
    /// When this dump is set to expire.
    pub expires: i64,
    /// When this dump was last updated, in UTC epoch milliseconds.
    pub updated_at: i64,
    /// When this dump was created, in UTC epoch milliseconds.
    pub created_at: i64,
    /// The schema version this dump is using.
    pub schema_version: String,
}

/// The list of files of one dump.
pub struct FilesInDumpResponse {
    /// The account these files are for.
    pub account_id: String,
    /// When these files expire.
    pub expires: i64,
    /// The sequence of the dump these files are a part of.
    pub sequence: i64,
    /// When these files were last updated, in UTC epoch milliseconds.
    pub updated_at: i64,
    /// The schema version these files are at.
    pub schema_version: String,
    /// The number of files that exist.
    pub num_files: i64,
    /// When the dump was created, in UTC epoch milliseconds.
    pub created_at: i64,
    /// The dump these files are related to.
    pub dump_id: String,
    /// Whether the dump is finished.
    pub finished: bool,
    /// The artifacts, one per table.
    pub artifacts_by_table: Vec<ArtifactByTable>,
}

/// All files of one table within one dump.
pub struct ArtifactByTable {
    /// The table these files belong to.
    pub table_name: String,
    /// Whether this is a partial table.
    pub partial: bool,
    /// The files of this table, in order.
    pub files: Vec<BasicFile>,
}

/// One downloadable file of an artifact.
pub struct BasicFile {
    /// The URL to download this file from.
    pub url: String,
    /// The name of this file.
    pub filename: String,
}

impl Clone for BasicFile {
    fn clone(&self) -> (r: Self)
        ensures
            r == *self,
    {
        BasicFile { url: self.url.clone(), filename: self.filename.clone() }
    }
}

/// The versioned schema catalogue returned by the schema endpoint.
pub struct SchemaDefinition {
    /// The version of the schema.
    pub version: String,
    /// The table definitions of the catalogue.
    pub schema: Vec<TableDefinition>,
}

/// The definition of one table.
pub struct TableDefinition {
    /// The warehouse type: dimension or fact.
    pub dw_type: String,
    /// An optional description of the table.
    pub description: Option<String>,
    /// Occasional hints, such as a sort key.
    pub hints: Vec<(String, String)>,
    /// Whether this table is incremental.
    pub incremental: bool,
    /// The name of this table.
    pub table_name: String,
    /// The columns of this table, in payload order.
    pub columns: Vec<ColumnDefinition>,
}

/// The definition of one column.
pub struct ColumnDefinition {
    /// The vendor type of this column.
    pub db_type: String,
    /// An optional description of this column.
    pub description: Option<String>,
    /// The name of this column.
    pub name: String,
    /// An optional length of this column.
    pub length: Option<i64>,
    /// Optional dimension information.
    pub dimension: Option<DimensionDefinition>,
}

/// Dimension information of a column.
pub struct DimensionDefinition {
    /// The name of this dimension.
    pub name: String,
    /// The ID of this dimension.
    pub id: String,
    /// An optional role of this dimension.
    pub role: Option<String>,
}

/// What an HMAC-SHA256 tag is for a given key and message; the vendor
/// signs the UTF-8 bytes of both.
pub uninterp spec fn hmac_sha256_of(key: Seq<char>, msg: Seq<char>) -> Seq<u8>;

/// Relies on ring's hmac::sign with HMAC_SHA256 over the UTF-8 bytes of
/// key and message: the tag is a function of those characters alone.
#[verifier::external_body]
fn hmac_sha256(key: &str, msg: &str) -> (r: Vec<u8>)
    ensures
        r@ == hmac_sha256_of(key@, msg@),
{
    let k = ring::hmac::Key::new(ring::hmac::HMAC_SHA256, key.as_bytes());
    ring::hmac::sign(&k, msg.as_bytes()).as_ref().to_vec()
}

/// What the standard base64 encoding (RFC 4648, with padding) of a byte
/// sequence is.
pub uninterp spec fn base64_of(b: Seq<u8>) -> Seq<char>;

/// Relies on the base64 crate's STANDARD engine: the encoding is a
/// function of the bytes alone.
#[verifier::external_body]
fn base64_encode(b: &Vec<u8>) -> (r: String)
    ensures
        r@ == base64_of(b@),
{
    base64::engine::Engine::encode(&base64::engine::general_purpose::STANDARD, b.as_slice())
}

/// The string that is signed for one request: the request parts and the
/// secret, each terminated by a newline, with the secret last.
pub open spec fn pre_sign_spec(
    method: Seq<char>,
    host: Seq<char>,
    content_type: Seq<char>,
    content_md5: Seq<char>,
    path: Seq<char>,
    query: Seq<char>,
    date: Seq<char>,
    secret: Seq<char>,
) -> Seq<char> {
    method + "\n"@ + host + "\n"@ + content_type + "\n"@ + content_md5 + "\n"@ + path + "\n"@
        + query + "\n"@ + date + "\n"@ + secret
}

/// The value of the authorization header: the API key and the base64 of
/// the HMAC-SHA256 tag of the signing string, under the secret.
pub open spec fn auth_header_spec(
    key: Seq<char>,
    secret: Seq<char>,
    pre_sign: Seq<char>,
) -> Seq<char> {
    "HMACAuth "@ + key + ":"@ + base64_of(hmac_sha256_of(secret, pre_sign))
}

/// The API client for Canvas Data: the credentials and the save root.
/// The HTTP client that carries its requests lives outside this crate.
pub struct CanvasDataApiClient {
    /// The API key.
    pub api_key: String,
    /// The API secret.
    pub api_secret: String,
    /// The directory under which dump files are saved.
    pub save_location: String,
}

impl CanvasDataApiClient {
    /// Create a client for the given settings.
    pub fn new(settings: &Settings) -> (r: Self)
        ensures
            r.api_key == settings.canvasdataauth.api_key,
            r.api_secret == settings.canvasdataauth.api_secret,
            r.save_location == settings.save_location,
    {
        CanvasDataApiClient {
            api_key: settings.get_canvas_data_api_key(),
            api_secret: settings.get_canvas_data_api_secret(),
            save_location: settings.get_save_location(),
        }
    }

    /// Compute the authorization header for one request.
    pub fn compute_auth_header(
        &self,
        http_method: &str,
        host: &str,
        content_type: &str,
        content_md5: &str,
        path: &str,
        query_params: &str,
        date_header: &str,
    ) -> (r: String)
        ensures
            r@ == auth_header_spec(
                self.api_key@,
                self.api_secret@,
                pre_sign_spec(
                    http_method@,
                    host@,
                    content_type@,
                    content_md5@,
                    path@,
                    query_params@,
                    date_header@,
                    self.api_secret@,
                ),
            ),
    {
        let mut pre_sign = String::new();
        pre_sign.append(http_method);
        pre_sign.append("\n");
        pre_sign.append(host);
        pre_sign.append("\n");
        pre_sign.append(content_type);
        pre_sign.append("\n");
        pre_sign.append(content_md5);
        pre_sign.append("\n");
        pre_sign.append(path);
        pre_sign.append("\n");
        pre_sign.append(query_params);
        pre_sign.append("\n");
        pre_sign.append(date_header);
        pre_sign.append("\n");
        pre_sign.append(self.api_secret.as_str());
        let tag = hmac_sha256(self.api_secret.as_str(), pre_sign.as_str());
        let encoded = base64_encode(&tag);
        let mut out = "HMACAuth ".to_owned();
        out.append(self.api_key.as_str());
        out.append(":");
        out.append(encoded.as_str());
        out
    }

    /// Relies on chrono's Utc::now and its formatter: the current UTC
    /// instant rendered as `YYYY-MM-DDTHH:MM:SS.sssZ`.  The result
    /// depends on the clock, so nothing is promised of it.
    #[verifier::external_body]
    pub fn get_current_date(&self) -> String {
        chrono::Utc::now().format("%Y-%m-%dT%H:%M:%S%.3fZ").to_string()
    }

    /// Whether every file of every artifact is a request-log file.
    pub fn is_historical_refresh(&self, resp: &FilesInDumpResponse) -> (r: bool)
        ensures
            r == all_files_requests(*resp),
    {
        let arts = &resp.artifacts_by_table;
        let n = arts.len();
        for a in 0..n
            invariant
                n == arts@.len(),
                arts == resp.artifacts_by_table,
                forall|i: int, j: int|
                    0 <= i < a && 0 <= j < #[trigger] arts@[i].files@.len() ==> is_requests_file(
                        #[trigger] arts@[i].files@[j].filename@,
                    ),
        {
            let files = &arts[a].files;
            let m = files.len();
            for f in 0..m
                invariant
                    n == arts@.len(),
                    arts == resp.artifacts_by_table,
                    a < n,
                    m == files@.len(),
                    files == arts@[a as int].files,
                    forall|i: int, j: int|
                        0 <= i < a && 0 <= j < #[trigger] arts@[i].files@.len()
                            ==> is_requests_file(#[trigger] arts@[i].files@[j].filename@),
                    forall|j: int|
                        0 <= j < f ==> is_requests_file(#[trigger] files@[j].filename@),
            {
                if !file_name_is_requests(files[f].filename.as_str()) {
                    return false;
                }
            }
        }
        true
    }
}

/// Whether a filename belongs to the request log: it starts with
/// `requests` and the rest of the name holds no newline.
pub open spec fn is_requests_file(name: Seq<char>) -> bool {
    &&& name.len() >= "requests"@.len()
    &&& name.subrange(0, "requests"@.len() as int) == "requests"@
    &&& forall|i: int| "requests"@.len() <= i < name.len() ==> name[i] != '\n'
}

/// Decide whether one filename is a request-log file.
pub fn file_name_is_requests(name: &str) -> (r: bool)
    ensures
        r == is_requests_file(name@),
{
    if !starts_with_str(name, "requests") {
        return false;
    }
    let cs = to_char_vec(name);
    let n = cs.len();
    let start = "requests".unicode_len();
    for i in start..n
        invariant
            n == name@.len(),
            cs@ == name@,
            start == "requests"@.len(),
            start <= n,
            forall|j: int| start <= j < i ==> name@[j] != '\n',
    {
        if cs[i] == '\n' {
            return false;
        }
    }
    true
}

/// Whether every filename across all artifacts is a request-log file.
pub open spec fn all_files_requests(resp: FilesInDumpResponse) -> bool {
    forall|a: int, f: int|
        0 <= a < resp.artifacts_by_table@.len() && 0 <= f
            < #[trigger] resp.artifacts_by_table@[a].files@.len() ==> is_requests_file(
            #[trigger] resp.artifacts_by_table@[a].files@[f].filename@,
        )
}

/// The first table of the catalogue whose lower-cased name equals `name`.
pub open spec fn find_table_spec(tables: Seq<TableDefinition>, name: Seq<char>) -> Option<
    TableDefinition,
>
    decreases tables.len(),
{
    if tables.len() == 0 {
        None
    } else if lower_spec(tables[0].table_name@) == name {
        Some(tables[0])
    } else {
        find_table_spec(tables.skip(1), name)
    }
}

/// Find the table definition whose lower-cased name equals `table_name`.
pub fn find_table_definition<'a>(schema: &'a SchemaDefinition, table_name: &str) -> (r: Option<
    &'a TableDefinition,
>)
    ensures
        match r {
            Some(d) => find_table_spec(schema.schema@, table_name@) == Some(*d),
            None => find_table_spec(schema.schema@, table_name@) is None,
        },
{
    let ghost tv = schema.schema@;
    let n = schema.schema.len();
    proof {
        assert(tv.skip(0) =~= tv);
    }
    for i in 0..n
        invariant
            n == schema.schema@.len(),
            tv == schema.schema@,
            find_table_spec(tv, table_name@) == find_table_spec(tv.skip(i as int), table_name@),
    {
        proof {
            assert(tv.skip(i as int)[0] == tv[i as int]);
            assert(tv.skip(i as int).skip(1) =~= tv.skip(i + 1));
        }
        let lowered = ascii_lower(schema.schema[i].table_name.as_str());
        if str_eq(lowered.as_str(), table_name) {
            return Some(&schema.schema[i]);
        }
    }
    proof {
        assert(tv.skip(n as int) =~= Seq::<TableDefinition>::empty());
    }
    None
}

/// The files an artifact still needs: none when its first file is
/// already present locally, all of them otherwise.
pub open spec fn artifact_downloads(a: ArtifactByTable, present: Seq<Seq<char>>) -> Seq<
    BasicFile,
> {
    if a.files@.len() > 0 && !present.contains(a.files@[0].filename@) {
        a.files@
    } else {
        Seq::<BasicFile>::empty()
    }
}

/// The downloads a whole dump still needs, artifact by artifact.
pub open spec fn downloads_spec(arts: Seq<ArtifactByTable>, present: Seq<Seq<char>>) -> Seq<
    BasicFile,
>
    decreases arts.len(),
{
    if arts.len() == 0 {
        Seq::<BasicFile>::empty()
    } else {
        artifact_downloads(arts[0], present) + downloads_spec(arts.skip(1), present)
    }
}

/// Plan the downloads of one dump.  `present` are the filenames already
/// on disk under the dump's directory; an artifact whose first file is
/// present is assumed fully cached and skipped whole.
pub fn plan_downloads(resp: &FilesInDumpResponse, present: &Vec<String>) -> (r: Vec<BasicFile>)
    ensures
        r@ == downloads_spec(resp.artifacts_by_table@, present.deep_view()),
{
    let ghost av = resp.artifacts_by_table@;
    let ghost pv = present.deep_view();
    let mut out: Vec<BasicFile> = Vec::new();
    let n = resp.artifacts_by_table.len();
    proof {
        assert(av.skip(0) =~= av);
    }
    for i in 0..n
        invariant
            n == resp.artifacts_by_table@.len(),
            av == resp.artifacts_by_table@,
            pv == present.deep_view(),
            downloads_spec(av, pv) =~= out@ + downloads_spec(av.skip(i as int), pv),
    {
        proof {
            assert(av.skip(i as int)[0] == av[i as int]);
            assert(av.skip(i as int).skip(1) =~= av.skip(i + 1));
        }
        let files = &resp.artifacts_by_table[i].files;
        if files.len() > 0 && !vec_contains_str(present, files[0].filename.as_str()) {
            let m = files.len();
            let ghost base = out@;
            for j in 0..m
                invariant
                    m == files@.len(),
                    files == av[i as int].files,
                    out@ == base + files@.take(j as int),
            {
                out.push(files[j].clone());
                assert(files@.take(j + 1) =~= files@.take(j as int).push(files@[j as int]));
            }
            proof {
                assert(files@.take(m as int) =~= files@);
                assert(out@ =~= base + artifact_downloads(av[i as int], pv));
            }
        } else {
            proof {
                assert(artifact_downloads(av[i as int], pv) =~= Seq::<BasicFile>::empty());
            }
        }
    }
    proof {
        assert(av.skip(n as int) =~= Seq::<ArtifactByTable>::empty());
        assert(downloads_spec(av, pv) =~= out@);
    }
    out
}

/// The directory one dump's files are saved under.
pub fn dump_directory(save_location: &str, dump_id: &str) -> (r: String)
    ensures
        r@ == save_location@ + "/"@ + dump_id@,
{
    let mut s = save_location.to_owned();
    s.append("/");
    s.append(dump_id);
    s
}

/// The path one file of a dump is saved at.
pub fn file_path_in_dump(save_location: &str, dump_id: &str, filename: &str) -> (r: String)
    ensures
        r@ == save_location@ + "/"@ + dump_id@ + "/"@ + filename@,
{
    let mut s = save_location.to_owned();
    s.append("/");
    s.append(dump_id);
    s.append("/");
    s.append(filename);
    s
}

} // verus!
