//! The messages of the registry's upload session, and the decisions taken
//! between its steps: start a session, send the manifest of build files,
//! upload the files the registry asks for, complete the session.
use vstd::prelude::*;
use crate::paths::{is_safe_subpath, safe_subpath};

verus! {

/// Request body for session start.
pub struct SessionStartRequest {
    /// Path of the project; the registry expects `/`.
    pub path: String,
}

/// Upload configuration of a started session.
pub struct SessionStartData {
    pub cl_link: String,
    pub expires_at: String,
    pub max_concurrent_uploads: i64,
    pub max_file_size: i64,
    pub max_files: i64,
}

/// Response to a session start.
pub struct SessionStartResponse {
    pub data: SessionStartData,
    pub err_message: String,
    pub req_result: bool,
}

/// Request body for session completion.
pub struct SessionCompleteRequest {
    pub commit_message: Option<String>,
}

/// Result of a completed session.
pub struct SessionCompleteData {
    pub cl_id: i64,
    pub cl_link: String,
    pub commit_id: String,
    pub created_at: String,
    pub files_count: i64,
}

/// Response to a session completion.
pub struct SessionCompleteResponse {
    pub data: SessionCompleteData,
    pub err_message: String,
    pub req_result: bool,
}

/// Result of one file upload.
pub struct SessionFileData {
    pub file_path: String,
    pub uploaded_size: i64,
    pub verified: bool,
}

/// Response to one file upload.
pub struct SessionFileResponse {
    pub data: SessionFileData,
    pub err_message: String,
    pub req_result: bool,
}

/// One build file listed in the manifest.
pub struct SessionManifestFile {
    pub hash: String,
    pub path: String,
    pub size: i64,
}

/// Request body for the manifest.
pub struct SessionManifestRequest {
    pub commit_message: Option<String>,
    pub files: Vec<SessionManifestFile>,
}

/// A file that the registry asks for.
pub struct SessionManifestUploadFile {
    pub path: String,
    pub reason: String,
}

/// What the registry wants after reading the manifest.
pub struct SessionManifestData {
    pub files_to_upload: Vec<SessionManifestUploadFile>,
    pub files_unchanged: i64,
    pub total_files: i64,
    pub total_size: i64,
    pub upload_size: i64,
}

/// Response to the manifest.
pub struct SessionManifestResponse {
    pub data: SessionManifestData,
    pub err_message: String,
    pub req_result: bool,
}

/// Why a push stops.
pub enum PushError {
    /// The registry refused a step, with its message.
    Refused(String),
    /// The registry asked for a path outside the project.
    UnsafePath(String),
}

/// The request that starts a session.
pub fn start_request() -> (r: SessionStartRequest)
    ensures
        r.path@ == "/"@,
{
    SessionStartRequest { path: String::from_str("/") }
}

/// The change-list link of a started session, or the registry's refusal.
pub fn started_link(resp: &SessionStartResponse) -> (r: Result<String, PushError>)
    ensures
        resp.req_result ==> (r matches Ok(l) && l@ == resp.data.cl_link@),
        !resp.req_result ==> (r matches Err(PushError::Refused(m)) && m@ == resp.err_message@),
{
    if resp.req_result {
        Ok(resp.data.cl_link.clone())
    } else {
        Err(PushError::Refused(resp.err_message.clone()))
    }
}

/// The manifest entry of a build file of `size` bytes whose SHA-1 digest,
/// in hex, is `sha1_hex`.
pub fn manifest_file(path: String, size: i64, sha1_hex: &str) -> (r: SessionManifestFile)
    ensures
        r.path@ == path@,
        r.size == size,
        r.hash@ == "sha1:"@ + sha1_hex@,
{
    let mut hash = String::from_str("sha1:");
    hash.append(sha1_hex);
    SessionManifestFile { hash, path, size }
}

/// The manifest request, with `message` or else the default commit message.
pub fn manifest_request(message: Option<String>, files: Vec<SessionManifestFile>) -> (r: SessionManifestRequest)
    ensures
        r.files@ == files@,
        r.commit_message matches Some(m) && m@ == match message {
            Some(x) => x@,
            None => "Update third-party BUCK files"@,
        },
{
    let m = match message {
        Some(x) => x,
        None => String::from_str("Update third-party BUCK files"),
    };
    SessionManifestRequest { commit_message: Some(m), files }
}

/// The paths that the registry asks for, once each is known to stay inside
/// the project; the registry's refusal or the first unsafe path otherwise.
pub fn paths_to_upload(resp: &SessionManifestResponse) -> (r: Result<Vec<String>, PushError>)
    ensures
        !resp.req_result ==> (r matches Err(PushError::Refused(m)) && m@ == resp.err_message@),
        resp.req_result ==> (r is Ok <==> forall|i: int|
            0 <= i < resp.data.files_to_upload@.len() ==> safe_subpath(
                #[trigger] resp.data.files_to_upload@[i].path@,
            )),
        r is Err && resp.req_result ==> (r matches Err(PushError::UnsafePath(p)) && !safe_subpath(p@)),
        r matches Ok(ps) ==> ps@.len() == resp.data.files_to_upload@.len() && forall|i: int|
            0 <= i < ps@.len() ==> (#[trigger] ps@[i])@ == resp.data.files_to_upload@[i].path@,
{
    if !resp.req_result {
        return Err(PushError::Refused(resp.err_message.clone()));
    }
    let files = &resp.data.files_to_upload;
    let mut out: Vec<String> = Vec::new();
    let mut i: usize = 0;
    while i < files.len()
        invariant
            0 <= i <= files@.len(),
            files == &resp.data.files_to_upload,
            resp.req_result,
            out@.len() == i,
            forall|j: int| 0 <= j < i ==> safe_subpath(#[trigger] files@[j].path@),
            forall|j: int| 0 <= j < i ==> (#[trigger] out@[j])@ == files@[j].path@,
        decreases files@.len() - i,
    {
        if !is_safe_subpath(files[i].path.as_str()) {
            return Err(PushError::UnsafePath(files[i].path.clone()));
        }
        out.push(files[i].path.clone());
        i = i + 1;
    }
    Ok(out)
}

/// Whether a file upload went through, or the registry's refusal.
pub fn check_file_upload(resp: &SessionFileResponse) -> (r: Result<(), PushError>)
    ensures
        r is Ok <==> resp.req_result,
        r matches Err(PushError::Refused(m)) ==> m@ == resp.err_message@,
        r is Err ==> r->Err_0 is Refused,
{
    if resp.req_result {
        Ok(())
    } else {
        Err(PushError::Refused(resp.err_message.clone()))
    }
}

/// The request that completes a session.
pub fn complete_request() -> (r: SessionCompleteRequest)
    ensures
        r.commit_message is None,
{
    SessionCompleteRequest { commit_message: None }
}

/// Whether the session completed, or the registry's refusal.
pub fn check_complete(resp: &SessionCompleteResponse) -> (r: Result<(), PushError>)
    ensures
        r is Ok <==> resp.req_result,
        r matches Err(PushError::Refused(m)) ==> m@ == resp.err_message@,
        r is Err ==> r->Err_0 is Refused,
{
    if resp.req_result {
        Ok(())
    } else {
        Err(PushError::Refused(resp.err_message.clone()))
    }
}

/// The endpoint of session step `step` (`manifest`, `file` or `complete`)
/// under the registry's API root.
pub fn session_url(api: &str, cl_link: &str, step: &str) -> (r: String)
    ensures
        r@ == api@ + "/api/v1/buck/session/"@ + cl_link@ + "/"@ + step@,
{
    let mut s = String::from_str(api);
    s.append("/api/v1/buck/session/");
    s.append(cl_link);
    s.append("/");
    s.append(step);
    s
}

/// The endpoint that starts a session under the registry's API root.
pub fn start_url(api: &str) -> (r: String)
    ensures
        r@ == api@ + "/api/v1/buck/session/start"@,
{
    let mut s = String::from_str(api);
    s.append("/api/v1/buck/session/start");
    s
}

} // verus!
