//! Static file responses.
//!
//! The shell opens and reads the file; this module decides the response. A
//! file whose read yields fewer bytes than its reported size is an error,
//! never a silently truncated success.

use vstd::prelude::*;
use crate::server::error::Error;

verus! {

/// The body of a response: page text or raw file bytes.
pub enum ResponseBody {
    /// An HTML or CSS page generated by the server.
    Text(String),
    /// The bytes of a served file.
    Bytes(Vec<u8>),
}

/// A plain HTTP response, for the shell to put on the wire.
pub struct HttpResponse {
    /// The HTTP status code.
    pub status: u16,
    /// The `Content-Type` header value, if one is set.
    pub content_type: Option<String>,
    /// The response body.
    pub body: ResponseBody,
}

/// What the shell found when it tried to read the file.
pub enum FileReadOutcome {
    /// The file could not be opened.
    Missing,
    /// The file opened but its size could not be read.
    MetadataFailed,
    /// The file's reported size, and the bytes a read of that many yielded.
    Content { reported_len: usize, bytes: Vec<u8> },
}

/// The media type `mime_guess` derives from a path's extension; a pure
/// lookup in the crate's compiled-in table, `text/plain` when unknown.
pub uninterp spec fn mime_for_path(path: Seq<char>) -> Seq<char>;

/// Relies on `mime_guess::from_path` and `MimeGuess::first_or_text_plain`:
/// the guess is a function of the path's extension alone, looked up in a
/// fixed table compiled into the crate.
#[verifier::external_body]
fn guess_mime(path: &str) -> (r: String)
    ensures
        r@ == mime_for_path(path@),
{
    mime_guess::from_path(path).first_or_text_plain().as_ref().to_string()
}

/// The size the filesystem reported for the file.
pub open spec fn content_len(o: FileReadOutcome) -> int {
    match o {
        FileReadOutcome::Content { reported_len, bytes } => reported_len as int,
        _ => 0,
    }
}

/// The bytes the read yielded.
pub open spec fn content_bytes(o: FileReadOutcome) -> Seq<u8> {
    match o {
        FileReadOutcome::Content { reported_len, bytes } => bytes@,
        _ => Seq::empty(),
    }
}

/// Builds the response for a static file.
///
/// A missing file is an empty 404. A readable file is a 200 whose body is
/// exactly the bytes read and whose `Content-Type` comes from the path's
/// extension — but only when the read yielded exactly the reported size;
/// any shortfall is an explicit error, never a truncated success.
pub fn static_path(path: &String, outcome: FileReadOutcome) -> (r: Result<HttpResponse, Error>)
    ensures
        outcome is Missing ==> ({
            &&& r matches Ok(resp)
            &&& resp.status == 404
            &&& resp.content_type is None
            &&& resp.body matches ResponseBody::Bytes(b)
            &&& b@.len() == 0
        }),
        outcome is MetadataFailed ==> ({
            &&& r matches Err(e)
            &&& e matches Error::FileMetadataError(p)
            &&& p@ == path@
        }),
        outcome is Content && content_bytes(outcome).len() == content_len(outcome) ==> ({
            &&& r matches Ok(resp)
            &&& resp.status == 200
            &&& resp.content_type matches Some(ct)
            &&& ct@ == mime_for_path(path@)
            &&& resp.body matches ResponseBody::Bytes(b)
            &&& b@ == content_bytes(outcome)
            &&& b@.len() == content_len(outcome)
        }),
        outcome is Content && content_bytes(outcome).len() != content_len(outcome) ==> ({
            &&& r matches Err(e)
            &&& e matches Error::FileReadBufferOverflow(p)
            &&& p@ == path@
        }),
{
    match outcome {
        FileReadOutcome::Missing => Ok(
            HttpResponse { status: 404, content_type: None, body: ResponseBody::Bytes(Vec::new()) },
        ),
        FileReadOutcome::MetadataFailed => Err(Error::FileMetadataError(path.clone())),
        FileReadOutcome::Content { reported_len, bytes } => {
            if bytes.len() != reported_len {
                Err(Error::FileReadBufferOverflow(path.clone()))
            } else {
                let mime_type = guess_mime(path.as_str());
                Ok(
                    HttpResponse {
                        status: 200,
                        content_type: Some(mime_type),
                        body: ResponseBody::Bytes(bytes),
                    },
                )
            }
        },
    }
}

} // verus!
