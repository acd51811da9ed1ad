use vstd::prelude::*;
use crate::error::Error;

verus! {

pub const STATUS_OK: u16 = 200;

pub const STATUS_NOT_FOUND: u16 = 404;

pub const STATUS_METHOD_NOT_ALLOWED: u16 = 405;

pub const STATUS_INTERNAL_ERROR: u16 = 500;

/// A file whose uncompressed size does not exceed this many bytes is never
/// gzip-compressed.
pub const MIN_GZIP_SIZE: usize = 1024;

/// What flate2's gzip encoder produces at its fastest level.  Named, not
/// spelled out: the encoding belongs to the flate2 crate.  The encoder
/// writes no time stamp, so the output depends on the input bytes alone.
pub uninterp spec fn gzip_fast_of(data: Seq<u8>) -> Seq<u8>;

/// Relies on `flate2::bufread::GzEncoder` over an in-memory slice at
/// `Compression::fast`, read to end: the output is the gzip encoding of the
/// input bytes.  The call always succeeds: reading from an in-memory slice
/// cannot fail, and the compressor's remaining failure arms are for invalid
/// parameters (flate2 passes its own, valid ones) and for a custom-callback
/// buffer path that plain compression never takes.
#[verifier::external_body]
fn gzip_compress(data: &Vec<u8>) -> (r: Result<Vec<u8>, String>)
    ensures
        r is Ok,
        r matches Ok(out) ==> out@ == gzip_fast_of(data@),
{
    let mut enc = flate2::bufread::GzEncoder::new(&data[..], flate2::Compression::fast());
    let mut out = Vec::new();
    match std::io::Read::read_to_end(&mut enc, &mut out) {
        Ok(_) => Ok(out),
        Err(e) => Err(e.to_string()),
    }
}

/// A buffered response: status, the headers the wire format needs, and the
/// full body.  `content_length` always equals the number of bytes in
/// `body`, also when the body is compressed: the advertised length is the
/// length of what is actually placed on the wire.
pub struct HttpResponse {
    pub status: u16,
    pub content_length: u64,
    pub content_type: Option<String>,
    pub gzip: bool,
    pub body: Vec<u8>,
}

impl HttpResponse {
    /// The advertised content length is the transmitted body's length.
    pub open spec fn well_formed(self) -> bool {
        self.content_length == self.body@.len()
    }
}

/// Whether a response body of the given uncompressed length is to be
/// gzip-compressed: only when the client advertised gzip support and the
/// length exceeds `MIN_GZIP_SIZE`.
pub open spec fn spec_wants_gzip(accept_gzip: bool, len: nat) -> bool {
    accept_gzip && len > MIN_GZIP_SIZE
}

fn empty_response(status: u16) -> (r: HttpResponse)
    ensures
        r.status == status,
        r.well_formed(),
        r.body@.len() == 0,
        r.content_type is None,
        !r.gzip,
{
    HttpResponse {
        status,
        content_length: 0,
        content_type: None,
        gzip: false,
        body: Vec::new(),
    }
}

/// The response to a request whose method is not GET: 405 with no body.
pub fn method_not_allowed_response() -> (r: HttpResponse)
    ensures
        r.status == STATUS_METHOD_NOT_ALLOWED,
        r.well_formed(),
        r.body@.len() == 0,
        r.content_type is None,
        !r.gzip,
{
    empty_response(STATUS_METHOD_NOT_ALLOWED)
}

/// Builds the success response for a file's bytes.  Gzip is applied exactly
/// when the client advertised it and the uncompressed length exceeds
/// `MIN_GZIP_SIZE`; otherwise the body is served byte-identical.
pub fn build_file_response(data: Vec<u8>, accept_gzip: bool, ctype: Option<String>) -> (resp:
    HttpResponse)
    ensures
        resp.status == STATUS_OK,
        resp.well_formed(),
        resp.gzip == spec_wants_gzip(accept_gzip, data@.len()),
        resp.content_type == ctype,
        spec_wants_gzip(accept_gzip, data@.len()) ==> resp.body@ == gzip_fast_of(data@),
        !spec_wants_gzip(accept_gzip, data@.len()) ==> resp.body@ == data@,
{
    let len = data.len();
    let gz = accept_gzip && len > MIN_GZIP_SIZE;
    let body: Vec<u8> = if gz {
        match gzip_compress(&data) {
            Ok(out) => out,
            Err(_) => vstd::pervasive::unreached(),
        }
    } else {
        data
    };
    let content_length = body.len() as u64;
    HttpResponse {
        status: STATUS_OK,
        content_length,
        content_type: ctype,
        gzip: gz,
        body,
    }
}

/// Translates a typed failure into a response: a missing file becomes 404,
/// any other filesystem failure becomes 500 with an empty
/// body and its cause kept out of the response; a transport failure is
/// propagated untranslated.
pub fn translate_error(err: Error) -> (r: Result<HttpResponse, Error>)
    ensures
        (r is Err) <==> (err is Transport),
        err is Transport ==> r == Err::<HttpResponse, Error>(err),
        err is FileNotFound ==> (r matches Ok(resp) && resp.status == STATUS_NOT_FOUND
            && resp.well_formed() && resp.body@.len() == 0 && resp.content_type is None
            && !resp.gzip),
        (err is Io || err is Msg) ==> (r matches Ok(resp) && resp.status
            == STATUS_INTERNAL_ERROR && resp.well_formed() && resp.body@.len() == 0
            && resp.content_type is None && !resp.gzip),
{
    match err {
        Error::Transport(m) => Err(Error::Transport(m)),
        Error::FileNotFound => Ok(empty_response(STATUS_NOT_FOUND)),
        Error::Io(_) => Ok(empty_response(STATUS_INTERNAL_ERROR)),
        Error::Msg(_) => Ok(empty_response(STATUS_INTERNAL_ERROR)),
    }
}

/// Completes a request once the file read has been attempted: a successful
/// read becomes the 200 response, gzip applied exactly when advertised and
/// the uncompressed length exceeds `MIN_GZIP_SIZE`; a failed read is
/// translated to its status code.
pub fn complete_read(read: Result<Vec<u8>, Error>, accept_gzip: bool, ctype: Option<String>)
    -> (r: Result<HttpResponse, Error>)
    ensures
        read matches Ok(data) ==> r matches Ok(resp) && {
            let wants = spec_wants_gzip(accept_gzip, data@.len());
            &&& resp.status == STATUS_OK
            &&& resp.well_formed()
            &&& resp.gzip == wants
            &&& resp.content_type == ctype
            &&& (wants ==> resp.body@ == gzip_fast_of(data@))
            &&& (!wants ==> resp.body@ == data@)
        },
        read matches Err(e) && e is FileNotFound ==> (r matches Ok(resp) && resp.status
            == STATUS_NOT_FOUND && resp.well_formed() && resp.body@.len() == 0),
        read matches Err(e) && (e is Io || e is Msg) ==> (r matches Ok(resp) && resp.status
            == STATUS_INTERNAL_ERROR && resp.well_formed() && resp.body@.len() == 0),
        read matches Err(Error::Transport(m)) ==> r == Err::<HttpResponse, Error>(
            Error::Transport(m),
        ),
{
    match read {
        Ok(data) => Ok(build_file_response(data, accept_gzip, ctype)),
        Err(e) => translate_error(e),
    }
}

} // verus!
