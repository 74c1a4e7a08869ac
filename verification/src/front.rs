use vstd::prelude::*;

use crate::lit;

verus! {

/// What the upstream response carried: its status and, when present, the
/// content type and content length header values.
pub struct UpstreamMeta {
    pub status: u16,
    pub content_type: Option<Vec<u8>>,
    pub content_length: Option<Vec<u8>>,
}

/// What the segment passthrough answers with.
pub struct ProxyResponseMeta {
    pub status: u16,
    pub content_type: Vec<u8>,
    pub content_length: Option<Vec<u8>>,
    pub allow_origin: Vec<u8>,
}

/// Decides the passthrough response head: the upstream status is kept, the
/// content type is forwarded or defaults to the octet-stream type, the
/// content length is forwarded when present, and cross-origin access is
/// open.
pub fn proxy_response_meta(m: UpstreamMeta) -> (r: ProxyResponseMeta)
    ensures
        r.status == m.status,
        match m.content_type {
            Some(c) => r.content_type@ == c@,
            None => r.content_type@ == lit::octet_stream_lit_spec(),
        },
        match m.content_length {
            Some(l) => r.content_length matches Some(o) && o@ == l@,
            None => r.content_length is None,
        },
        r.allow_origin@ == lit::star_lit_spec(),
{
    let content_type = match m.content_type {
        Some(c) => c,
        None => lit::octet_stream_lit(),
    };
    ProxyResponseMeta {
        status: m.status,
        content_type,
        content_length: m.content_length,
        allow_origin: lit::star_lit(),
    }
}

/// The web base a request's Host header induces: `http://` before the
/// header's value, or before the loopback default when the header is
/// missing.
pub fn request_base_url(host: Option<Vec<u8>>) -> (r: Vec<u8>)
    ensures
        match host {
            Some(h) => r@ == lit::http_scheme_spec() + h@,
            None => r@ == lit::http_scheme_spec() + lit::default_host_spec(),
        },
{
    let mut url = lit::http_scheme();
    let tail = match host {
        Some(h) => h,
        None => lit::default_host(),
    };
    crate::text::append_bytes(&mut url, &tail);
    url
}

/// What the playlist endpoint answers with on success.
pub struct StreamResponseMeta {
    pub content_type: Vec<u8>,
    pub allow_origin: Vec<u8>,
}

/// Decides the playlist response head: the HLS content type, and open
/// cross-origin access.
pub fn stream_response_meta() -> (r: StreamResponseMeta)
    ensures
        r.content_type@ == lit::mpegurl_lit_spec(),
        r.allow_origin@ == lit::star_lit_spec(),
{
    StreamResponseMeta { content_type: lit::mpegurl_lit(), allow_origin: lit::star_lit() }
}

} // verus!
