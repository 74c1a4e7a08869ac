use vstd::prelude::*;

use crate::lit;
use crate::text;

verus! {

/// Why a rewrite failed.
#[derive(Debug)]
pub enum RewriteError {
    /// The base URL did not parse.
    InvalidBaseUrl,
    /// A playlist line did not resolve against the base.
    UnresolvableLine,
}

impl RewriteError {
    /// A short description of the failure.
    pub fn message(&self) -> (r: &'static str)
        ensures
            self matches RewriteError::InvalidBaseUrl ==> r@ == "invalid base url"@,
            self matches RewriteError::UnresolvableLine ==> r@ == "unresolvable playlist line"@,
    {
        match self {
            RewriteError::InvalidBaseUrl => "invalid base url",
            RewriteError::UnresolvableLine => "unresolvable playlist line",
        }
    }
}

/// Whether the url crate parses these bytes as an absolute URL.
pub uninterp spec fn url_ok_spec(base: Seq<u8>) -> bool;

/// What RFC 3986 resolution of `rel` against `base` serializes to, when both
/// parse.
pub uninterp spec fn url_resolve_spec(base: Seq<u8>, rel: Seq<u8>) -> Option<Seq<u8>>;

/// What urlencoding's percent-encoding yields on the given bytes.
pub uninterp spec fn url_encode_spec(b: Seq<u8>) -> Seq<u8>;

/// A byte the percent-encoder may emit: alphanumeric, `- . _ ~`, or `%`
/// introducing a hex pair.
pub open spec fn enc_byte_ok(b: u8) -> bool {
    (0x30 <= b <= 0x39) || (0x41 <= b <= 0x5a) || (0x61 <= b <= 0x7a) || b == 0x2d || b == 0x2e
        || b == 0x5f || b == 0x7e || b == 0x25
}

/// Relies on url::Url::parse: whether the text parses depends on the bytes
/// alone.
#[verifier::external_body]
fn url_ok(base: &Vec<u8>) -> (r: bool)
    ensures
        r == url_ok_spec(base@),
{
    match std::str::from_utf8(base.as_slice()) {
        Ok(s) => url::Url::parse(s).is_ok(),
        Err(_) => false,
    }
}

/// Relies on url::Url::parse and url::Url::join: RFC 3986 resolution of
/// `rel` against `base`, serialized; it fails exactly when parsing or
/// joining fails, and that depends on the two byte strings alone.
#[verifier::external_body]
fn url_resolve(base: &Vec<u8>, rel: &Vec<u8>) -> (r: Option<Vec<u8>>)
    ensures
        match r {
            Some(v) => url_resolve_spec(base@, rel@) == Some(v@),
            None => url_resolve_spec(base@, rel@) is None,
        },
        !url_ok_spec(base@) ==> r is None,
{
    let bs = std::str::from_utf8(base.as_slice()).ok()?;
    let rs = std::str::from_utf8(rel.as_slice()).ok()?;
    let parsed = url::Url::parse(bs).ok()?;
    let joined = parsed.join(rs).ok()?;
    Some(joined.to_string().into_bytes())
}

/// Relies on urlencoding::encode_binary: it percent-encodes every byte but
/// alphanumerics and `- . _ ~`, so each output byte satisfies `enc_byte_ok`,
/// and the output depends on the input bytes alone.
#[verifier::external_body]
fn url_encode(v: &Vec<u8>) -> (r: Vec<u8>)
    ensures
        r@ == url_encode_spec(v@),
        forall|i: int| 0 <= i < r@.len() ==> enc_byte_ok(r@[i]),
{
    urlencoding::encode_binary(v.as_slice()).into_owned().into_bytes()
}

/// No newline byte anywhere in `s`.
pub open spec fn no_nl(s: Seq<u8>) -> bool {
    forall|i: int| 0 <= i < s.len() ==> s[i] != 0x0a
}

/// What the rewriter emits for one playlist line: comment and blank lines
/// unchanged; any other line resolved against the base, percent-encoded,
/// and routed through the playlist or the segment endpoint by whether the
/// absolute URL mentions `.m3u8`.
pub open spec fn line_out_spec(line: Seq<u8>, base: Seq<u8>, web: Seq<u8>) -> Option<Seq<u8>> {
    let t = text::trim_spec(line);
    if t.len() == 0 || t[0] == 0x23 {
        Some(line)
    } else {
        match url_resolve_spec(base, t) {
            Some(abs) => Some(
                if text::has_sub(abs, lit::m3u8_lit_spec()) {
                    web + lit::stream_query_spec() + url_encode_spec(abs) + lit::suffix_m3u8_spec()
                } else {
                    web + lit::proxy_query_spec() + url_encode_spec(abs) + lit::suffix_ts_spec()
                },
            ),
            None => None,
        }
    }
}

/// The rewriter over the whole text: each segment between newlines
/// rewritten as a line, the newlines kept.
pub open spec fn rewrite_lines_spec(tx: Seq<u8>, base: Seq<u8>, web: Seq<u8>) -> Option<Seq<u8>>
    decreases tx.len(),
    via rewrite_lines_decreases
{
    match text::find_sub(tx, lit::newline_lit_spec()) {
        Some(i) => match (line_out_spec(tx.take(i), base, web), rewrite_lines_spec(
            tx.skip(i + 1),
            base,
            web,
        )) {
            (Some(l), Some(rest)) => Some(l + lit::newline_lit_spec() + rest),
            _ => None,
        },
        None => line_out_spec(tx, base, web),
    }
}

#[via_fn]
proof fn rewrite_lines_decreases(tx: Seq<u8>, base: Seq<u8>, web: Seq<u8>) {
    text::lemma_find_sub(tx, lit::newline_lit_spec());
}

/// The whole rewrite: nothing when the base URL does not parse, else the
/// per-line rewrite of the text.
pub open spec fn rewrite_spec(tx: Seq<u8>, base: Seq<u8>, web: Seq<u8>) -> Option<Seq<u8>> {
    if url_ok_spec(base) {
        rewrite_lines_spec(tx, base, web)
    } else {
        None
    }
}

/// Rewrites one line. Comment and blank lines come back byte for byte; a
/// URI line comes back as a single proxied line that starts with the web
/// base and carries the percent-encoded absolute URL as its `url` query
/// value.
pub fn rewrite_line(line: &Vec<u8>, base: &Vec<u8>, web: &Vec<u8>) -> (r: Option<Vec<u8>>)
    ensures
        match r {
            Some(v) => line_out_spec(line@, base@, web@) == Some(v@),
            None => line_out_spec(line@, base@, web@) is None,
        },
        ({
            let t = text::trim_spec(line@);
            t.len() == 0 || t[0] == 0x23
        }) ==> (r matches Some(v) && v@ == line@),
        ({
            let t = text::trim_spec(line@);
            t.len() > 0 && t[0] != 0x23 && r is Some
        }) ==> ({
            let v = r->Some_0;
            let abs = url_resolve_spec(base@, text::trim_spec(line@))->Some_0;
            &&& v@.len() > web@.len()
            &&& v@.take(web@.len() as int) == web@
            &&& text::has_sub(
                v@,
                lit::url_eq_lit_spec() + url_encode_spec(abs) + lit::amp_lit_spec(),
            )
            &&& (no_nl(web@) ==> no_nl(v@))
        }),
{
    let trimmed = text::trim_bytes(line);
    if trimmed.len() == 0 || trimmed[0] == 0x23 {
        let mut v: Vec<u8> = Vec::new();
        text::append_bytes(&mut v, line);
        proof {
            assert(v@ =~= line@);
        }
        return Some(v);
    }
    let abs = match url_resolve(base, &trimmed) {
        Some(a) => a,
        None => {
            return None;
        },
    };
    let enc = url_encode(&abs);
    let m3u8 = lit::m3u8_lit();
    let mut v: Vec<u8> = Vec::new();
    text::append_bytes(&mut v, web);
    let query: Vec<u8>;
    let suffix: Vec<u8>;
    if text::contains_sub(&abs, &m3u8) {
        query = lit::stream_query();
        suffix = lit::suffix_m3u8();
    } else {
        query = lit::proxy_query();
        suffix = lit::suffix_ts();
    }
    text::append_bytes(&mut v, &query);
    text::append_bytes(&mut v, &enc);
    text::append_bytes(&mut v, &suffix);
    proof {
        assert(v@ =~= web@ + query@ + enc@ + suffix@);
        assert(line_out_spec(line@, base@, web@) == Some(v@));
        assert(v@.take(web@.len() as int) =~= web@);
        let probe = lit::url_eq_lit_spec() + url_encode_spec(abs@) + lit::amp_lit_spec();
        let at = web@.len() + query@.len() - 4;
        assert(query@.len() >= 4);
        assert(query@.skip(query@.len() - 4) =~= lit::url_eq_lit_spec());
        assert(suffix@[0] == 0x26);
        assert(v@.subrange(at, at + probe.len() as int) =~= probe);
        assert(text::sub_at(v@, probe, at));
        if no_nl(web@) {
            assert forall|i: int| 0 <= i < v@.len() implies v@[i] != 0x0a by {
                if i < web@.len() {
                } else if i < web@.len() + query@.len() {
                    assert(v@[i] == query@[i - web@.len()]);
                } else if i < web@.len() + query@.len() + enc@.len() {
                    assert(v@[i] == enc@[i - web@.len() - query@.len()]);
                    assert(enc_byte_ok(enc@[i - web@.len() - query@.len()]));
                } else {
                    assert(v@[i] == suffix@[i - web@.len() - query@.len() - enc@.len()]);
                }
            }
        }
    }
    Some(v)
}

/// Rewrites a playlist so that every URI line routes through the side-car,
/// exactly as `rewrite_spec` says; the error tells a bad base URL from an
/// unresolvable line.
pub fn rewrite_m3u8_urls(tx: &Vec<u8>, base: &Vec<u8>, web: &Vec<u8>) -> (r: Result<
    Vec<u8>,
    RewriteError,
>)
    ensures
        match r {
            Ok(v) => rewrite_spec(tx@, base@, web@) == Some(v@),
            Err(_) => rewrite_spec(tx@, base@, web@) is None,
        },
        (r matches Err(e) && e matches RewriteError::InvalidBaseUrl) <==> !url_ok_spec(base@),
{
    if !url_ok(base) {
        return Err(RewriteError::InvalidBaseUrl);
    }
    let nl = lit::newline_lit();
    let n: usize = tx.len();
    let mut out: Vec<u8> = Vec::new();
    let mut pos: usize = 0;
    proof {
        assert(tx@.skip(0) =~= tx@);
        if rewrite_lines_spec(tx@, base@, web@) is Some {
            assert(out@ + rewrite_lines_spec(tx@, base@, web@)->Some_0 =~= rewrite_lines_spec(
                tx@,
                base@,
                web@,
            )->Some_0);
        }
    }
    loop
        invariant
            pos <= n == tx@.len(),
            nl@ == lit::newline_lit_spec(),
            url_ok_spec(base@),
            rewrite_lines_spec(tx@, base@, web@) == match rewrite_lines_spec(
                tx@.skip(pos as int),
                base@,
                web@,
            ) {
                Some(t) => Some(out@ + t),
                None => None,
            },
        decreases n - pos,
    {
        let ghost rest = tx@.skip(pos as int);
        let rest_v = text::slice_bytes(tx, pos, n);
        proof {
            assert(rest_v@ =~= rest);
        }
        match text::find_first_sub(&rest_v, &nl) {
            Some(i) => {
                proof {
                    text::lemma_find_sub(rest, lit::newline_lit_spec());
                    assert(text::sub_at(rest, lit::newline_lit_spec(), i as int));
                }
                let line = text::slice_bytes(&rest_v, 0, i);
                proof {
                    assert(line@ =~= rest.take(i as int));
                }
                match rewrite_line(&line, base, web) {
                    Some(l) => {
                        let ghost pre = out@;
                        text::append_bytes(&mut out, &l);
                        out.push(0x0a);
                        proof {
                            assert(rest.skip(i as int + 1) =~= tx@.skip(pos as int + i + 1));
                            if rewrite_lines_spec(tx@.skip(pos as int + i + 1), base@, web@)
                                is Some {
                                let t = rewrite_lines_spec(
                                    tx@.skip(pos as int + i + 1),
                                    base@,
                                    web@,
                                )->Some_0;
                                assert(pre + (l@ + lit::newline_lit_spec() + t) =~= out@ + t);
                            }
                        }
                        pos = pos + i + 1;
                    },
                    None => {
                        return Err(RewriteError::UnresolvableLine);
                    },
                }
            },
            None => {
                match rewrite_line(&rest_v, base, web) {
                    Some(l) => {
                        text::append_bytes(&mut out, &l);
                        return Ok(out);
                    },
                    None => {
                        return Err(RewriteError::UnresolvableLine);
                    },
                }
            },
        }
    }
}

} // verus!
