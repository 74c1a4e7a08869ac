use vstd::prelude::*;

use crate::decoder;
use crate::lit;
use crate::text;

verus! {

/// A resolve request: an identifier, the content kind, and for series the
/// season and episode numbers.
pub struct ExtractRequest {
    pub id: String,
    pub content_type: String,
    pub season: Option<u32>,
    pub episode: Option<u32>,
}

/// Why a resolve failed before or after the scrape.
#[derive(Debug)]
pub enum ExtractError {
    /// A series was asked for without a season.
    SeasonRequired,
    /// A series was asked for without an episode.
    EpisodeRequired,
    /// The first page holds no player iframe.
    IframeSrcNotFound,
    /// The second page holds no player path.
    IframePathNotFound,
    /// A marker matched but its decode failed.
    DecoderFailed,
    /// No marker matched and the fallback found no URL.
    NoStreamFound,
}

impl ExtractError {
    /// A short description of the failure.
    pub fn message(&self) -> (r: &'static str)
        ensures
            self matches ExtractError::SeasonRequired ==> r@ == "season required"@,
            self matches ExtractError::EpisodeRequired ==> r@ == "episode required"@,
            self matches ExtractError::IframeSrcNotFound ==> r@ == "iframe src not found"@,
            self matches ExtractError::IframePathNotFound ==> r@ == "iframe path not found"@,
            self matches ExtractError::DecoderFailed ==> r@ == "decoder failed"@,
            self matches ExtractError::NoStreamFound ==> r@ == "no stream link"@,
    {
        match self {
            ExtractError::SeasonRequired => "season required",
            ExtractError::EpisodeRequired => "episode required",
            ExtractError::IframeSrcNotFound => "iframe src not found",
            ExtractError::IframePathNotFound => "iframe path not found",
            ExtractError::DecoderFailed => "decoder failed",
            ExtractError::NoStreamFound => "no stream link",
        }
    }
}

/// The `src` attribute of the first element with id `player_iframe`, as
/// scraper's parse of the page finds it.
pub uninterp spec fn iframe_src_spec(body: Seq<u8>) -> Option<Seq<u8>>;

/// Relies on scraper::Html::parse_document with the selector
/// `#player_iframe`: the parse and the attribute lookup depend on the body
/// bytes alone.
#[verifier::external_body]
fn find_iframe_src(body: &Vec<u8>) -> (r: Option<Vec<u8>>)
    ensures
        match r {
            Some(v) => iframe_src_spec(body@) == Some(v@),
            None => iframe_src_spec(body@) is None,
        },
{
    let page = String::from_utf8_lossy(body.as_slice());
    let document = scraper::Html::parse_document(&page);
    let selector = scraper::Selector::parse("#player_iframe").ok()?;
    let element = document.select(&selector).next()?;
    let src = element.value().attr("src")?;
    Some(src.as_bytes().to_vec())
}

/// The id attribute (empty when missing) and the concatenated text of the
/// first element whose inline style mentions `none`.
pub uninterp spec fn hidden_div_spec(body: Seq<u8>) -> Option<(Seq<u8>, Seq<u8>)>;

/// Relies on scraper::Html::parse_document with the selector
/// `div[style*="none"]`: the element, its id, and its text depend on the
/// body bytes alone.
#[verifier::external_body]
fn find_hidden_div(body: &Vec<u8>) -> (r: Option<(Vec<u8>, Vec<u8>)>)
    ensures
        match r {
            Some(p) => hidden_div_spec(body@) == Some((p.0@, p.1@)),
            None => hidden_div_spec(body@) is None,
        },
{
    let page = String::from_utf8_lossy(body.as_slice());
    let document = scraper::Html::parse_document(&page);
    let selector = scraper::Selector::parse("div[style*=\"none\"]").ok()?;
    let element = document.select(&selector).next()?;
    let id = element.value().attr("id").unwrap_or("");
    let content: String = element.text().collect();
    Some((id.as_bytes().to_vec(), content.into_bytes()))
}

/// The `/prorcp/` path mentioned by the second page's script, as the regex
/// capture finds it.
pub uninterp spec fn prorcp_path_spec(body: Seq<u8>) -> Option<Seq<u8>>;

/// Relies on regex::Regex: the first capture of
/// `src\s*:\s*['"](/prorcp/[A-Za-z0-9+/=-]+)['"]` depends on the body bytes
/// alone.
#[verifier::external_body]
fn find_prorcp_path(body: &Vec<u8>) -> (r: Option<Vec<u8>>)
    ensures
        match r {
            Some(v) => prorcp_path_spec(body@) == Some(v@),
            None => prorcp_path_spec(body@) is None,
        },
{
    let page = String::from_utf8_lossy(body.as_slice());
    let re = regex::Regex::new("src\\s*:\\s*['\"](/prorcp/[A-Za-z0-9+/=-]+)['\"]").ok()?;
    let caps = re.captures(&page)?;
    Some(caps.get(1)?.as_str().as_bytes().to_vec())
}

/// The first direct manifest URL in the page, as the fallback regex
/// finds it.
pub uninterp spec fn fallback_url_spec(body: Seq<u8>) -> Option<Seq<u8>>;

/// Relies on regex::Regex: the first match of
/// `https://(?:tmstr1|tmstr2)\.\{v\d+\}/(?:pl|cdnstr)/[A-Za-z0-9._\-]+/(?:master\.m3u8|list\.m3u8)`
/// depends on the body bytes alone.
#[verifier::external_body]
fn find_fallback_url(body: &Vec<u8>) -> (r: Option<Vec<u8>>)
    ensures
        match r {
            Some(v) => fallback_url_spec(body@) == Some(v@),
            None => fallback_url_spec(body@) is None,
        },
{
    let page = String::from_utf8_lossy(body.as_slice());
    let re = regex::Regex::new(
        "https://(?:tmstr1|tmstr2)\\.\\{v\\d+\\}/(?:pl|cdnstr)/[A-Za-z0-9._\\-]+/(?:master\\.m3u8|list\\.m3u8)",
    ).ok()?;
    let found = re.find(&page)?;
    Some(found.as_str().as_bytes().to_vec())
}

/// The embed URL a request resolves to: the movie page for movies, the
/// season-episode page for series; series without a season or an episode
/// are rejected before any network step.
pub open spec fn embed_url_spec(
    id: Seq<u8>,
    content_type: Seq<u8>,
    season: Option<u32>,
    episode: Option<u32>,
) -> Result<Seq<u8>, ExtractError> {
    if content_type == lit::movie_lit_spec() {
        Ok(lit::embed_movie_base_spec() + id)
    } else if season is None {
        Err(ExtractError::SeasonRequired)
    } else if episode is None {
        Err(ExtractError::EpisodeRequired)
    } else {
        Ok(
            lit::embed_tv_base_spec() + id + lit::slash_lit_spec() + text::dec_spec(
                season->0 as int,
            ) + lit::dash_lit_spec() + text::dec_spec(episode->0 as int),
        )
    }
}

/// Builds the embed URL for a request, as `embed_url_spec` says.
pub fn build_embed_url(
    id: &Vec<u8>,
    content_type: &Vec<u8>,
    season: Option<u32>,
    episode: Option<u32>,
) -> (r: Result<Vec<u8>, ExtractError>)
    ensures
        match r {
            Ok(v) => embed_url_spec(id@, content_type@, season, episode) == Ok::<Seq<u8>, ExtractError>(v@),
            Err(e) => embed_url_spec(id@, content_type@, season, episode) == Err::<
                Seq<u8>,
                ExtractError,
            >(e),
        },
{
    let movie = lit::movie_lit();
    if decoder::eq_bytes(content_type, &movie) {
        let mut url = lit::embed_movie_base();
        text::append_bytes(&mut url, id);
        return Ok(url);
    }
    let s = match season {
        Some(s) => s,
        None => {
            return Err(ExtractError::SeasonRequired);
        },
    };
    let e = match episode {
        Some(e) => e,
        None => {
            return Err(ExtractError::EpisodeRequired);
        },
    };
    let mut url = lit::embed_tv_base();
    text::append_bytes(&mut url, id);
    let slash = lit::slash_lit();
    text::append_bytes(&mut url, &slash);
    let sd = text::fmt_u32(s);
    text::append_bytes(&mut url, &sd);
    let dash = lit::dash_lit();
    text::append_bytes(&mut url, &dash);
    let ed = text::fmt_u32(e);
    text::append_bytes(&mut url, &ed);
    Ok(url)
}

/// The second hop's URL: `https:` put before the iframe's `src`.
pub open spec fn player_iframe_url_spec(body: Seq<u8>) -> Result<Seq<u8>, ExtractError> {
    match iframe_src_spec(body) {
        Some(src) => Ok(lit::https_scheme_spec() + src),
        None => Err(ExtractError::IframeSrcNotFound),
    }
}

/// Reads the first page and builds the second hop's URL.
pub fn player_iframe_url(body: &Vec<u8>) -> (r: Result<Vec<u8>, ExtractError>)
    ensures
        match r {
            Ok(v) => player_iframe_url_spec(body@) == Ok::<Seq<u8>, ExtractError>(v@),
            Err(e) => player_iframe_url_spec(body@) == Err::<Seq<u8>, ExtractError>(e),
        },
{
    match find_iframe_src(body) {
        Some(src) => {
            let mut url = lit::https_scheme();
            text::append_bytes(&mut url, &src);
            Ok(url)
        },
        None => Err(ExtractError::IframeSrcNotFound),
    }
}

/// The third hop's URL: the player host put before the `/prorcp/` path.
pub open spec fn prorcp_url_spec(body: Seq<u8>) -> Result<Seq<u8>, ExtractError> {
    match prorcp_path_spec(body) {
        Some(p) => Ok(lit::cloudnestra_base_spec() + p),
        None => Err(ExtractError::IframePathNotFound),
    }
}

/// Reads the second page and builds the third hop's URL.
pub fn prorcp_url(body: &Vec<u8>) -> (r: Result<Vec<u8>, ExtractError>)
    ensures
        match r {
            Ok(v) => prorcp_url_spec(body@) == Ok::<Seq<u8>, ExtractError>(v@),
            Err(e) => prorcp_url_spec(body@) == Err::<Seq<u8>, ExtractError>(e),
        },
{
    match find_prorcp_path(body) {
        Some(p) => {
            let mut url = lit::cloudnestra_base();
            text::append_bytes(&mut url, &p);
            Ok(url)
        },
        None => Err(ExtractError::IframePathNotFound),
    }
}

/// A marker pair is usable when the marker is non-empty, the trimmed
/// ciphertext is non-empty, and the ciphertext is no error placeholder.
pub open spec fn marker_valid_spec(id: Seq<u8>, txt: Seq<u8>) -> bool {
    let t = text::trim_spec(txt);
    &&& id.len() > 0
    &&& t.len() > 0
    &&& !text::has_sub(t, lit::wrong_video_lit_spec())
    &&& !text::has_sub(t, lit::sent_report_lit_spec())
}

/// The part before the first `or`, trimmed; the whole text trimmed when
/// no `or` occurs.
pub open spec fn first_segment_spec(s: Seq<u8>) -> Seq<u8> {
    match text::find_sub(s, lit::or_lit_spec()) {
        Some(i) => text::trim_spec(s.take(i)),
        None => text::trim_spec(s),
    }
}

/// Takes the first `or`-separated alternative of a decoded link, trimmed.
pub fn first_segment(s: &Vec<u8>) -> (r: Vec<u8>)
    ensures
        r@ == first_segment_spec(s@),
{
    let pat = lit::or_lit();
    match text::find_first_sub(s, &pat) {
        Some(i) => {
            proof {
                text::lemma_find_sub(s@, lit::or_lit_spec());
                assert(text::sub_at(s@, lit::or_lit_spec(), i as int));
            }
            let pre = text::slice_bytes(s, 0, i);
            text::trim_bytes(&pre)
        },
        None => text::trim_bytes(s),
    }
}

/// What the third page resolves to: with a usable marker pair, the matching
/// decoder's host-substituted link, its first `or`-alternative trimmed, or
/// a decode failure; without one, the fallback URL host-substituted, or no
/// stream at all.
pub open spec fn stream_url_spec(body: Seq<u8>) -> Result<Seq<u8>, ExtractError> {
    match hidden_div_spec(body) {
        Some(p) => {
            if marker_valid_spec(p.0, p.1) {
                match decoder::stream_link_spec(p.0, text::trim_spec(p.1)) {
                    Some(link) => Ok(first_segment_spec(link)),
                    None => Err(ExtractError::DecoderFailed),
                }
            } else {
                fallback_stream_spec(body)
            }
        },
        None => fallback_stream_spec(body),
    }
}

/// The fallback: the first direct manifest URL, host-substituted.
pub open spec fn fallback_stream_spec(body: Seq<u8>) -> Result<Seq<u8>, ExtractError> {
    match fallback_url_spec(body) {
        Some(u) => Ok(decoder::host_subst_spec(u)),
        None => Err(ExtractError::NoStreamFound),
    }
}

/// Tests a marker pair as `marker_valid_spec` says.
fn marker_valid(id: &Vec<u8>, txt: &Vec<u8>) -> (r: bool)
    ensures
        r == marker_valid_spec(id@, txt@),
{
    if id.len() == 0 {
        return false;
    }
    let t = text::trim_bytes(txt);
    if t.len() == 0 {
        return false;
    }
    let wrong = lit::wrong_video_lit();
    let sent = lit::sent_report_lit();
    if text::contains_sub(&t, &wrong) {
        return false;
    }
    if text::contains_sub(&t, &sent) {
        return false;
    }
    true
}

/// Applies the fallback regex and the host substitution to the third page.
pub fn fallback_stream_url(body: &Vec<u8>) -> (r: Result<Vec<u8>, ExtractError>)
    ensures
        match r {
            Ok(v) => fallback_stream_spec(body@) == Ok::<Seq<u8>, ExtractError>(v@),
            Err(e) => fallback_stream_spec(body@) == Err::<Seq<u8>, ExtractError>(e),
        },
{
    match find_fallback_url(body) {
        Some(u) => Ok(decoder::host_substitute(&u)),
        None => Err(ExtractError::NoStreamFound),
    }
}

/// Reads the third page and resolves the stream URL, as `stream_url_spec`
/// says: the decoder path when a usable marker pair is present, else the
/// fallback regex.
pub fn resolve_stream_url(body: &Vec<u8>) -> (r: Result<Vec<u8>, ExtractError>)
    ensures
        match r {
            Ok(v) => stream_url_spec(body@) == Ok::<Seq<u8>, ExtractError>(v@),
            Err(e) => stream_url_spec(body@) == Err::<Seq<u8>, ExtractError>(e),
        },
{
    match find_hidden_div(body) {
        Some((id, txt)) => {
            if marker_valid(&id, &txt) {
                let t = text::trim_bytes(&txt);
                match decoder::get_stream_link_bytes(&id, &t) {
                    Some(link) => Ok(first_segment(&link)),
                    None => Err(ExtractError::DecoderFailed),
                }
            } else {
                fallback_stream_url(body)
            }
        },
        None => fallback_stream_url(body),
    }
}

} // verus!
