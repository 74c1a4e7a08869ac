use streamsidecar::extract;
use streamsidecar::front;

#[test]
fn tv_without_season_is_rejected_before_any_request() {
    let out = extract::build_embed_url(&b"x".to_vec(), &b"tv".to_vec(), None, None);
    match out {
        Err(e) => assert_eq!(e.message(), "season required"),
        Ok(_) => panic!("expected an error"),
    }
}

#[test]
fn tv_without_episode_is_rejected_before_any_request() {
    let out = extract::build_embed_url(&b"x".to_vec(), &b"tv".to_vec(), Some(2), None);
    match out {
        Err(e) => assert_eq!(e.message(), "episode required"),
        Ok(_) => panic!("expected an error"),
    }
}

#[test]
fn movie_embed_url_has_the_id_appended() {
    let out = extract::build_embed_url(&b"tt123".to_vec(), &b"movie".to_vec(), None, None);
    assert_eq!(out.unwrap(), b"https://vidsrc-embed.ru/embed/movie/tt123".to_vec());
}

#[test]
fn tv_embed_url_has_season_dash_episode() {
    let out = extract::build_embed_url(&b"tt9".to_vec(), &b"tv".to_vec(), Some(12), Some(3));
    assert_eq!(out.unwrap(), b"https://vidsrc-embed.ru/embed/tv/tt9/12-3".to_vec());
}

#[test]
fn player_iframe_url_comes_from_the_first_page() {
    let body = b"<html><body><iframe id=\"player_iframe\" src=\"//cloudnestra.com/rcp/abc\"></iframe></body></html>".to_vec();
    let out = extract::player_iframe_url(&body).unwrap();
    assert_eq!(out, b"https://cloudnestra.com/rcp/abc".to_vec());
}

#[test]
fn missing_iframe_is_a_scrape_error() {
    let body = b"<html><body>nothing here</body></html>".to_vec();
    match extract::player_iframe_url(&body) {
        Err(e) => assert_eq!(e.message(), "iframe src not found"),
        Ok(_) => panic!("expected an error"),
    }
}

#[test]
fn prorcp_url_comes_from_the_second_page() {
    let body = b"<script>loadIframe( { src : '/prorcp/QWJjMTIzPT0=' } )</script>".to_vec();
    let out = extract::prorcp_url(&body).unwrap();
    assert_eq!(out, b"https://cloudnestra.com/prorcp/QWJjMTIzPT0=".to_vec());
}

#[test]
fn missing_prorcp_path_is_a_scrape_error() {
    let body = b"<script>no path at all</script>".to_vec();
    match extract::prorcp_url(&body) {
        Err(e) => assert_eq!(e.message(), "iframe path not found"),
        Ok(_) => panic!("expected an error"),
    }
}

#[test]
fn fallback_regex_extracts_and_substitutes_the_host() {
    let body = b"prefix https://tmstr1.{v3}/pl/abc_def-1.23/master.m3u8 suffix".to_vec();
    let out = extract::fallback_stream_url(&body).unwrap();
    assert_eq!(
        out,
        b"https://tmstr1.thrumbleandjaxon.com/pl/abc_def-1.23/master.m3u8".to_vec()
    );
}

#[test]
fn fallback_without_a_match_fails() {
    let body = b"nothing that looks like a manifest".to_vec();
    match extract::fallback_stream_url(&body) {
        Err(e) => assert_eq!(e.message(), "no stream link"),
        Ok(_) => panic!("expected an error"),
    }
}

#[test]
fn hidden_marker_routes_through_the_decoder() {
    let body = "<html><body><div id=\"sXnL9MQIry\" style=\"display:none;\">141c170a30620b137b355c130501070a3f214a3b16225a05694f2c16132408093c1d310d33592d6a</div></body></html>"
        .as_bytes()
        .to_vec();
    let out = extract::resolve_stream_url(&body).unwrap();
    assert_eq!(out, b"https://s.thrumbleandjaxon.com/x.m3u8".to_vec());
}

#[test]
fn error_placeholder_text_falls_back_to_the_regex() {
    let body = "<div id=\"sXnL9MQIry\" style=\"display:none;\">Wrong Video id</div><p>https://tmstr2.{v1}/cdnstr/xyz/list.m3u8</p>"
        .as_bytes()
        .to_vec();
    let out = extract::resolve_stream_url(&body).unwrap();
    assert_eq!(out, b"https://tmstr2.thrumbleandjaxon.com/cdnstr/xyz/list.m3u8".to_vec());
}

#[test]
fn matched_marker_with_bad_ciphertext_is_a_decode_error() {
    let body = b"<div id=\"sXnL9MQIry\" style=\"display:none;\">zz</div>".to_vec();
    match extract::resolve_stream_url(&body) {
        Err(e) => assert_eq!(e.message(), "decoder failed"),
        Ok(_) => panic!("expected an error"),
    }
}

#[test]
fn segment_proxy_preserves_upstream_status() {
    for status in [200u16, 206, 404, 503] {
        let meta = front::proxy_response_meta(front::UpstreamMeta {
            status,
            content_type: None,
            content_length: None,
        });
        assert_eq!(meta.status, status);
    }
}

#[test]
fn segment_proxy_forwards_or_defaults_content_metadata() {
    let meta = front::proxy_response_meta(front::UpstreamMeta {
        status: 200,
        content_type: Some(b"video/mp2t".to_vec()),
        content_length: Some(b"1234".to_vec()),
    });
    assert_eq!(meta.content_type, b"video/mp2t".to_vec());
    assert_eq!(meta.content_length, Some(b"1234".to_vec()));
    assert_eq!(meta.allow_origin, b"*".to_vec());
    let defaulted = front::proxy_response_meta(front::UpstreamMeta {
        status: 200,
        content_type: None,
        content_length: None,
    });
    assert_eq!(defaulted.content_type, b"application/octet-stream".to_vec());
    assert_eq!(defaulted.content_length, None);
}

#[test]
fn request_base_url_uses_host_or_loopback_default() {
    assert_eq!(
        front::request_base_url(Some(b"example.test:8080".to_vec())),
        b"http://example.test:8080".to_vec()
    );
    assert_eq!(front::request_base_url(None), b"http://127.0.0.1:4000".to_vec());
}

#[test]
fn extract_request_carries_its_fields() {
    let req = extract::ExtractRequest {
        id: "tt42".to_string(),
        content_type: "tv".to_string(),
        season: Some(1),
        episode: Some(2),
    };
    assert_eq!(req.id, "tt42");
    assert_eq!(req.content_type, "tv");
    assert_eq!(req.season, Some(1));
    assert_eq!(req.episode, Some(2));
}
