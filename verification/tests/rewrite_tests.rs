use streamsidecar::rewrite;

#[test]
fn rewrites_relative_and_nested_playlist_lines() {
    let playlist = b"#EXTM3U\n#EXTINF:5,\nseg1.ts\nsub/playlist.m3u8\n".to_vec();
    let base = b"https://host.example/a/b/".to_vec();
    let web = b"http://127.0.0.1:4000".to_vec();
    let out = rewrite::rewrite_m3u8_urls(&playlist, &base, &web).unwrap();
    let expected = "#EXTM3U\n#EXTINF:5,\nhttp://127.0.0.1:4000/api/proxy-stream?url=https%3A%2F%2Fhost.example%2Fa%2Fb%2Fseg1.ts&.ts\nhttp://127.0.0.1:4000/api/stream?url=https%3A%2F%2Fhost.example%2Fa%2Fb%2Fsub%2Fplaylist.m3u8&.m3u8\n";
    assert_eq!(out, expected.as_bytes().to_vec());
}

#[test]
fn preserves_comments_and_blank_lines_byte_for_byte() {
    let playlist = b"#EXT-X-VERSION:3 \n\n   \n# tail".to_vec();
    let base = b"https://host.example/".to_vec();
    let web = b"http://127.0.0.1:4000".to_vec();
    let out = rewrite::rewrite_m3u8_urls(&playlist, &base, &web).unwrap();
    assert_eq!(out, playlist);
}

#[test]
fn absolute_lines_keep_their_host() {
    let playlist = b"https://cdn.example/media/chunk.ts".to_vec();
    let base = b"https://host.example/a/".to_vec();
    let web = b"http://127.0.0.1:4000".to_vec();
    let out = rewrite::rewrite_m3u8_urls(&playlist, &base, &web).unwrap();
    assert_eq!(
        out,
        b"http://127.0.0.1:4000/api/proxy-stream?url=https%3A%2F%2Fcdn.example%2Fmedia%2Fchunk.ts&.ts".to_vec()
    );
}

#[test]
fn invalid_base_url_is_a_rewrite_error() {
    let playlist = b"seg1.ts".to_vec();
    let base = b"not a url".to_vec();
    let web = b"http://127.0.0.1:4000".to_vec();
    let out = rewrite::rewrite_m3u8_urls(&playlist, &base, &web);
    match out {
        Err(e) => assert_eq!(e.message(), "invalid base url"),
        Ok(_) => panic!("expected an error"),
    }
}

#[test]
fn playlist_detection_looks_at_the_absolute_url() {
    let playlist = b"low/index.m3u8".to_vec();
    let base = b"https://host.example/v/".to_vec();
    let web = b"http://127.0.0.1:4000".to_vec();
    let out = rewrite::rewrite_m3u8_urls(&playlist, &base, &web).unwrap();
    let text = String::from_utf8(out).unwrap();
    assert!(text.starts_with("http://127.0.0.1:4000/api/stream?url="));
    assert!(text.ends_with("&.m3u8"));
}

#[test]
fn line_that_cannot_resolve_is_a_rewrite_error() {
    let playlist = b"seg1.ts".to_vec();
    let base = b"mailto:someone@example.test".to_vec();
    let web = b"http://127.0.0.1:4000".to_vec();
    match rewrite::rewrite_m3u8_urls(&playlist, &base, &web) {
        Err(e) => assert_eq!(e.message(), "unresolvable playlist line"),
        Ok(_) => panic!("expected an error"),
    }
}
