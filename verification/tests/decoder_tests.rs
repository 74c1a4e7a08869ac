use streamsidecar::decoder;
use streamsidecar::extract;

const PLAINTEXT: &[u8] = b"https://s.{v1}/x.m3u8 or junk";

#[test]
fn round_trip_decoder_a() {
    let input = b"141c170a30620b137b355c130501070a3f214a3b16225a05694f2c16132408093c1d310d33592d6a".to_vec();
    assert_eq!(decoder::iry_9_mqx_n_ls(&input), Some(PLAINTEXT.to_vec()));
}

#[test]
fn round_trip_decoder_b() {
    let input = b"nUE0pUZ6Yl9mYag2ZK0irP5gZ3H4VT9lVTc1ozf=".to_vec();
    assert_eq!(decoder::igl_im_mh_wr_i(&input), Some(PLAINTEXT.to_vec()));
}

#[test]
fn round_trip_decoder_c() {
    let input = b"A=AsAmAbA1ApAGAIAyA9AGAIA4AUA3AMAtA5ACAeAvA0AXAMA2AtAnALAzA9AyALA6AMAHAcA0ARAHAa".to_vec();
    assert_eq!(decoder::gta_x_qy_ty_bx(&input), Some(PLAINTEXT.to_vec()));
}

#[test]
fn round_trip_decoder_d() {
    let input = b"45d13350e63412442007c5c25100a123761465c152269610c38551d403".to_vec();
    assert_eq!(decoder::c66_j_phx_8_qu(&input), Some(PLAINTEXT.to_vec()));
}

#[test]
fn round_trip_decoder_e() {
    let input = b"c7f768b71338g713946844e7f398g3e82478c8f348g3g3b44818585897".to_vec();
    assert_eq!(decoder::my_l1_irs_f_he(&input), Some(PLAINTEXT.to_vec()));
}

#[test]
fn round_trip_decoder_f() {
    let input = b"0123456789Wyc1KQ0ZCnZbeF5IBBkAIUlPFzJjbAdDUiFBD1A=0123456789abcdef".to_vec();
    assert_eq!(decoder::detdj_7_j_hi_k(&input), Some(PLAINTEXT.to_vec()));
}

#[test]
fn round_trip_decoder_h() {
    let input = b"=A3c69WJ3RXJ9oHOyNTf0IoN7B4M4RDN_gXd5lXb".to_vec();
    assert_eq!(decoder::la_m1_d_ai_3_v_o(&input), Some(PLAINTEXT.to_vec()));
}

#[test]
fn round_trip_decoder_i() {
    let input = b"=IXd8F3J5Z3J_wnO0Vzf2QIO9JYN6ZjNBp3d7t3b".to_vec();
    assert_eq!(decoder::gux_kg_ds_a_2_t(&input), Some(PLAINTEXT.to_vec()));
}

#[test]
fn round_trip_decoder_j() {
    let input = b"=4Wc412I1J3I7gnNwFzeyAIN55XM2JjM9Y3c3d3a".to_vec();
    assert_eq!(decoder::lxv_um_co_ah_j(&input), Some(PLAINTEXT.to_vec()));
}

#[test]
fn key_transform_chunks_reversed() {
    let key = b"detdj7JHiK".to_vec();
    let transformed = decoder::bmg_yx_71_tz_ql_fdon_n(&key);
    assert_eq!(transformed, b"KJHidj7det".to_vec());
}

#[test]
fn key_transform_short_key_unchanged() {
    let key = b"abc".to_vec();
    assert_eq!(decoder::bmg_yx_71_tz_ql_fdon_n(&key), b"abc".to_vec());
}

#[test]
fn key_transform_self_inverse_on_multiple_of_three() {
    let key = b"abcdefghi".to_vec();
    let once = decoder::bmg_yx_71_tz_ql_fdon_n(&key);
    let twice = decoder::bmg_yx_71_tz_ql_fdon_n(&once);
    assert_eq!(twice, key);
}

#[test]
fn caesar_decoder_wraps_at_alphabet_end() {
    let input = b"xyzab".to_vec();
    assert_eq!(decoder::n_zl_unj_2_v_so(&input), Some(b"abcde".to_vec()));
    let input2 = b"Hello".to_vec();
    assert_eq!(decoder::n_zl_unj_2_v_so(&input2), Some(b"Khoor".to_vec()));
}

#[test]
fn decoder_a_rejects_bad_hex() {
    let input = b"zz".to_vec();
    assert_eq!(decoder::iry_9_mqx_n_ls(&input), None);
}

#[test]
fn decoder_f_rejects_short_input() {
    let input = b"tooshort".to_vec();
    assert_eq!(decoder::detdj_7_j_hi_k(&input), None);
}

#[test]
fn hex_decode_handles_odd_length() {
    let input = b"41f".to_vec();
    assert_eq!(decoder::hex_decode(&input), Some(vec![0x41, 0x0f]));
    let bad = b"4g".to_vec();
    assert_eq!(decoder::hex_decode(&bad), None);
}

#[test]
fn host_substitution_replaces_every_placeholder() {
    let input = b"{v1}a{v2}b{v3}c{v4}d{v5}".to_vec();
    let out = decoder::host_substitute(&input);
    assert_eq!(
        out,
        b"thrumbleandjaxon.comathrumbleandjaxon.combthrumbleandjaxon.comcthrumbleandjaxon.comdthrumbleandjaxon.com".to_vec()
    );
}

#[test]
fn host_substitution_idempotent_on_samples() {
    for sample in [
        b"{v1}x{v3}".to_vec(),
        b"{v1{v1}}".to_vec(),
        b"no placeholders".to_vec(),
        b"{v5}{v5}{v5}".to_vec(),
    ] {
        let once = decoder::host_substitute(&sample);
        let twice = decoder::host_substitute(&once);
        assert_eq!(once, twice);
    }
}

#[test]
fn add_stream_host_on_text() {
    assert_eq!(
        decoder::add_stream_host("https://tmstr1.{v3}/pl/a/master.m3u8"),
        "https://tmstr1.thrumbleandjaxon.com/pl/a/master.m3u8"
    );
}

#[test]
fn registry_has_ten_keys() {
    let keys = decoder::decoders();
    assert_eq!(keys.len(), 10);
    assert_eq!(keys[0], b"Iry9MQXnLs".to_vec());
    assert_eq!(keys[9], b"LXVUMCoAHJ".to_vec());
}

#[test]
fn stream_link_dispatches_on_transformed_marker() {
    let cipher = "141c170a30620b137b355c130501070a3f214a3b16225a05694f2c16132408093c1d310d33592d6a";
    let out = decoder::get_stream_link("sXnL9MQIry", cipher);
    assert_eq!(out, Some("https://s.thrumbleandjaxon.com/x.m3u8 or junk".to_string()));
}

#[test]
fn stream_link_unknown_marker_is_absent() {
    assert_eq!(decoder::get_stream_link("nobody", "whatever"), None);
}

#[test]
fn stream_link_matched_marker_failing_decode_is_absent() {
    assert_eq!(decoder::get_stream_link("sXnL9MQIry", "zz"), None);
}

#[test]
fn first_segment_splits_on_or_and_trims() {
    let link = b"https://a.m3u8 or https://b.m3u8".to_vec();
    assert_eq!(extract::first_segment(&link), b"https://a.m3u8".to_vec());
    let plain = b"  https://only.m3u8  ".to_vec();
    assert_eq!(extract::first_segment(&plain), b"https://only.m3u8".to_vec());
}

#[test]
fn stream_link_dispatches_the_caesar_decoder() {
    let out = decoder::get_stream_link("o2VSUnjnZl", "xyzab");
    assert_eq!(out, Some("abcde".to_string()));
}
