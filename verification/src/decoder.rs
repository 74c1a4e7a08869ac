use vstd::prelude::*;

use crate::lit;
use crate::text;
use vstd::string::StrSliceExecFns;
use vstd::string::StringSliceAdditionalSpecFns;

verus! {

/// Value of an ASCII hex digit, or -1 when the byte is no hex digit.
pub open spec fn hex_val(b: u8) -> int {
    if 0x30 <= b <= 0x39 {
        b - 0x30
    } else if 0x61 <= b <= 0x66 {
        b - 0x61 + 10
    } else if 0x41 <= b <= 0x46 {
        b - 0x41 + 10
    } else {
        -1
    }
}

/// Hex text decoded two digits to a byte; a trailing lone digit stands for
/// its own value; any non-digit makes the whole decode fail.
pub open spec fn hex_decode_spec(s: Seq<u8>) -> Option<Seq<u8>>
    decreases s.len(),
{
    if s.len() == 0 {
        Some(Seq::<u8>::empty())
    } else if s.len() == 1 {
        if hex_val(s[0]) >= 0 {
            Some(seq![hex_val(s[0]) as u8])
        } else {
            None
        }
    } else if hex_val(s[0]) >= 0 && hex_val(s[1]) >= 0 {
        match hex_decode_spec(s.skip(2)) {
            Some(t) => Some(seq![(hex_val(s[0]) * 16 + hex_val(s[1])) as u8] + t),
            None => None,
        }
    } else {
        None
    }
}

/// Each byte XORed with the key byte at its position, the key cycled.
pub open spec fn xor_cycle_spec(s: Seq<u8>, k: Seq<u8>) -> Seq<u8> {
    Seq::new(s.len(), |i: int| s[i] ^ k[i % k.len() as int])
}

/// A byte minus `k`, modulo 256.
pub open spec fn sub_byte(b: u8, k: u8) -> u8 {
    if b - k < 0 {
        (b - k + 256) as u8
    } else {
        (b - k) as u8
    }
}

/// Every byte lowered by `k` modulo 256.
pub open spec fn sub_each_spec(s: Seq<u8>, k: u8) -> Seq<u8> {
    Seq::new(s.len(), |i: int| sub_byte(s[i], k))
}

/// ROT13 on ASCII letters, other bytes unchanged.
pub open spec fn rot13_byte(b: u8) -> u8 {
    if 0x61 <= b <= 0x7a {
        ((b - 0x61 + 13) % 26 + 0x61) as u8
    } else if 0x41 <= b <= 0x5a {
        ((b - 0x41 + 13) % 26 + 0x41) as u8
    } else {
        b
    }
}

pub open spec fn rot13_spec(s: Seq<u8>) -> Seq<u8> {
    Seq::new(s.len(), |i: int| rot13_byte(s[i]))
}

/// Caesar shift by three with a wrap at the alphabet's end: `a..w` (and
/// `A..W`) move up three, `x y z` wrap to `a b c`, the rest stays.
pub open spec fn caesar_byte(b: u8) -> u8 {
    if 0x61 <= b <= 0x77 {
        (b + 3) as u8
    } else if b == 0x78 {
        0x61
    } else if b == 0x79 {
        0x62
    } else if b == 0x7a {
        0x63
    } else if 0x41 <= b <= 0x57 {
        (b + 3) as u8
    } else if b == 0x58 {
        0x41
    } else if b == 0x59 {
        0x42
    } else if b == 0x5a {
        0x43
    } else {
        b
    }
}

pub open spec fn caesar_spec(s: Seq<u8>) -> Seq<u8> {
    Seq::new(s.len(), |i: int| caesar_byte(s[i]))
}

/// URL-safe base64 alphabet turned standard: `-` to `+`, `_` to `/`.
pub open spec fn urlsafe_byte(b: u8) -> u8 {
    if b == 0x2d {
        0x2b
    } else if b == 0x5f {
        0x2f
    } else {
        b
    }
}

pub open spec fn urlsafe_spec(s: Seq<u8>) -> Seq<u8> {
    Seq::new(s.len(), |i: int| urlsafe_byte(s[i]))
}

/// Every other byte, starting at the first.
pub open spec fn every_other_spec(s: Seq<u8>) -> Seq<u8> {
    Seq::new((s.len() + 1) / 2, |i: int| s[2 * i])
}

/// What base64's standard engine decodes the given text to, or nothing when
/// the text is not valid padded base64.
pub uninterp spec fn b64_decode_spec(s: Seq<u8>) -> Option<Seq<u8>>;

/// Relies on base64's `general_purpose::STANDARD` engine `decode`: the result
/// depends on the input bytes alone.
#[verifier::external_body]
fn b64_decode(s: &Vec<u8>) -> (r: Option<Vec<u8>>)
    ensures
        match r {
            Some(v) => b64_decode_spec(s@) == Some(v@),
            None => b64_decode_spec(s@) is None,
        },
{
    base64::engine::Engine::decode(&base64::engine::general_purpose::STANDARD, s.as_slice()).ok()
}

/// Decodes hex text to bytes, as `hex_decode_spec` says.
pub fn hex_decode(s: &Vec<u8>) -> (r: Option<Vec<u8>>)
    ensures
        match r {
            Some(v) => hex_decode_spec(s@) == Some(v@),
            None => hex_decode_spec(s@) is None,
        },
{
    let n: usize = s.len();
    let mut out: Vec<u8> = Vec::new();
    let mut i: usize = 0;
    proof {
        assert(s@.skip(0) =~= s@);
        if hex_decode_spec(s@) is Some {
            assert(out@ + hex_decode_spec(s@)->Some_0 =~= hex_decode_spec(s@)->Some_0);
        }
    }
    while n - i >= 2
        invariant
            i <= n == s@.len(),
            hex_decode_spec(s@) == match hex_decode_spec(s@.skip(i as int)) {
                Some(t) => Some(out@ + t),
                None => None,
            },
        decreases n - i,
    {
        let ghost rest = s@.skip(i as int);
        let h = hex_digit(s[i]);
        let l = hex_digit(s[i + 1]);
        proof {
            assert(rest[0] == s@[i as int]);
            assert(rest[1] == s@[i as int + 1]);
            assert(rest.skip(2) =~= s@.skip(i as int + 2));
        }
        if h < 0 || l < 0 {
            proof {
                assert(hex_decode_spec(rest) is None);
            }
            return None;
        }
        out.push((h as u8) * 16 + (l as u8));
        proof {
            if hex_decode_spec(s@.skip(i as int + 2)) is Some {
                let t = hex_decode_spec(s@.skip(i as int + 2))->Some_0;
                assert(hex_decode_spec(rest) == Some(
                    seq![(hex_val(rest[0]) * 16 + hex_val(rest[1])) as u8] + t,
                ));
                assert(out@ + t =~= out@.subrange(0, out@.len() - 1) + (seq![(hex_val(
                    rest[0],
                ) * 16 + hex_val(rest[1])) as u8] + t));
            }
        }
        i = i + 2;
    }
    if i < n {
        let ghost rest = s@.skip(i as int);
        proof {
            assert(rest.len() == 1);
            assert(rest[0] == s@[i as int]);
        }
        let h = hex_digit(s[i]);
        if h < 0 {
            return None;
        }
        out.push(h as u8);
        proof {
            assert(out@ =~= out@.subrange(0, out@.len() - 1) + seq![hex_val(rest[0]) as u8]);
        }
        return Some(out);
    }
    proof {
        assert(s@.skip(i as int).len() == 0);
        assert(hex_decode_spec(s@.skip(i as int)) == Some(Seq::<u8>::empty()));
        assert(out@ + Seq::<u8>::empty() =~= out@);
    }
    Some(out)
}

/// Hex digit value of a byte, or -1.
pub fn hex_digit(b: u8) -> (r: i16)
    ensures
        r as int == hex_val(b),
{
    if 0x30 <= b && b <= 0x39 {
        (b - 0x30) as i16
    } else if 0x61 <= b && b <= 0x66 {
        (b - 0x61) as i16 + 10
    } else if 0x41 <= b && b <= 0x46 {
        (b - 0x41) as i16 + 10
    } else {
        -1
    }
}

/// XORs `s` against the cycled key `k`.
pub fn xor_cycle(s: &Vec<u8>, k: &Vec<u8>) -> (r: Vec<u8>)
    requires
        k@.len() >= 1,
    ensures
        r@ == xor_cycle_spec(s@, k@),
{
    let n: usize = s.len();
    let m: usize = k.len();
    let mut out: Vec<u8> = Vec::new();
    let mut i: usize = 0;
    while i < n
        invariant
            i <= n == s@.len(),
            1 <= m == k@.len(),
            out@.len() == i,
            forall|j: int| 0 <= j < i ==> out@[j] == s@[j] ^ k@[j % m as int],
        decreases n - i,
    {
        out.push(s[i] ^ k[i % m]);
        i = i + 1;
    }
    proof {
        assert(out@ =~= xor_cycle_spec(s@, k@));
    }
    out
}

/// Lowers every byte by `k` modulo 256.
pub fn sub_each(s: &Vec<u8>, k: u8) -> (r: Vec<u8>)
    ensures
        r@ == sub_each_spec(s@, k),
{
    let n: usize = s.len();
    let mut out: Vec<u8> = Vec::new();
    let mut i: usize = 0;
    while i < n
        invariant
            i <= n == s@.len(),
            out@.len() == i,
            forall|j: int| 0 <= j < i ==> out@[j] == sub_byte(s@[j], k),
        decreases n - i,
    {
        out.push(s[i].wrapping_sub(k));
        i = i + 1;
    }
    proof {
        assert(out@ =~= sub_each_spec(s@, k));
    }
    out
}

/// Applies ROT13 to each byte.
pub fn rot13(s: &Vec<u8>) -> (r: Vec<u8>)
    ensures
        r@ == rot13_spec(s@),
{
    let n: usize = s.len();
    let mut out: Vec<u8> = Vec::new();
    let mut i: usize = 0;
    while i < n
        invariant
            i <= n == s@.len(),
            out@.len() == i,
            forall|j: int| 0 <= j < i ==> out@[j] == rot13_byte(s@[j]),
        decreases n - i,
    {
        let b = s[i];
        let mapped: u8 = if 0x61 <= b && b <= 0x7a {
            (b - 0x61 + 13) % 26 + 0x61
        } else if 0x41 <= b && b <= 0x5a {
            (b - 0x41 + 13) % 26 + 0x41
        } else {
            b
        };
        out.push(mapped);
        i = i + 1;
    }
    proof {
        assert(out@ =~= rot13_spec(s@));
    }
    out
}

/// Applies the Caesar-by-three map to each byte.
pub fn caesar3(s: &Vec<u8>) -> (r: Vec<u8>)
    ensures
        r@ == caesar_spec(s@),
{
    let n: usize = s.len();
    let mut out: Vec<u8> = Vec::new();
    let mut i: usize = 0;
    while i < n
        invariant
            i <= n == s@.len(),
            out@.len() == i,
            forall|j: int| 0 <= j < i ==> out@[j] == caesar_byte(s@[j]),
        decreases n - i,
    {
        let b = s[i];
        let mapped: u8 = if 0x61 <= b && b <= 0x77 {
            b + 3
        } else if b == 0x78 {
            0x61
        } else if b == 0x79 {
            0x62
        } else if b == 0x7a {
            0x63
        } else if 0x41 <= b && b <= 0x57 {
            b + 3
        } else if b == 0x58 {
            0x41
        } else if b == 0x59 {
            0x42
        } else if b == 0x5a {
            0x43
        } else {
            b
        };
        out.push(mapped);
        i = i + 1;
    }
    proof {
        assert(out@ =~= caesar_spec(s@));
    }
    out
}

/// Turns URL-safe base64 bytes into the standard alphabet.
pub fn urlsafe_to_standard(s: &Vec<u8>) -> (r: Vec<u8>)
    ensures
        r@ == urlsafe_spec(s@),
{
    let n: usize = s.len();
    let mut out: Vec<u8> = Vec::new();
    let mut i: usize = 0;
    while i < n
        invariant
            i <= n == s@.len(),
            out@.len() == i,
            forall|j: int| 0 <= j < i ==> out@[j] == urlsafe_byte(s@[j]),
        decreases n - i,
    {
        let b = s[i];
        let mapped: u8 = if b == 0x2d {
            0x2b
        } else if b == 0x5f {
            0x2f
        } else {
            b
        };
        out.push(mapped);
        i = i + 1;
    }
    proof {
        assert(out@ =~= urlsafe_spec(s@));
    }
    out
}

/// Keeps every other byte, starting at index 0.
pub fn every_other(s: &Vec<u8>) -> (r: Vec<u8>)
    ensures
        r@ == every_other_spec(s@),
{
    let n: usize = s.len();
    let mut out: Vec<u8> = Vec::new();
    let mut i: usize = 0;
    while i < n
        invariant
            i <= n == s@.len(),
            i % 2 == 0 || i == n,
            out@.len() == (i + 1) / 2,
            forall|j: int| 0 <= j < out@.len() ==> out@[j] == s@[2 * j],
        decreases n - i,
    {
        out.push(s[i]);
        if n - i >= 2 {
            i = i + 2;
        } else {
            i = n;
        }
    }
    proof {
        assert(out@ =~= every_other_spec(s@));
    }
    out
}

/// Decoder for marker key `Iry9MQXnLs`: hex pairs, XOR against the first key
/// cycled, minus three per byte, then base64.
pub open spec fn iry_9_mqx_n_ls_spec(s: Seq<u8>) -> Option<Seq<u8>> {
    match hex_decode_spec(s) {
        Some(h) => b64_decode_spec(
            sub_each_spec(xor_cycle_spec(h, lit::xor_key_a_spec()), 3),
        ),
        None => None,
    }
}

pub fn iry_9_mqx_n_ls(input: &Vec<u8>) -> (r: Option<Vec<u8>>)
    ensures
        match r {
            Some(v) => iry_9_mqx_n_ls_spec(input@) == Some(v@),
            None => iry_9_mqx_n_ls_spec(input@) is None,
        },
{
    let hexed = match hex_decode(input) {
        Some(h) => h,
        None => {
            return None;
        },
    };
    let key = lit::xor_key_a();
    let x = xor_cycle(&hexed, &key);
    let shifted = sub_each(&x, 3);
    b64_decode(&shifted)
}

/// Decoder for marker key `IGLImMhWrI`: the text reversed, ROT13, reversed
/// back (together just ROT13), then base64.
pub open spec fn igl_im_mh_wr_i_spec(s: Seq<u8>) -> Option<Seq<u8>> {
    b64_decode_spec(rot13_spec(s))
}

pub fn igl_im_mh_wr_i(input: &Vec<u8>) -> (r: Option<Vec<u8>>)
    ensures
        match r {
            Some(v) => igl_im_mh_wr_i_spec(input@) == Some(v@),
            None => igl_im_mh_wr_i_spec(input@) is None,
        },
{
    let rot = rot13(input);
    b64_decode(&rot)
}

/// Decoder for marker key `GTAxQyTyBx`: the text reversed, every other byte
/// kept, then base64.
pub open spec fn gta_x_qy_ty_bx_spec(s: Seq<u8>) -> Option<Seq<u8>> {
    b64_decode_spec(every_other_spec(s.reverse()))
}

pub fn gta_x_qy_ty_bx(input: &Vec<u8>) -> (r: Option<Vec<u8>>)
    ensures
        match r {
            Some(v) => gta_x_qy_ty_bx_spec(input@) == Some(v@),
            None => gta_x_qy_ty_bx_spec(input@) is None,
        },
{
    let rev = text::reverse(input);
    let filtered = every_other(&rev);
    b64_decode(&filtered)
}

/// Decoder for marker key `C66jPHx8qu`: the text reversed, hex pairs, then
/// XOR against the second key cycled.
pub open spec fn c66_j_phx_8_qu_spec(s: Seq<u8>) -> Option<Seq<u8>> {
    match hex_decode_spec(s.reverse()) {
        Some(h) => Some(xor_cycle_spec(h, lit::xor_key_d_spec())),
        None => None,
    }
}

pub fn c66_j_phx_8_qu(input: &Vec<u8>) -> (r: Option<Vec<u8>>)
    ensures
        match r {
            Some(v) => c66_j_phx_8_qu_spec(input@) == Some(v@),
            None => c66_j_phx_8_qu_spec(input@) is None,
        },
{
    let rev = text::reverse(input);
    let hexed = match hex_decode(&rev) {
        Some(h) => h,
        None => {
            return None;
        },
    };
    let key = lit::xor_key_d();
    Some(xor_cycle(&hexed, &key))
}

/// Decoder for marker key `MyL1IRSfHe`: the text reversed, each byte lowered
/// by one, then hex pairs.
pub open spec fn my_l1_irs_f_he_spec(s: Seq<u8>) -> Option<Seq<u8>> {
    hex_decode_spec(sub_each_spec(s.reverse(), 1))
}

pub fn my_l1_irs_f_he(input: &Vec<u8>) -> (r: Option<Vec<u8>>)
    ensures
        match r {
            Some(v) => my_l1_irs_f_he_spec(input@) == Some(v@),
            None => my_l1_irs_f_he_spec(input@) is None,
        },
{
    let rev = text::reverse(input);
    let shifted = sub_each(&rev, 1);
    hex_decode(&shifted)
}

/// Decoder for marker key `detdj7JHiK`: the first ten and last sixteen bytes
/// dropped, base64, then XOR against the third key cycled. Inputs too short
/// to slice fail.
pub open spec fn detdj_7_j_hi_k_spec(s: Seq<u8>) -> Option<Seq<u8>> {
    if s.len() < 26 {
        None
    } else {
        match b64_decode_spec(s.subrange(10, s.len() - 16)) {
            Some(d) => Some(xor_cycle_spec(d, lit::xor_key_f_spec())),
            None => None,
        }
    }
}

pub fn detdj_7_j_hi_k(input: &Vec<u8>) -> (r: Option<Vec<u8>>)
    ensures
        match r {
            Some(v) => detdj_7_j_hi_k_spec(input@) == Some(v@),
            None => detdj_7_j_hi_k_spec(input@) is None,
        },
{
    let n: usize = input.len();
    if n < 26 {
        return None;
    }
    let sliced = text::slice_bytes(input, 10, n - 16);
    let decoded = match b64_decode(&sliced) {
        Some(d) => d,
        None => {
            return None;
        },
    };
    let key = lit::xor_key_f();
    Some(xor_cycle(&decoded, &key))
}

/// Decoder for marker key `nZlUnj2VSo`: the Caesar-by-three map on each
/// byte; it never fails.
pub open spec fn n_zl_unj_2_v_so_spec(s: Seq<u8>) -> Option<Seq<u8>> {
    Some(caesar_spec(s))
}

pub fn n_zl_unj_2_v_so(input: &Vec<u8>) -> (r: Option<Vec<u8>>)
    ensures
        match r {
            Some(v) => n_zl_unj_2_v_so_spec(input@) == Some(v@),
            None => n_zl_unj_2_v_so_spec(input@) is None,
        },
{
    Some(caesar3(input))
}

/// Decoder for marker key `laM1dAi3vO`: the text reversed, URL-safe base64
/// made standard, base64, then each byte lowered by five.
pub open spec fn la_m1_d_ai_3_v_o_spec(s: Seq<u8>) -> Option<Seq<u8>> {
    match b64_decode_spec(urlsafe_spec(s.reverse())) {
        Some(d) => Some(sub_each_spec(d, 5)),
        None => None,
    }
}

pub fn la_m1_d_ai_3_v_o(input: &Vec<u8>) -> (r: Option<Vec<u8>>)
    ensures
        match r {
            Some(v) => la_m1_d_ai_3_v_o_spec(input@) == Some(v@),
            None => la_m1_d_ai_3_v_o_spec(input@) is None,
        },
{
    let rev = text::reverse(input);
    let std_alpha = urlsafe_to_standard(&rev);
    match b64_decode(&std_alpha) {
        Some(d) => Some(sub_each(&d, 5)),
        None => None,
    }
}

/// Decoder for marker key `GuxKGDsA2T`: as the previous, lowering by seven.
pub open spec fn gux_kg_ds_a_2_t_spec(s: Seq<u8>) -> Option<Seq<u8>> {
    match b64_decode_spec(urlsafe_spec(s.reverse())) {
        Some(d) => Some(sub_each_spec(d, 7)),
        None => None,
    }
}

pub fn gux_kg_ds_a_2_t(input: &Vec<u8>) -> (r: Option<Vec<u8>>)
    ensures
        match r {
            Some(v) => gux_kg_ds_a_2_t_spec(input@) == Some(v@),
            None => gux_kg_ds_a_2_t_spec(input@) is None,
        },
{
    let rev = text::reverse(input);
    let std_alpha = urlsafe_to_standard(&rev);
    match b64_decode(&std_alpha) {
        Some(d) => Some(sub_each(&d, 7)),
        None => None,
    }
}

/// Decoder for marker key `LXVUMCoAHJ`: as the previous, lowering by three.
pub open spec fn lxv_um_co_ah_j_spec(s: Seq<u8>) -> Option<Seq<u8>> {
    match b64_decode_spec(urlsafe_spec(s.reverse())) {
        Some(d) => Some(sub_each_spec(d, 3)),
        None => None,
    }
}

pub fn lxv_um_co_ah_j(input: &Vec<u8>) -> (r: Option<Vec<u8>>)
    ensures
        match r {
            Some(v) => lxv_um_co_ah_j_spec(input@) == Some(v@),
            None => lxv_um_co_ah_j_spec(input@) is None,
        },
{
    let rev = text::reverse(input);
    let std_alpha = urlsafe_to_standard(&rev);
    match b64_decode(&std_alpha) {
        Some(d) => Some(sub_each(&d, 3)),
        None => None,
    }
}

/// The marker transform: the key split into consecutive three-byte chunks
/// (the last may be shorter), the chunks concatenated in reverse order.
pub open spec fn transform_spec(s: Seq<u8>) -> Seq<u8>
    decreases s.len(),
{
    if s.len() <= 3 {
        s
    } else {
        transform_spec(s.skip(3)) + s.take(3)
    }
}

pub proof fn lemma_transform_len(s: Seq<u8>)
    ensures
        transform_spec(s).len() == s.len(),
    decreases s.len(),
{
    if s.len() > 3 {
        lemma_transform_len(s.skip(3));
    }
}

proof fn lemma_transform_snoc(t: Seq<u8>, c: Seq<u8>)
    requires
        t.len() % 3 == 0,
        0 < c.len() <= 3,
    ensures
        transform_spec(t + c) == c + transform_spec(t),
    decreases t.len(),
{
    if t.len() == 0 {
        assert(t + c =~= c);
        assert(c + transform_spec(t) =~= c);
    } else {
        assert(t.len() >= 3);
        assert((t + c).len() > 3);
        assert((t + c).skip(3) =~= t.skip(3) + c);
        assert((t + c).take(3) =~= t.take(3));
        lemma_transform_snoc(t.skip(3), c);
        assert((c + transform_spec(t.skip(3))) + t.take(3) =~= c + (transform_spec(t.skip(3))
            + t.take(3)));
    }
}

/// The key transform undoes itself on keys whose length is a multiple of
/// three.
pub proof fn lemma_transform_self_inverse(s: Seq<u8>)
    requires
        s.len() % 3 == 0,
    ensures
        transform_spec(transform_spec(s)) == s,
    decreases s.len(),
{
    if s.len() == 0 {
    } else {
        assert(s.len() >= 3);
        lemma_transform_self_inverse(s.skip(3));
        lemma_transform_len(s.skip(3));
        if s.len() > 3 {
            lemma_transform_snoc(transform_spec(s.skip(3)), s.take(3));
            assert(s.take(3) + s.skip(3) =~= s);
        }
    }
}

/// The chunk-reverse transform of a key, as `get_stream_link` matches
/// markers against it.
pub fn bmg_yx_71_tz_ql_fdon_n(s: &Vec<u8>) -> (r: Vec<u8>)
    ensures
        r@ == transform_spec(s@),
{
    let n: usize = s.len();
    let mut out: Vec<u8> = Vec::new();
    let mut i: usize = 0;
    proof {
        assert(s@.take(0) =~= Seq::<u8>::empty());
    }
    while i < n
        invariant
            i <= n == s@.len(),
            i < n ==> i % 3 == 0,
            out@ == transform_spec(s@.take(i as int)),
        decreases n - i,
    {
        let e: usize = if n - i >= 3 {
            i + 3
        } else {
            n
        };
        let mut chunk = text::slice_bytes(s, i, e);
        text::append_bytes(&mut chunk, &out);
        proof {
            lemma_transform_snoc(s@.take(i as int), s@.subrange(i as int, e as int));
            assert(s@.take(e as int) =~= s@.take(i as int) + s@.subrange(i as int, e as int));
        }
        out = chunk;
        i = e;
    }
    proof {
        assert(s@.take(n as int) =~= s@);
    }
    out
}

/// Key of registry entry `i`, in dispatch order.
pub open spec fn reg_key_spec(i: int) -> Seq<u8> {
    if i == 0 {
        lit::reg_key_a_spec()
    } else if i == 1 {
        lit::reg_key_b_spec()
    } else if i == 2 {
        lit::reg_key_c_spec()
    } else if i == 3 {
        lit::reg_key_d_spec()
    } else if i == 4 {
        lit::reg_key_e_spec()
    } else if i == 5 {
        lit::reg_key_f_spec()
    } else if i == 6 {
        lit::reg_key_g_spec()
    } else if i == 7 {
        lit::reg_key_h_spec()
    } else if i == 8 {
        lit::reg_key_i_spec()
    } else {
        lit::reg_key_j_spec()
    }
}

/// What decoder `i` yields on `s`.
pub open spec fn decode_spec(i: int, s: Seq<u8>) -> Option<Seq<u8>> {
    if i == 0 {
        iry_9_mqx_n_ls_spec(s)
    } else if i == 1 {
        igl_im_mh_wr_i_spec(s)
    } else if i == 2 {
        gta_x_qy_ty_bx_spec(s)
    } else if i == 3 {
        c66_j_phx_8_qu_spec(s)
    } else if i == 4 {
        my_l1_irs_f_he_spec(s)
    } else if i == 5 {
        detdj_7_j_hi_k_spec(s)
    } else if i == 6 {
        n_zl_unj_2_v_so_spec(s)
    } else if i == 7 {
        la_m1_d_ai_3_v_o_spec(s)
    } else if i == 8 {
        gux_kg_ds_a_2_t_spec(s)
    } else {
        lxv_um_co_ah_j_spec(s)
    }
}

/// First registry index at or after `i` whose transformed key equals `id`.
pub open spec fn match_from(id: Seq<u8>, i: int) -> Option<int>
    decreases 10 - i,
{
    if i < 0 || i >= 10 {
        None
    } else if id == transform_spec(reg_key_spec(i)) {
        Some(i)
    } else {
        match_from(id, i + 1)
    }
}

/// `{v1}`..`{v5}` each replaced in order by the stream host literal.
pub open spec fn host_subst_spec(s: Seq<u8>) -> Seq<u8> {
    text::replace_all(
        text::replace_all(
            text::replace_all(
                text::replace_all(
                    text::replace_all(s, lit::vpat1_spec(), lit::host_lit_spec()),
                    lit::vpat2_spec(),
                    lit::host_lit_spec(),
                ),
                lit::vpat3_spec(),
                lit::host_lit_spec(),
            ),
            lit::vpat4_spec(),
            lit::host_lit_spec(),
        ),
        lit::vpat5_spec(),
        lit::host_lit_spec(),
    )
}

/// The link a matched marker resolves to: the matching decoder's output with
/// the host substituted, or nothing when no key matches or the decode fails.
pub open spec fn stream_link_spec(id: Seq<u8>, x: Seq<u8>) -> Option<Seq<u8>> {
    match match_from(id, 0) {
        Some(i) => match decode_spec(i, x) {
            Some(d) => Some(host_subst_spec(d)),
            None => None,
        },
        None => None,
    }
}

/// Byte-for-byte equality of two vectors.
pub fn eq_bytes(a: &Vec<u8>, b: &Vec<u8>) -> (r: bool)
    ensures
        r == (a@ == b@),
{
    let n: usize = a.len();
    if n != b.len() {
        proof {
            assert(a@ != b@);
        }
        return false;
    }
    let mut i: usize = 0;
    while i < n
        invariant
            i <= n == a@.len(),
            n == b@.len(),
            forall|j: int| 0 <= j < i ==> a@[j] == b@[j],
        decreases n - i,
    {
        if a[i] != b[i] {
            return false;
        }
        i = i + 1;
    }
    proof {
        assert(a@ =~= b@);
    }
    true
}

/// Key of registry entry `i`.
pub fn reg_key(i: usize) -> (r: Vec<u8>)
    requires
        i < 10,
    ensures
        r@ == reg_key_spec(i as int),
{
    if i == 0 {
        lit::reg_key_a()
    } else if i == 1 {
        lit::reg_key_b()
    } else if i == 2 {
        lit::reg_key_c()
    } else if i == 3 {
        lit::reg_key_d()
    } else if i == 4 {
        lit::reg_key_e()
    } else if i == 5 {
        lit::reg_key_f()
    } else if i == 6 {
        lit::reg_key_g()
    } else if i == 7 {
        lit::reg_key_h()
    } else if i == 8 {
        lit::reg_key_i()
    } else {
        lit::reg_key_j()
    }
}

/// Runs decoder `i` on `x`.
pub fn run_decoder(i: usize, x: &Vec<u8>) -> (r: Option<Vec<u8>>)
    requires
        i < 10,
    ensures
        match r {
            Some(v) => decode_spec(i as int, x@) == Some(v@),
            None => decode_spec(i as int, x@) is None,
        },
{
    if i == 0 {
        iry_9_mqx_n_ls(x)
    } else if i == 1 {
        igl_im_mh_wr_i(x)
    } else if i == 2 {
        gta_x_qy_ty_bx(x)
    } else if i == 3 {
        c66_j_phx_8_qu(x)
    } else if i == 4 {
        my_l1_irs_f_he(x)
    } else if i == 5 {
        detdj_7_j_hi_k(x)
    } else if i == 6 {
        n_zl_unj_2_v_so(x)
    } else if i == 7 {
        la_m1_d_ai_3_v_o(x)
    } else if i == 8 {
        gux_kg_ds_a_2_t(x)
    } else {
        lxv_um_co_ah_j(x)
    }
}

/// The registry's keys, in dispatch order.
pub fn decoders() -> (r: Vec<Vec<u8>>)
    ensures
        r@.len() == 10,
        forall|i: int| 0 <= i < 10 ==> r@[i]@ == reg_key_spec(i),
{
    let mut r: Vec<Vec<u8>> = Vec::new();
    r.push(lit::reg_key_a());
    r.push(lit::reg_key_b());
    r.push(lit::reg_key_c());
    r.push(lit::reg_key_d());
    r.push(lit::reg_key_e());
    r.push(lit::reg_key_f());
    r.push(lit::reg_key_g());
    r.push(lit::reg_key_h());
    r.push(lit::reg_key_i());
    r.push(lit::reg_key_j());
    proof {
        assert forall|i: int| 0 <= i < 10 implies r@[i]@ == reg_key_spec(i) by {
            assert(r@[0]@ == reg_key_spec(0));
            assert(r@[1]@ == reg_key_spec(1));
            assert(r@[2]@ == reg_key_spec(2));
            assert(r@[3]@ == reg_key_spec(3));
            assert(r@[4]@ == reg_key_spec(4));
            assert(r@[5]@ == reg_key_spec(5));
            assert(r@[6]@ == reg_key_spec(6));
            assert(r@[7]@ == reg_key_spec(7));
            assert(r@[8]@ == reg_key_spec(8));
            assert(r@[9]@ == reg_key_spec(9));
        }
    }
    r
}

/// Applies `{v1}`..`{v5}` host substitution to a byte string.
pub fn host_substitute(input: &Vec<u8>) -> (r: Vec<u8>)
    ensures
        r@ == host_subst_spec(input@),
{
    let host = lit::host_lit();
    let p1 = lit::vpat1();
    let p2 = lit::vpat2();
    let p3 = lit::vpat3();
    let p4 = lit::vpat4();
    let p5 = lit::vpat5();
    let s1 = text::replace_all_bytes(input, &p1, &host);
    let s2 = text::replace_all_bytes(&s1, &p2, &host);
    let s3 = text::replace_all_bytes(&s2, &p3, &host);
    let s4 = text::replace_all_bytes(&s3, &p4, &host);
    text::replace_all_bytes(&s4, &p5, &host)
}

/// The matching registry entry's decode with the host substituted, over
/// bytes.
pub fn get_stream_link_bytes(id: &Vec<u8>, x: &Vec<u8>) -> (r: Option<Vec<u8>>)
    ensures
        match r {
            Some(v) => stream_link_spec(id@, x@) == Some(v@),
            None => stream_link_spec(id@, x@) is None,
        },
{
    let mut i: usize = 0;
    while i < 10
        invariant
            i <= 10,
            match_from(id@, 0) == match_from(id@, i as int),
        decreases 10 - i,
    {
        let key = reg_key(i);
        let tid = bmg_yx_71_tz_ql_fdon_n(&key);
        if eq_bytes(id, &tid) {
            proof {
                assert(match_from(id@, i as int) == Some(i as int));
            }
            match run_decoder(i, x) {
                Some(v) => {
                    return Some(host_substitute(&v));
                },
                None => {
                    return None;
                },
            }
        }
        i = i + 1;
    }
    None
}

/// Relies on `String::from_utf8`: it succeeds exactly on valid UTF-8 and
/// keeps the bytes.
#[verifier::external_body]
fn bytes_to_string(v: Vec<u8>) -> (r: Option<String>)
    ensures
        match r {
            Some(s) => vstd::utf8::valid_utf8(v@) && vstd::utf8::encode_utf8(s@) == v@,
            None => !vstd::utf8::valid_utf8(v@),
        },
{
    String::from_utf8(v).ok()
}

/// `{v1}`..`{v5}` each replaced by the stream host literal.
pub fn add_stream_host(input: &str) -> (r: String)
    ensures
        (if vstd::utf8::valid_utf8(host_subst_spec(input.spec_bytes())) {
            vstd::utf8::encode_utf8(r@) == host_subst_spec(input.spec_bytes())
        } else {
            r@.len() == 0
        }),
        text::ascii_seq(input.spec_bytes()) ==> vstd::utf8::encode_utf8(r@) == host_subst_spec(
            input.spec_bytes(),
        ),
{
    proof {
        if text::ascii_seq(input.spec_bytes()) {
            lemma_host_subst_ascii(input.spec_bytes());
            lemma_ascii_valid_utf8(host_subst_spec(input.spec_bytes()));
        }
    }
    let b = input.as_bytes_vec();
    let substituted = host_substitute(&b);
    match bytes_to_string(substituted) {
        Some(s) => s,
        None => String::new(),
    }
}

/// Looks the marker up in the registry and decodes, as the byte-level
/// function says; the result is text when the decoded bytes are UTF-8,
/// otherwise nothing.
pub fn get_stream_link(id: &str, decoded_text: &str) -> (r: Option<String>)
    ensures
        match stream_link_spec(id.spec_bytes(), decoded_text.spec_bytes()) {
            Some(b) => (if vstd::utf8::valid_utf8(b) {
                r matches Some(s) && vstd::utf8::encode_utf8(s@) == b
            } else {
                r is None
            }),
            None => r is None,
        },
{
    let idb = id.as_bytes_vec();
    let xb = decoded_text.as_bytes_vec();
    match get_stream_link_bytes(&idb, &xb) {
        Some(v) => bytes_to_string(v),
        None => None,
    }
}


/// The transformed registry keys written out, so that dispatch can be
/// reasoned about on concrete markers.
#[verifier::rlimit(100)]
proof fn lemma_transform_values()
    ensures
        transform_spec(reg_key_spec(0)) == seq![0x73u8, 0x58u8, 0x6eu8, 0x4cu8, 0x39u8, 0x4du8, 0x51u8, 0x49u8, 0x72u8, 0x79u8],
        transform_spec(reg_key_spec(1)) == seq![0x49u8, 0x68u8, 0x57u8, 0x72u8, 0x49u8, 0x6du8, 0x4du8, 0x49u8, 0x47u8, 0x4cu8],
        transform_spec(reg_key_spec(2)) == seq![0x78u8, 0x54u8, 0x79u8, 0x42u8, 0x78u8, 0x51u8, 0x79u8, 0x47u8, 0x54u8, 0x41u8],
        transform_spec(reg_key_spec(3)) == seq![0x75u8, 0x78u8, 0x38u8, 0x71u8, 0x6au8, 0x50u8, 0x48u8, 0x43u8, 0x36u8, 0x36u8],
        transform_spec(reg_key_spec(4)) == seq![0x65u8, 0x53u8, 0x66u8, 0x48u8, 0x31u8, 0x49u8, 0x52u8, 0x4du8, 0x79u8, 0x4cu8],
        transform_spec(reg_key_spec(5)) == seq![0x4bu8, 0x4au8, 0x48u8, 0x69u8, 0x64u8, 0x6au8, 0x37u8, 0x64u8, 0x65u8, 0x74u8],
        transform_spec(reg_key_spec(6)) == seq![0x6fu8, 0x32u8, 0x56u8, 0x53u8, 0x55u8, 0x6eu8, 0x6au8, 0x6eu8, 0x5au8, 0x6cu8],
        transform_spec(reg_key_spec(7)) == seq![0x4fu8, 0x69u8, 0x33u8, 0x76u8, 0x31u8, 0x64u8, 0x41u8, 0x6cu8, 0x61u8, 0x4du8],
        transform_spec(reg_key_spec(8)) == seq![0x54u8, 0x73u8, 0x41u8, 0x32u8, 0x4bu8, 0x47u8, 0x44u8, 0x47u8, 0x75u8, 0x78u8],
        transform_spec(reg_key_spec(9)) == seq![0x4au8, 0x6fu8, 0x41u8, 0x48u8, 0x55u8, 0x4du8, 0x43u8, 0x4cu8, 0x58u8, 0x56u8],
{
    reveal_with_fuel(transform_spec, 5);
    assert(transform_spec(reg_key_spec(0)) =~= seq![0x73u8, 0x58u8, 0x6eu8, 0x4cu8, 0x39u8, 0x4du8, 0x51u8, 0x49u8, 0x72u8, 0x79u8]);
    assert(transform_spec(reg_key_spec(1)) =~= seq![0x49u8, 0x68u8, 0x57u8, 0x72u8, 0x49u8, 0x6du8, 0x4du8, 0x49u8, 0x47u8, 0x4cu8]);
    assert(transform_spec(reg_key_spec(2)) =~= seq![0x78u8, 0x54u8, 0x79u8, 0x42u8, 0x78u8, 0x51u8, 0x79u8, 0x47u8, 0x54u8, 0x41u8]);
    assert(transform_spec(reg_key_spec(3)) =~= seq![0x75u8, 0x78u8, 0x38u8, 0x71u8, 0x6au8, 0x50u8, 0x48u8, 0x43u8, 0x36u8, 0x36u8]);
    assert(transform_spec(reg_key_spec(4)) =~= seq![0x65u8, 0x53u8, 0x66u8, 0x48u8, 0x31u8, 0x49u8, 0x52u8, 0x4du8, 0x79u8, 0x4cu8]);
    assert(transform_spec(reg_key_spec(5)) =~= seq![0x4bu8, 0x4au8, 0x48u8, 0x69u8, 0x64u8, 0x6au8, 0x37u8, 0x64u8, 0x65u8, 0x74u8]);
    assert(transform_spec(reg_key_spec(6)) =~= seq![0x6fu8, 0x32u8, 0x56u8, 0x53u8, 0x55u8, 0x6eu8, 0x6au8, 0x6eu8, 0x5au8, 0x6cu8]);
    assert(transform_spec(reg_key_spec(7)) =~= seq![0x4fu8, 0x69u8, 0x33u8, 0x76u8, 0x31u8, 0x64u8, 0x41u8, 0x6cu8, 0x61u8, 0x4du8]);
    assert(transform_spec(reg_key_spec(8)) =~= seq![0x54u8, 0x73u8, 0x41u8, 0x32u8, 0x4bu8, 0x47u8, 0x44u8, 0x47u8, 0x75u8, 0x78u8]);
    assert(transform_spec(reg_key_spec(9)) =~= seq![0x4au8, 0x6fu8, 0x41u8, 0x48u8, 0x55u8, 0x4du8, 0x43u8, 0x4cu8, 0x58u8, 0x56u8]);
}

/// Dispatch law: a marker equal to the transform of registry key `i`
/// selects decoder `i`, and the link is that decoder's output with the
/// host substituted.
pub proof fn lemma_get_stream_link_dispatch(i: int, x: Seq<u8>)
    requires
        0 <= i < 10,
    ensures
        stream_link_spec(transform_spec(reg_key_spec(i)), x) == (match decode_spec(i, x) {
            Some(d) => Some(host_subst_spec(d)),
            None => None,
        }),
{
    lemma_transform_values();
    let t = transform_spec(reg_key_spec(i));
    if i == 0 {
        assert(match_from(t, 0) == Some(0int));
        assert(match_from(t, 0) == Some(0int));
    } else if i == 1 {
        assert(t != transform_spec(reg_key_spec(0)));
        assert(match_from(t, 0) == match_from(t, 1));
        assert(match_from(t, 1) == Some(1int));
        assert(match_from(t, 0) == Some(1int));
    } else if i == 2 {
        assert(t != transform_spec(reg_key_spec(0)));
        assert(match_from(t, 0) == match_from(t, 1));
        assert(t != transform_spec(reg_key_spec(1)));
        assert(match_from(t, 1) == match_from(t, 2));
        assert(match_from(t, 2) == Some(2int));
        assert(match_from(t, 0) == Some(2int));
    } else if i == 3 {
        assert(t != transform_spec(reg_key_spec(0)));
        assert(match_from(t, 0) == match_from(t, 1));
        assert(t != transform_spec(reg_key_spec(1)));
        assert(match_from(t, 1) == match_from(t, 2));
        assert(t != transform_spec(reg_key_spec(2)));
        assert(match_from(t, 2) == match_from(t, 3));
        assert(match_from(t, 3) == Some(3int));
        assert(match_from(t, 0) == Some(3int));
    } else if i == 4 {
        assert(t != transform_spec(reg_key_spec(0)));
        assert(match_from(t, 0) == match_from(t, 1));
        assert(t != transform_spec(reg_key_spec(1)));
        assert(match_from(t, 1) == match_from(t, 2));
        assert(t != transform_spec(reg_key_spec(2)));
        assert(match_from(t, 2) == match_from(t, 3));
        assert(t != transform_spec(reg_key_spec(3)));
        assert(match_from(t, 3) == match_from(t, 4));
        assert(match_from(t, 4) == Some(4int));
        assert(match_from(t, 0) == Some(4int));
    } else if i == 5 {
        assert(t != transform_spec(reg_key_spec(0)));
        assert(match_from(t, 0) == match_from(t, 1));
        assert(t != transform_spec(reg_key_spec(1)));
        assert(match_from(t, 1) == match_from(t, 2));
        assert(t != transform_spec(reg_key_spec(2)));
        assert(match_from(t, 2) == match_from(t, 3));
        assert(t != transform_spec(reg_key_spec(3)));
        assert(match_from(t, 3) == match_from(t, 4));
        assert(t != transform_spec(reg_key_spec(4)));
        assert(match_from(t, 4) == match_from(t, 5));
        assert(match_from(t, 5) == Some(5int));
        assert(match_from(t, 0) == Some(5int));
    } else if i == 6 {
        assert(t != transform_spec(reg_key_spec(0)));
        assert(match_from(t, 0) == match_from(t, 1));
        assert(t != transform_spec(reg_key_spec(1)));
        assert(match_from(t, 1) == match_from(t, 2));
        assert(t != transform_spec(reg_key_spec(2)));
        assert(match_from(t, 2) == match_from(t, 3));
        assert(t != transform_spec(reg_key_spec(3)));
        assert(match_from(t, 3) == match_from(t, 4));
        assert(t != transform_spec(reg_key_spec(4)));
        assert(match_from(t, 4) == match_from(t, 5));
        assert(t != transform_spec(reg_key_spec(5)));
        assert(match_from(t, 5) == match_from(t, 6));
        assert(match_from(t, 6) == Some(6int));
        assert(match_from(t, 0) == Some(6int));
    } else if i == 7 {
        assert(t != transform_spec(reg_key_spec(0)));
        assert(match_from(t, 0) == match_from(t, 1));
        assert(t != transform_spec(reg_key_spec(1)));
        assert(match_from(t, 1) == match_from(t, 2));
        assert(t != transform_spec(reg_key_spec(2)));
        assert(match_from(t, 2) == match_from(t, 3));
        assert(t != transform_spec(reg_key_spec(3)));
        assert(match_from(t, 3) == match_from(t, 4));
        assert(t != transform_spec(reg_key_spec(4)));
        assert(match_from(t, 4) == match_from(t, 5));
        assert(t != transform_spec(reg_key_spec(5)));
        assert(match_from(t, 5) == match_from(t, 6));
        assert(t != transform_spec(reg_key_spec(6)));
        assert(match_from(t, 6) == match_from(t, 7));
        assert(match_from(t, 7) == Some(7int));
        assert(match_from(t, 0) == Some(7int));
    } else if i == 8 {
        assert(t != transform_spec(reg_key_spec(0)));
        assert(match_from(t, 0) == match_from(t, 1));
        assert(t != transform_spec(reg_key_spec(1)));
        assert(match_from(t, 1) == match_from(t, 2));
        assert(t != transform_spec(reg_key_spec(2)));
        assert(match_from(t, 2) == match_from(t, 3));
        assert(t != transform_spec(reg_key_spec(3)));
        assert(match_from(t, 3) == match_from(t, 4));
        assert(t != transform_spec(reg_key_spec(4)));
        assert(match_from(t, 4) == match_from(t, 5));
        assert(t != transform_spec(reg_key_spec(5)));
        assert(match_from(t, 5) == match_from(t, 6));
        assert(t != transform_spec(reg_key_spec(6)));
        assert(match_from(t, 6) == match_from(t, 7));
        assert(t != transform_spec(reg_key_spec(7)));
        assert(match_from(t, 7) == match_from(t, 8));
        assert(match_from(t, 8) == Some(8int));
        assert(match_from(t, 0) == Some(8int));
    } else {
        assert(t != transform_spec(reg_key_spec(0)));
        assert(match_from(t, 0) == match_from(t, 1));
        assert(t != transform_spec(reg_key_spec(1)));
        assert(match_from(t, 1) == match_from(t, 2));
        assert(t != transform_spec(reg_key_spec(2)));
        assert(match_from(t, 2) == match_from(t, 3));
        assert(t != transform_spec(reg_key_spec(3)));
        assert(match_from(t, 3) == match_from(t, 4));
        assert(t != transform_spec(reg_key_spec(4)));
        assert(match_from(t, 4) == match_from(t, 5));
        assert(t != transform_spec(reg_key_spec(5)));
        assert(match_from(t, 5) == match_from(t, 6));
        assert(t != transform_spec(reg_key_spec(6)));
        assert(match_from(t, 6) == match_from(t, 7));
        assert(t != transform_spec(reg_key_spec(7)));
        assert(match_from(t, 7) == match_from(t, 8));
        assert(t != transform_spec(reg_key_spec(8)));
        assert(match_from(t, 8) == match_from(t, 9));
        assert(match_from(t, 9) == Some(9int));
        assert(match_from(t, 0) == Some(9int));
    }
}


/// `a` starts with `b`.
spec fn begins_with(a: Seq<u8>, b: Seq<u8>) -> bool {
    a.len() >= b.len() && a.take(b.len() as int) == b
}

/// The shape shared by the `{v1}`..`{v5}` placeholders.
spec fn vpat_shape(p: Seq<u8>) -> bool {
    p.len() == 4 && p[0] == 0x7b && p[1] == 0x76 && 0x31 <= p[2] <= 0x35 && p[3] == 0x7d
}

/// What the idempotence argument needs of the replacement text: it is
/// non-empty, it opens with a byte no placeholder holds past its brace, and
/// it holds no opening brace at all.
spec fn host_ok(r: Seq<u8>) -> bool {
    r.len() >= 1 && r[0] == 0x74 && (forall|i: int| 0 <= i < r.len() ==> r[i] != 0x7b)
}

proof fn lemma_sub_at_skip(s: Seq<u8>, q: Seq<u8>, k: int, i: int)
    requires
        0 <= k <= s.len(),
        i >= 0,
    ensures
        text::sub_at(s.skip(k), q, i) == text::sub_at(s, q, k + i),
{
    if i + q.len() <= s.len() - k {
        assert(s.skip(k).subrange(i, i + q.len() as int) =~= s.subrange(
            k + i,
            k + i + q.len(),
        ));
    }
}

/// If a placeholder suffix `q.skip(j)` opens the replaced text, it already
/// opened the unreplaced text: the replacement cannot begin one.
proof fn lemma_replace_keeps_pat_prefix(x: Seq<u8>, p: Seq<u8>, q: Seq<u8>, r: Seq<u8>, j: int)
    requires
        vpat_shape(p),
        vpat_shape(q),
        host_ok(r),
        1 <= j < q.len(),
        begins_with(text::replace_all(x, p, r), q.skip(j)),
    ensures
        begins_with(x, q.skip(j)),
    decreases q.len() - j,
{
    let rr = text::replace_all(x, p, r);
    let tail = q.skip(j);
    assert(rr.take(tail.len() as int)[0] == rr[0]);
    assert(tail[0] == q[j]);
    if x.len() < p.len() {
    } else if x.subrange(0, p.len() as int) == p {
        assert(rr == r + text::replace_all(x.skip(p.len() as int), p, r));
        assert(rr[0] == r[0]);
        assert(q[j] == 0x76 || q[j] == q[2] || q[j] == 0x7d);
        assert(false);
    } else {
        assert(rr == seq![x[0]] + text::replace_all(x.skip(1), p, r));
        assert(rr[0] == x[0]);
        assert(x[0] == q[j]);
        if j + 1 == q.len() {
            assert(x.take(tail.len() as int) =~= tail);
        } else {
            let inner = text::replace_all(x.skip(1), p, r);
            assert(inner.take(q.len() - j - 1) =~= q.skip(j + 1)) by {
                assert forall|m: int| 0 <= m < q.len() - j - 1 implies #[trigger] (inner.take(
                    q.len() - j - 1,
                )[m]) == q.skip(j + 1)[m] by {
                    assert(rr.take(tail.len() as int)[m + 1] == tail[m + 1]);
                    assert(rr[m + 1] == inner[m]);
                    assert(tail[m + 1] == q[j + 1 + m]);
                }
            }
            lemma_replace_keeps_pat_prefix(x.skip(1), p, q, r, j + 1);
            assert(x.take(tail.len() as int) =~= tail) by {
                assert(x.skip(1).take(q.len() - j - 1) =~= q.skip(j + 1));
                assert forall|m: int| 0 <= m < tail.len() implies #[trigger] (x.take(
                    tail.len() as int,
                )[m]) == tail[m] by {
                    if m == 0 {
                    } else {
                        assert(x[m] == x.skip(1)[m - 1]);
                        assert(x.skip(1).take(q.len() - j - 1)[m - 1] == q.skip(j + 1)[m - 1]);
                    }
                }
            }
        }
    }
}

/// Replacing one placeholder never introduces another: absence of `q` is
/// kept through a replacement of `p`.
proof fn lemma_replace_absence(x: Seq<u8>, p: Seq<u8>, q: Seq<u8>, r: Seq<u8>)
    requires
        vpat_shape(p),
        vpat_shape(q),
        host_ok(r),
        !text::has_sub(x, q),
    ensures
        !text::has_sub(text::replace_all(x, p, r), q),
    decreases x.len(),
{
    let rr = text::replace_all(x, p, r);
    if x.len() < p.len() {
        assert forall|i: int| !text::sub_at(rr, q, i) by {
            if 0 <= i && i + q.len() <= rr.len() {
                assert(text::sub_at(x, q, i));
            }
        }
    } else if x.subrange(0, p.len() as int) == p {
        let inner = text::replace_all(x.skip(p.len() as int), p, r);
        assert(rr == r + inner);
        assert forall|i: int| !text::sub_at(x.skip(p.len() as int), q, i) by {
            if i >= 0 {
                lemma_sub_at_skip(x, q, p.len() as int, i);
            }
        }
        lemma_replace_absence(x.skip(p.len() as int), p, q, r);
        assert forall|i: int| !text::sub_at(rr, q, i) by {
            if 0 <= i && i + q.len() <= rr.len() {
                if i < r.len() {
                    if text::sub_at(rr, q, i) {
                        assert(rr.subrange(i, i + q.len() as int)[0] == rr[i]);
                        assert(rr[i] == r[i]);
                        assert(false);
                    }
                } else {
                    if text::sub_at(rr, q, i) {
                        assert(rr.subrange(i, i + q.len() as int) =~= inner.subrange(
                            i - r.len(),
                            i - r.len() + q.len(),
                        ));
                        assert(text::sub_at(inner, q, i - r.len()));
                        assert(false);
                    }
                }
            }
        }
    } else {
        let inner = text::replace_all(x.skip(1), p, r);
        assert(rr == seq![x[0]] + inner);
        assert forall|i: int| !text::sub_at(x.skip(1), q, i) by {
            if i >= 0 {
                lemma_sub_at_skip(x, q, 1, i);
            }
        }
        lemma_replace_absence(x.skip(1), p, q, r);
        assert forall|i: int| !text::sub_at(rr, q, i) by {
            if 0 <= i && i + q.len() <= rr.len() {
                if i == 0 {
                    if text::sub_at(rr, q, 0) {
                        assert(rr.subrange(0, q.len() as int)[0] == rr[0]);
                        assert(rr[0] == x[0]);
                        assert(x[0] == q[0]);
                        assert(inner.take(q.len() - 1) =~= q.skip(1)) by {
                            assert forall|m: int| 0 <= m < q.len() - 1 implies #[trigger] (inner.take(
                                q.len() - 1,
                            )[m]) == q.skip(1)[m] by {
                                assert(rr.subrange(0, q.len() as int)[m + 1] == q[m + 1]);
                                assert(rr[m + 1] == inner[m]);
                            }
                        }
                        lemma_replace_keeps_pat_prefix(x.skip(1), p, q, r, 1);
                        assert(x.subrange(0, q.len() as int) =~= q) by {
                            assert(x.skip(1).take(q.len() - 1) =~= q.skip(1));
                            assert forall|m: int| 0 <= m < q.len() implies #[trigger] (x.subrange(
                                0,
                                q.len() as int,
                            )[m]) == q[m] by {
                                if m > 0 {
                                    assert(x.skip(1).take(q.len() - 1)[m - 1] == q.skip(1)[m
                                        - 1]);
                                    assert(x[m] == x.skip(1)[m - 1]);
                                }
                            }
                        }
                        assert(text::sub_at(x, q, 0));
                        assert(false);
                    }
                } else {
                    if text::sub_at(rr, q, i) {
                        assert(rr.subrange(i, i + q.len() as int) =~= inner.subrange(
                            i - 1,
                            i - 1 + q.len(),
                        ));
                        assert(text::sub_at(inner, q, i - 1));
                        assert(false);
                    }
                }
            }
        }
    }
}

/// After replacing a placeholder no occurrence of it remains.
proof fn lemma_replace_removes(x: Seq<u8>, p: Seq<u8>, r: Seq<u8>)
    requires
        vpat_shape(p),
        host_ok(r),
    ensures
        !text::has_sub(text::replace_all(x, p, r), p),
    decreases x.len(),
{
    let rr = text::replace_all(x, p, r);
    if x.len() < p.len() {
        assert forall|i: int| !text::sub_at(rr, p, i) by {}
    } else if x.subrange(0, p.len() as int) == p {
        let inner = text::replace_all(x.skip(p.len() as int), p, r);
        assert(rr == r + inner);
        lemma_replace_removes(x.skip(p.len() as int), p, r);
        assert forall|i: int| !text::sub_at(rr, p, i) by {
            if 0 <= i && i + p.len() <= rr.len() {
                if i < r.len() {
                    if text::sub_at(rr, p, i) {
                        assert(rr.subrange(i, i + p.len() as int)[0] == rr[i]);
                        assert(rr[i] == r[i]);
                        assert(false);
                    }
                } else {
                    if text::sub_at(rr, p, i) {
                        assert(rr.subrange(i, i + p.len() as int) =~= inner.subrange(
                            i - r.len(),
                            i - r.len() + p.len(),
                        ));
                        assert(text::sub_at(inner, p, i - r.len()));
                        assert(false);
                    }
                }
            }
        }
    } else {
        let inner = text::replace_all(x.skip(1), p, r);
        assert(rr == seq![x[0]] + inner);
        lemma_replace_removes(x.skip(1), p, r);
        assert forall|i: int| !text::sub_at(rr, p, i) by {
            if 0 <= i && i + p.len() <= rr.len() {
                if i == 0 {
                    if text::sub_at(rr, p, 0) {
                        assert(rr.subrange(0, p.len() as int)[0] == rr[0]);
                        assert(rr[0] == x[0]);
                        assert(inner.take(p.len() - 1) =~= p.skip(1)) by {
                            assert forall|m: int| 0 <= m < p.len() - 1 implies #[trigger] (inner.take(
                                p.len() - 1,
                            )[m]) == p.skip(1)[m] by {
                                assert(rr.subrange(0, p.len() as int)[m + 1] == p[m + 1]);
                                assert(rr[m + 1] == inner[m]);
                            }
                        }
                        lemma_replace_keeps_pat_prefix(x.skip(1), p, p, r, 1);
                        assert(x.subrange(0, p.len() as int) =~= p) by {
                            assert(x.skip(1).take(p.len() - 1) =~= p.skip(1));
                            assert forall|m: int| 0 <= m < p.len() implies #[trigger] (x.subrange(
                                0,
                                p.len() as int,
                            )[m]) == p[m] by {
                                if m > 0 {
                                    assert(x.skip(1).take(p.len() - 1)[m - 1] == p.skip(1)[m
                                        - 1]);
                                    assert(x[m] == x.skip(1)[m - 1]);
                                }
                            }
                        }
                        assert(false);
                    }
                } else {
                    if text::sub_at(rr, p, i) {
                        assert(rr.subrange(i, i + p.len() as int) =~= inner.subrange(
                            i - 1,
                            i - 1 + p.len(),
                        ));
                        assert(text::sub_at(inner, p, i - 1));
                        assert(false);
                    }
                }
            }
        }
    }
}

/// Replacing a pattern that does not occur changes nothing.
proof fn lemma_replace_id(x: Seq<u8>, p: Seq<u8>, r: Seq<u8>)
    requires
        p.len() >= 1,
        !text::has_sub(x, p),
    ensures
        text::replace_all(x, p, r) == x,
    decreases x.len(),
{
    if x.len() < p.len() {
    } else if x.subrange(0, p.len() as int) == p {
        assert(text::sub_at(x, p, 0));
        assert(false);
    } else {
        assert forall|i: int| !text::sub_at(x.skip(1), p, i) by {
            if i >= 0 {
                lemma_sub_at_skip(x, p, 1, i);
            }
        }
        lemma_replace_id(x.skip(1), p, r);
        assert(seq![x[0]] + x.skip(1) =~= x);
    }
}

/// Shapes of the five placeholders and of the host literal.
proof fn lemma_host_props()
    ensures
        vpat_shape(lit::vpat1_spec()),
        vpat_shape(lit::vpat2_spec()),
        vpat_shape(lit::vpat3_spec()),
        vpat_shape(lit::vpat4_spec()),
        vpat_shape(lit::vpat5_spec()),
        host_ok(lit::host_lit_spec()),
{
    assert(forall|i: int| 0 <= i < lit::host_lit_spec().len() ==> lit::host_lit_spec()[i]
        != 0x7b) by {
        assert(lit::host_lit_spec() =~= lit::host_lit_spec());
    }
}

/// Host substitution is idempotent: substituting a second time changes
/// nothing.
pub proof fn lemma_host_subst_idempotent(s: Seq<u8>)
    ensures
        host_subst_spec(host_subst_spec(s)) == host_subst_spec(s),
{
    lemma_host_props();
    let r = lit::host_lit_spec();
    let p1 = lit::vpat1_spec();
    let p2 = lit::vpat2_spec();
    let p3 = lit::vpat3_spec();
    let p4 = lit::vpat4_spec();
    let p5 = lit::vpat5_spec();
    let s1 = text::replace_all(s, p1, r);
    let s2 = text::replace_all(s1, p2, r);
    let s3 = text::replace_all(s2, p3, r);
    let s4 = text::replace_all(s3, p4, r);
    let s5 = text::replace_all(s4, p5, r);
    lemma_replace_removes(s, p1, r);
    lemma_replace_absence(s1, p2, p1, r);
    lemma_replace_absence(s2, p3, p1, r);
    lemma_replace_absence(s3, p4, p1, r);
    lemma_replace_absence(s4, p5, p1, r);
    lemma_replace_removes(s1, p2, r);
    lemma_replace_absence(s2, p3, p2, r);
    lemma_replace_absence(s3, p4, p2, r);
    lemma_replace_absence(s4, p5, p2, r);
    lemma_replace_removes(s2, p3, r);
    lemma_replace_absence(s3, p4, p3, r);
    lemma_replace_absence(s4, p5, p3, r);
    lemma_replace_removes(s3, p4, r);
    lemma_replace_absence(s4, p5, p4, r);
    lemma_replace_removes(s4, p5, r);
    lemma_replace_id(s5, p1, r);
    lemma_replace_id(s5, p2, r);
    lemma_replace_id(s5, p3, r);
    lemma_replace_id(s5, p4, r);
    lemma_replace_id(s5, p5, r);
}


/// All-ASCII bytes are valid UTF-8.
pub proof fn lemma_ascii_valid_utf8(s: Seq<u8>)
    requires
        text::ascii_seq(s),
    ensures
        vstd::utf8::valid_utf8(s),
    decreases s.len(),
{
    if s.len() > 0 {
        assert(s[0] < 128);
        assert(vstd::utf8::is_leading_byte_width_1(s[0]));
        assert(vstd::utf8::valid_first_scalar(s));
        assert(vstd::utf8::length_of_first_scalar(s) == 1);
        assert(vstd::utf8::pop_first_scalar(s) =~= s.skip(1));
        assert(text::ascii_seq(s.skip(1)));
        lemma_ascii_valid_utf8(s.skip(1));
    }
}

/// Replacement keeps all bytes ASCII when both texts are.
proof fn lemma_replace_ascii(s: Seq<u8>, p: Seq<u8>, r: Seq<u8>)
    requires
        text::ascii_seq(s),
        text::ascii_seq(r),
    ensures
        text::ascii_seq(text::replace_all(s, p, r)),
    decreases s.len(),
{
    if p.len() == 0 || s.len() < p.len() {
    } else if s.subrange(0, p.len() as int) == p {
        assert(text::ascii_seq(s.skip(p.len() as int)));
        lemma_replace_ascii(s.skip(p.len() as int), p, r);
    } else {
        assert(text::ascii_seq(s.skip(1)));
        lemma_replace_ascii(s.skip(1), p, r);
    }
}

/// Host substitution keeps ASCII text ASCII.
pub proof fn lemma_host_subst_ascii(s: Seq<u8>)
    requires
        text::ascii_seq(s),
    ensures
        text::ascii_seq(host_subst_spec(s)),
{
    let r = lit::host_lit_spec();
    assert(text::ascii_seq(r));
    lemma_replace_ascii(s, lit::vpat1_spec(), r);
    lemma_replace_ascii(text::replace_all(s, lit::vpat1_spec(), r), lit::vpat2_spec(), r);
    lemma_replace_ascii(
        text::replace_all(text::replace_all(s, lit::vpat1_spec(), r), lit::vpat2_spec(), r),
        lit::vpat3_spec(),
        r,
    );
    lemma_replace_ascii(
        text::replace_all(
            text::replace_all(text::replace_all(s, lit::vpat1_spec(), r), lit::vpat2_spec(), r),
            lit::vpat3_spec(),
            r,
        ),
        lit::vpat4_spec(),
        r,
    );
    lemma_replace_ascii(
        text::replace_all(
            text::replace_all(
                text::replace_all(
                    text::replace_all(s, lit::vpat1_spec(), r),
                    lit::vpat2_spec(),
                    r,
                ),
                lit::vpat3_spec(),
                r,
            ),
            lit::vpat4_spec(),
            r,
        ),
        lit::vpat5_spec(),
        r,
    );
}

} // verus!
