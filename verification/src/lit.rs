use vstd::prelude::*;

verus! {

pub open spec fn xor_key_a_spec() -> Seq<u8> {
    seq![0x70u8, 0x57u8, 0x42u8, 0x39u8, 0x56u8, 0x29u8, 0x5bu8, 0x2au8, 0x34u8, 0x49u8, 0x60u8, 0x6eu8, 0x4au8, 0x70u8, 0x70u8, 0x3fu8, 0x6fu8, 0x7au8, 0x79u8, 0x42u8, 0x7eu8, 0x64u8, 0x62u8, 0x72u8, 0x39u8, 0x79u8, 0x74u8, 0x21u8, 0x5fu8, 0x6eu8, 0x34u8, 0x75u8]
}

pub fn xor_key_a() -> (r: Vec<u8>)
    ensures
        r@ == xor_key_a_spec(),
{
    let mut v: Vec<u8> = Vec::new();
    v.push(0x70);
    v.push(0x57);
    v.push(0x42);
    v.push(0x39);
    v.push(0x56);
    v.push(0x29);
    v.push(0x5b);
    v.push(0x2a);
    v.push(0x34);
    v.push(0x49);
    v.push(0x60);
    v.push(0x6e);
    v.push(0x4a);
    v.push(0x70);
    v.push(0x70);
    v.push(0x3f);
    v.push(0x6f);
    v.push(0x7a);
    v.push(0x79);
    v.push(0x42);
    v.push(0x7e);
    v.push(0x64);
    v.push(0x62);
    v.push(0x72);
    v.push(0x39);
    v.push(0x79);
    v.push(0x74);
    v.push(0x21);
    v.push(0x5f);
    v.push(0x6e);
    v.push(0x34);
    v.push(0x75);
    proof {
        assert(v@ =~= xor_key_a_spec());
    }
    v
}

pub open spec fn xor_key_d_spec() -> Seq<u8> {
    seq![0x58u8, 0x39u8, 0x61u8, 0x28u8, 0x4fu8, 0x3bu8, 0x46u8, 0x4du8, 0x56u8, 0x32u8, 0x2du8, 0x37u8, 0x56u8, 0x4fu8, 0x35u8, 0x78u8, 0x3bu8, 0x41u8, 0x6fu8, 0x05u8, 0x3au8, 0x64u8, 0x4eu8, 0x31u8, 0x4eu8, 0x6fu8, 0x46u8, 0x73u8, 0x3fu8, 0x6au8, 0x2cu8]
}

pub fn xor_key_d() -> (r: Vec<u8>)
    ensures
        r@ == xor_key_d_spec(),
{
    let mut v: Vec<u8> = Vec::new();
    v.push(0x58);
    v.push(0x39);
    v.push(0x61);
    v.push(0x28);
    v.push(0x4f);
    v.push(0x3b);
    v.push(0x46);
    v.push(0x4d);
    v.push(0x56);
    v.push(0x32);
    v.push(0x2d);
    v.push(0x37);
    v.push(0x56);
    v.push(0x4f);
    v.push(0x35);
    v.push(0x78);
    v.push(0x3b);
    v.push(0x41);
    v.push(0x6f);
    v.push(0x05);
    v.push(0x3a);
    v.push(0x64);
    v.push(0x4e);
    v.push(0x31);
    v.push(0x4e);
    v.push(0x6f);
    v.push(0x46);
    v.push(0x73);
    v.push(0x3f);
    v.push(0x6a);
    v.push(0x2c);
    proof {
        assert(v@ =~= xor_key_d_spec());
    }
    v
}

pub open spec fn xor_key_f_spec() -> Seq<u8> {
    seq![0x33u8, 0x53u8, 0x41u8, 0x59u8, 0x7eu8, 0x23u8, 0x25u8, 0x59u8, 0x28u8, 0x56u8, 0x25u8, 0x3eu8, 0x35u8, 0x64u8, 0x2fu8, 0x59u8, 0x67u8, 0x22u8, 0x24u8, 0x47u8, 0x5bu8, 0x4cu8, 0x68u8, 0x31u8, 0x72u8, 0x4bu8, 0x34u8, 0x61u8, 0x3bu8, 0x37u8, 0x6fu8, 0x6bu8]
}

pub fn xor_key_f() -> (r: Vec<u8>)
    ensures
        r@ == xor_key_f_spec(),
{
    let mut v: Vec<u8> = Vec::new();
    v.push(0x33);
    v.push(0x53);
    v.push(0x41);
    v.push(0x59);
    v.push(0x7e);
    v.push(0x23);
    v.push(0x25);
    v.push(0x59);
    v.push(0x28);
    v.push(0x56);
    v.push(0x25);
    v.push(0x3e);
    v.push(0x35);
    v.push(0x64);
    v.push(0x2f);
    v.push(0x59);
    v.push(0x67);
    v.push(0x22);
    v.push(0x24);
    v.push(0x47);
    v.push(0x5b);
    v.push(0x4c);
    v.push(0x68);
    v.push(0x31);
    v.push(0x72);
    v.push(0x4b);
    v.push(0x34);
    v.push(0x61);
    v.push(0x3b);
    v.push(0x37);
    v.push(0x6f);
    v.push(0x6b);
    proof {
        assert(v@ =~= xor_key_f_spec());
    }
    v
}

pub open spec fn reg_key_a_spec() -> Seq<u8> {
    seq![0x49u8, 0x72u8, 0x79u8, 0x39u8, 0x4du8, 0x51u8, 0x58u8, 0x6eu8, 0x4cu8, 0x73u8]
}

pub fn reg_key_a() -> (r: Vec<u8>)
    ensures
        r@ == reg_key_a_spec(),
{
    let mut v: Vec<u8> = Vec::new();
    v.push(0x49);
    v.push(0x72);
    v.push(0x79);
    v.push(0x39);
    v.push(0x4d);
    v.push(0x51);
    v.push(0x58);
    v.push(0x6e);
    v.push(0x4c);
    v.push(0x73);
    proof {
        assert(v@ =~= reg_key_a_spec());
    }
    v
}

pub open spec fn reg_key_b_spec() -> Seq<u8> {
    seq![0x49u8, 0x47u8, 0x4cu8, 0x49u8, 0x6du8, 0x4du8, 0x68u8, 0x57u8, 0x72u8, 0x49u8]
}

pub fn reg_key_b() -> (r: Vec<u8>)
    ensures
        r@ == reg_key_b_spec(),
{
    let mut v: Vec<u8> = Vec::new();
    v.push(0x49);
    v.push(0x47);
    v.push(0x4c);
    v.push(0x49);
    v.push(0x6d);
    v.push(0x4d);
    v.push(0x68);
    v.push(0x57);
    v.push(0x72);
    v.push(0x49);
    proof {
        assert(v@ =~= reg_key_b_spec());
    }
    v
}

pub open spec fn reg_key_c_spec() -> Seq<u8> {
    seq![0x47u8, 0x54u8, 0x41u8, 0x78u8, 0x51u8, 0x79u8, 0x54u8, 0x79u8, 0x42u8, 0x78u8]
}

pub fn reg_key_c() -> (r: Vec<u8>)
    ensures
        r@ == reg_key_c_spec(),
{
    let mut v: Vec<u8> = Vec::new();
    v.push(0x47);
    v.push(0x54);
    v.push(0x41);
    v.push(0x78);
    v.push(0x51);
    v.push(0x79);
    v.push(0x54);
    v.push(0x79);
    v.push(0x42);
    v.push(0x78);
    proof {
        assert(v@ =~= reg_key_c_spec());
    }
    v
}

pub open spec fn reg_key_d_spec() -> Seq<u8> {
    seq![0x43u8, 0x36u8, 0x36u8, 0x6au8, 0x50u8, 0x48u8, 0x78u8, 0x38u8, 0x71u8, 0x75u8]
}

pub fn reg_key_d() -> (r: Vec<u8>)
    ensures
        r@ == reg_key_d_spec(),
{
    let mut v: Vec<u8> = Vec::new();
    v.push(0x43);
    v.push(0x36);
    v.push(0x36);
    v.push(0x6a);
    v.push(0x50);
    v.push(0x48);
    v.push(0x78);
    v.push(0x38);
    v.push(0x71);
    v.push(0x75);
    proof {
        assert(v@ =~= reg_key_d_spec());
    }
    v
}

pub open spec fn reg_key_e_spec() -> Seq<u8> {
    seq![0x4du8, 0x79u8, 0x4cu8, 0x31u8, 0x49u8, 0x52u8, 0x53u8, 0x66u8, 0x48u8, 0x65u8]
}

pub fn reg_key_e() -> (r: Vec<u8>)
    ensures
        r@ == reg_key_e_spec(),
{
    let mut v: Vec<u8> = Vec::new();
    v.push(0x4d);
    v.push(0x79);
    v.push(0x4c);
    v.push(0x31);
    v.push(0x49);
    v.push(0x52);
    v.push(0x53);
    v.push(0x66);
    v.push(0x48);
    v.push(0x65);
    proof {
        assert(v@ =~= reg_key_e_spec());
    }
    v
}

pub open spec fn reg_key_f_spec() -> Seq<u8> {
    seq![0x64u8, 0x65u8, 0x74u8, 0x64u8, 0x6au8, 0x37u8, 0x4au8, 0x48u8, 0x69u8, 0x4bu8]
}

pub fn reg_key_f() -> (r: Vec<u8>)
    ensures
        r@ == reg_key_f_spec(),
{
    let mut v: Vec<u8> = Vec::new();
    v.push(0x64);
    v.push(0x65);
    v.push(0x74);
    v.push(0x64);
    v.push(0x6a);
    v.push(0x37);
    v.push(0x4a);
    v.push(0x48);
    v.push(0x69);
    v.push(0x4b);
    proof {
        assert(v@ =~= reg_key_f_spec());
    }
    v
}

pub open spec fn reg_key_g_spec() -> Seq<u8> {
    seq![0x6eu8, 0x5au8, 0x6cu8, 0x55u8, 0x6eu8, 0x6au8, 0x32u8, 0x56u8, 0x53u8, 0x6fu8]
}

pub fn reg_key_g() -> (r: Vec<u8>)
    ensures
        r@ == reg_key_g_spec(),
{
    let mut v: Vec<u8> = Vec::new();
    v.push(0x6e);
    v.push(0x5a);
    v.push(0x6c);
    v.push(0x55);
    v.push(0x6e);
    v.push(0x6a);
    v.push(0x32);
    v.push(0x56);
    v.push(0x53);
    v.push(0x6f);
    proof {
        assert(v@ =~= reg_key_g_spec());
    }
    v
}

pub open spec fn reg_key_h_spec() -> Seq<u8> {
    seq![0x6cu8, 0x61u8, 0x4du8, 0x31u8, 0x64u8, 0x41u8, 0x69u8, 0x33u8, 0x76u8, 0x4fu8]
}

pub fn reg_key_h() -> (r: Vec<u8>)
    ensures
        r@ == reg_key_h_spec(),
{
    let mut v: Vec<u8> = Vec::new();
    v.push(0x6c);
    v.push(0x61);
    v.push(0x4d);
    v.push(0x31);
    v.push(0x64);
    v.push(0x41);
    v.push(0x69);
    v.push(0x33);
    v.push(0x76);
    v.push(0x4f);
    proof {
        assert(v@ =~= reg_key_h_spec());
    }
    v
}

pub open spec fn reg_key_i_spec() -> Seq<u8> {
    seq![0x47u8, 0x75u8, 0x78u8, 0x4bu8, 0x47u8, 0x44u8, 0x73u8, 0x41u8, 0x32u8, 0x54u8]
}

pub fn reg_key_i() -> (r: Vec<u8>)
    ensures
        r@ == reg_key_i_spec(),
{
    let mut v: Vec<u8> = Vec::new();
    v.push(0x47);
    v.push(0x75);
    v.push(0x78);
    v.push(0x4b);
    v.push(0x47);
    v.push(0x44);
    v.push(0x73);
    v.push(0x41);
    v.push(0x32);
    v.push(0x54);
    proof {
        assert(v@ =~= reg_key_i_spec());
    }
    v
}

pub open spec fn reg_key_j_spec() -> Seq<u8> {
    seq![0x4cu8, 0x58u8, 0x56u8, 0x55u8, 0x4du8, 0x43u8, 0x6fu8, 0x41u8, 0x48u8, 0x4au8]
}

pub fn reg_key_j() -> (r: Vec<u8>)
    ensures
        r@ == reg_key_j_spec(),
{
    let mut v: Vec<u8> = Vec::new();
    v.push(0x4c);
    v.push(0x58);
    v.push(0x56);
    v.push(0x55);
    v.push(0x4d);
    v.push(0x43);
    v.push(0x6f);
    v.push(0x41);
    v.push(0x48);
    v.push(0x4a);
    proof {
        assert(v@ =~= reg_key_j_spec());
    }
    v
}

pub open spec fn host_lit_spec() -> Seq<u8> {
    seq![0x74u8, 0x68u8, 0x72u8, 0x75u8, 0x6du8, 0x62u8, 0x6cu8, 0x65u8, 0x61u8, 0x6eu8, 0x64u8, 0x6au8, 0x61u8, 0x78u8, 0x6fu8, 0x6eu8, 0x2eu8, 0x63u8, 0x6fu8, 0x6du8]
}

pub fn host_lit() -> (r: Vec<u8>)
    ensures
        r@ == host_lit_spec(),
{
    let mut v: Vec<u8> = Vec::new();
    v.push(0x74);
    v.push(0x68);
    v.push(0x72);
    v.push(0x75);
    v.push(0x6d);
    v.push(0x62);
    v.push(0x6c);
    v.push(0x65);
    v.push(0x61);
    v.push(0x6e);
    v.push(0x64);
    v.push(0x6a);
    v.push(0x61);
    v.push(0x78);
    v.push(0x6f);
    v.push(0x6e);
    v.push(0x2e);
    v.push(0x63);
    v.push(0x6f);
    v.push(0x6d);
    proof {
        assert(v@ =~= host_lit_spec());
    }
    v
}

pub open spec fn vpat1_spec() -> Seq<u8> {
    seq![0x7bu8, 0x76u8, 0x31u8, 0x7du8]
}

pub fn vpat1() -> (r: Vec<u8>)
    ensures
        r@ == vpat1_spec(),
{
    let mut v: Vec<u8> = Vec::new();
    v.push(0x7b);
    v.push(0x76);
    v.push(0x31);
    v.push(0x7d);
    proof {
        assert(v@ =~= vpat1_spec());
    }
    v
}

pub open spec fn vpat2_spec() -> Seq<u8> {
    seq![0x7bu8, 0x76u8, 0x32u8, 0x7du8]
}

pub fn vpat2() -> (r: Vec<u8>)
    ensures
        r@ == vpat2_spec(),
{
    let mut v: Vec<u8> = Vec::new();
    v.push(0x7b);
    v.push(0x76);
    v.push(0x32);
    v.push(0x7d);
    proof {
        assert(v@ =~= vpat2_spec());
    }
    v
}

pub open spec fn vpat3_spec() -> Seq<u8> {
    seq![0x7bu8, 0x76u8, 0x33u8, 0x7du8]
}

pub fn vpat3() -> (r: Vec<u8>)
    ensures
        r@ == vpat3_spec(),
{
    let mut v: Vec<u8> = Vec::new();
    v.push(0x7b);
    v.push(0x76);
    v.push(0x33);
    v.push(0x7d);
    proof {
        assert(v@ =~= vpat3_spec());
    }
    v
}

pub open spec fn vpat4_spec() -> Seq<u8> {
    seq![0x7bu8, 0x76u8, 0x34u8, 0x7du8]
}

pub fn vpat4() -> (r: Vec<u8>)
    ensures
        r@ == vpat4_spec(),
{
    let mut v: Vec<u8> = Vec::new();
    v.push(0x7b);
    v.push(0x76);
    v.push(0x34);
    v.push(0x7d);
    proof {
        assert(v@ =~= vpat4_spec());
    }
    v
}

pub open spec fn vpat5_spec() -> Seq<u8> {
    seq![0x7bu8, 0x76u8, 0x35u8, 0x7du8]
}

pub fn vpat5() -> (r: Vec<u8>)
    ensures
        r@ == vpat5_spec(),
{
    let mut v: Vec<u8> = Vec::new();
    v.push(0x7b);
    v.push(0x76);
    v.push(0x35);
    v.push(0x7d);
    proof {
        assert(v@ =~= vpat5_spec());
    }
    v
}

pub open spec fn or_lit_spec() -> Seq<u8> {
    seq![0x6fu8, 0x72u8]
}

pub fn or_lit() -> (r: Vec<u8>)
    ensures
        r@ == or_lit_spec(),
{
    let mut v: Vec<u8> = Vec::new();
    v.push(0x6f);
    v.push(0x72);
    proof {
        assert(v@ =~= or_lit_spec());
    }
    v
}

pub open spec fn movie_lit_spec() -> Seq<u8> {
    seq![0x6du8, 0x6fu8, 0x76u8, 0x69u8, 0x65u8]
}

pub fn movie_lit() -> (r: Vec<u8>)
    ensures
        r@ == movie_lit_spec(),
{
    let mut v: Vec<u8> = Vec::new();
    v.push(0x6d);
    v.push(0x6f);
    v.push(0x76);
    v.push(0x69);
    v.push(0x65);
    proof {
        assert(v@ =~= movie_lit_spec());
    }
    v
}

pub open spec fn embed_movie_base_spec() -> Seq<u8> {
    seq![0x68u8, 0x74u8, 0x74u8, 0x70u8, 0x73u8, 0x3au8, 0x2fu8, 0x2fu8, 0x76u8, 0x69u8, 0x64u8, 0x73u8, 0x72u8, 0x63u8, 0x2du8, 0x65u8, 0x6du8, 0x62u8, 0x65u8, 0x64u8, 0x2eu8, 0x72u8, 0x75u8, 0x2fu8, 0x65u8, 0x6du8, 0x62u8, 0x65u8, 0x64u8, 0x2fu8, 0x6du8, 0x6fu8, 0x76u8, 0x69u8, 0x65u8, 0x2fu8]
}

pub fn embed_movie_base() -> (r: Vec<u8>)
    ensures
        r@ == embed_movie_base_spec(),
{
    let mut v: Vec<u8> = Vec::new();
    v.push(0x68);
    v.push(0x74);
    v.push(0x74);
    v.push(0x70);
    v.push(0x73);
    v.push(0x3a);
    v.push(0x2f);
    v.push(0x2f);
    v.push(0x76);
    v.push(0x69);
    v.push(0x64);
    v.push(0x73);
    v.push(0x72);
    v.push(0x63);
    v.push(0x2d);
    v.push(0x65);
    v.push(0x6d);
    v.push(0x62);
    v.push(0x65);
    v.push(0x64);
    v.push(0x2e);
    v.push(0x72);
    v.push(0x75);
    v.push(0x2f);
    v.push(0x65);
    v.push(0x6d);
    v.push(0x62);
    v.push(0x65);
    v.push(0x64);
    v.push(0x2f);
    v.push(0x6d);
    v.push(0x6f);
    v.push(0x76);
    v.push(0x69);
    v.push(0x65);
    v.push(0x2f);
    proof {
        assert(v@ =~= embed_movie_base_spec());
    }
    v
}

pub open spec fn embed_tv_base_spec() -> Seq<u8> {
    seq![0x68u8, 0x74u8, 0x74u8, 0x70u8, 0x73u8, 0x3au8, 0x2fu8, 0x2fu8, 0x76u8, 0x69u8, 0x64u8, 0x73u8, 0x72u8, 0x63u8, 0x2du8, 0x65u8, 0x6du8, 0x62u8, 0x65u8, 0x64u8, 0x2eu8, 0x72u8, 0x75u8, 0x2fu8, 0x65u8, 0x6du8, 0x62u8, 0x65u8, 0x64u8, 0x2fu8, 0x74u8, 0x76u8, 0x2fu8]
}

pub fn embed_tv_base() -> (r: Vec<u8>)
    ensures
        r@ == embed_tv_base_spec(),
{
    let mut v: Vec<u8> = Vec::new();
    v.push(0x68);
    v.push(0x74);
    v.push(0x74);
    v.push(0x70);
    v.push(0x73);
    v.push(0x3a);
    v.push(0x2f);
    v.push(0x2f);
    v.push(0x76);
    v.push(0x69);
    v.push(0x64);
    v.push(0x73);
    v.push(0x72);
    v.push(0x63);
    v.push(0x2d);
    v.push(0x65);
    v.push(0x6d);
    v.push(0x62);
    v.push(0x65);
    v.push(0x64);
    v.push(0x2e);
    v.push(0x72);
    v.push(0x75);
    v.push(0x2f);
    v.push(0x65);
    v.push(0x6d);
    v.push(0x62);
    v.push(0x65);
    v.push(0x64);
    v.push(0x2f);
    v.push(0x74);
    v.push(0x76);
    v.push(0x2f);
    proof {
        assert(v@ =~= embed_tv_base_spec());
    }
    v
}

pub open spec fn slash_lit_spec() -> Seq<u8> {
    seq![0x2fu8]
}

pub fn slash_lit() -> (r: Vec<u8>)
    ensures
        r@ == slash_lit_spec(),
{
    let mut v: Vec<u8> = Vec::new();
    v.push(0x2f);
    proof {
        assert(v@ =~= slash_lit_spec());
    }
    v
}

pub open spec fn dash_lit_spec() -> Seq<u8> {
    seq![0x2du8]
}

pub fn dash_lit() -> (r: Vec<u8>)
    ensures
        r@ == dash_lit_spec(),
{
    let mut v: Vec<u8> = Vec::new();
    v.push(0x2d);
    proof {
        assert(v@ =~= dash_lit_spec());
    }
    v
}

pub open spec fn https_scheme_spec() -> Seq<u8> {
    seq![0x68u8, 0x74u8, 0x74u8, 0x70u8, 0x73u8, 0x3au8]
}

pub fn https_scheme() -> (r: Vec<u8>)
    ensures
        r@ == https_scheme_spec(),
{
    let mut v: Vec<u8> = Vec::new();
    v.push(0x68);
    v.push(0x74);
    v.push(0x74);
    v.push(0x70);
    v.push(0x73);
    v.push(0x3a);
    proof {
        assert(v@ =~= https_scheme_spec());
    }
    v
}

pub open spec fn cloudnestra_base_spec() -> Seq<u8> {
    seq![0x68u8, 0x74u8, 0x74u8, 0x70u8, 0x73u8, 0x3au8, 0x2fu8, 0x2fu8, 0x63u8, 0x6cu8, 0x6fu8, 0x75u8, 0x64u8, 0x6eu8, 0x65u8, 0x73u8, 0x74u8, 0x72u8, 0x61u8, 0x2eu8, 0x63u8, 0x6fu8, 0x6du8]
}

pub fn cloudnestra_base() -> (r: Vec<u8>)
    ensures
        r@ == cloudnestra_base_spec(),
{
    let mut v: Vec<u8> = Vec::new();
    v.push(0x68);
    v.push(0x74);
    v.push(0x74);
    v.push(0x70);
    v.push(0x73);
    v.push(0x3a);
    v.push(0x2f);
    v.push(0x2f);
    v.push(0x63);
    v.push(0x6c);
    v.push(0x6f);
    v.push(0x75);
    v.push(0x64);
    v.push(0x6e);
    v.push(0x65);
    v.push(0x73);
    v.push(0x74);
    v.push(0x72);
    v.push(0x61);
    v.push(0x2e);
    v.push(0x63);
    v.push(0x6f);
    v.push(0x6d);
    proof {
        assert(v@ =~= cloudnestra_base_spec());
    }
    v
}

pub open spec fn wrong_video_lit_spec() -> Seq<u8> {
    seq![0x57u8, 0x72u8, 0x6fu8, 0x6eu8, 0x67u8, 0x20u8, 0x56u8, 0x69u8, 0x64u8, 0x65u8, 0x6fu8]
}

pub fn wrong_video_lit() -> (r: Vec<u8>)
    ensures
        r@ == wrong_video_lit_spec(),
{
    let mut v: Vec<u8> = Vec::new();
    v.push(0x57);
    v.push(0x72);
    v.push(0x6f);
    v.push(0x6e);
    v.push(0x67);
    v.push(0x20);
    v.push(0x56);
    v.push(0x69);
    v.push(0x64);
    v.push(0x65);
    v.push(0x6f);
    proof {
        assert(v@ =~= wrong_video_lit_spec());
    }
    v
}

pub open spec fn sent_report_lit_spec() -> Seq<u8> {
    seq![0x53u8, 0x65u8, 0x6eu8, 0x74u8, 0x20u8, 0x72u8, 0x65u8, 0x70u8, 0x6fu8, 0x72u8, 0x74u8]
}

pub fn sent_report_lit() -> (r: Vec<u8>)
    ensures
        r@ == sent_report_lit_spec(),
{
    let mut v: Vec<u8> = Vec::new();
    v.push(0x53);
    v.push(0x65);
    v.push(0x6e);
    v.push(0x74);
    v.push(0x20);
    v.push(0x72);
    v.push(0x65);
    v.push(0x70);
    v.push(0x6f);
    v.push(0x72);
    v.push(0x74);
    proof {
        assert(v@ =~= sent_report_lit_spec());
    }
    v
}

pub open spec fn m3u8_lit_spec() -> Seq<u8> {
    seq![0x2eu8, 0x6du8, 0x33u8, 0x75u8, 0x38u8]
}

pub fn m3u8_lit() -> (r: Vec<u8>)
    ensures
        r@ == m3u8_lit_spec(),
{
    let mut v: Vec<u8> = Vec::new();
    v.push(0x2e);
    v.push(0x6d);
    v.push(0x33);
    v.push(0x75);
    v.push(0x38);
    proof {
        assert(v@ =~= m3u8_lit_spec());
    }
    v
}

pub open spec fn stream_query_spec() -> Seq<u8> {
    seq![0x2fu8, 0x61u8, 0x70u8, 0x69u8, 0x2fu8, 0x73u8, 0x74u8, 0x72u8, 0x65u8, 0x61u8, 0x6du8, 0x3fu8, 0x75u8, 0x72u8, 0x6cu8, 0x3du8]
}

pub fn stream_query() -> (r: Vec<u8>)
    ensures
        r@ == stream_query_spec(),
{
    let mut v: Vec<u8> = Vec::new();
    v.push(0x2f);
    v.push(0x61);
    v.push(0x70);
    v.push(0x69);
    v.push(0x2f);
    v.push(0x73);
    v.push(0x74);
    v.push(0x72);
    v.push(0x65);
    v.push(0x61);
    v.push(0x6d);
    v.push(0x3f);
    v.push(0x75);
    v.push(0x72);
    v.push(0x6c);
    v.push(0x3d);
    proof {
        assert(v@ =~= stream_query_spec());
    }
    v
}

pub open spec fn proxy_query_spec() -> Seq<u8> {
    seq![0x2fu8, 0x61u8, 0x70u8, 0x69u8, 0x2fu8, 0x70u8, 0x72u8, 0x6fu8, 0x78u8, 0x79u8, 0x2du8, 0x73u8, 0x74u8, 0x72u8, 0x65u8, 0x61u8, 0x6du8, 0x3fu8, 0x75u8, 0x72u8, 0x6cu8, 0x3du8]
}

pub fn proxy_query() -> (r: Vec<u8>)
    ensures
        r@ == proxy_query_spec(),
{
    let mut v: Vec<u8> = Vec::new();
    v.push(0x2f);
    v.push(0x61);
    v.push(0x70);
    v.push(0x69);
    v.push(0x2f);
    v.push(0x70);
    v.push(0x72);
    v.push(0x6f);
    v.push(0x78);
    v.push(0x79);
    v.push(0x2d);
    v.push(0x73);
    v.push(0x74);
    v.push(0x72);
    v.push(0x65);
    v.push(0x61);
    v.push(0x6d);
    v.push(0x3f);
    v.push(0x75);
    v.push(0x72);
    v.push(0x6c);
    v.push(0x3d);
    proof {
        assert(v@ =~= proxy_query_spec());
    }
    v
}

pub open spec fn suffix_m3u8_spec() -> Seq<u8> {
    seq![0x26u8, 0x2eu8, 0x6du8, 0x33u8, 0x75u8, 0x38u8]
}

pub fn suffix_m3u8() -> (r: Vec<u8>)
    ensures
        r@ == suffix_m3u8_spec(),
{
    let mut v: Vec<u8> = Vec::new();
    v.push(0x26);
    v.push(0x2e);
    v.push(0x6d);
    v.push(0x33);
    v.push(0x75);
    v.push(0x38);
    proof {
        assert(v@ =~= suffix_m3u8_spec());
    }
    v
}

pub open spec fn suffix_ts_spec() -> Seq<u8> {
    seq![0x26u8, 0x2eu8, 0x74u8, 0x73u8]
}

pub fn suffix_ts() -> (r: Vec<u8>)
    ensures
        r@ == suffix_ts_spec(),
{
    let mut v: Vec<u8> = Vec::new();
    v.push(0x26);
    v.push(0x2e);
    v.push(0x74);
    v.push(0x73);
    proof {
        assert(v@ =~= suffix_ts_spec());
    }
    v
}

pub open spec fn url_eq_lit_spec() -> Seq<u8> {
    seq![0x75u8, 0x72u8, 0x6cu8, 0x3du8]
}

pub open spec fn amp_lit_spec() -> Seq<u8> {
    seq![0x26u8]
}

pub open spec fn newline_lit_spec() -> Seq<u8> {
    seq![0x0au8]
}

pub fn newline_lit() -> (r: Vec<u8>)
    ensures
        r@ == newline_lit_spec(),
{
    let mut v: Vec<u8> = Vec::new();
    v.push(0x0a);
    proof {
        assert(v@ =~= newline_lit_spec());
    }
    v
}

pub open spec fn http_scheme_spec() -> Seq<u8> {
    seq![0x68u8, 0x74u8, 0x74u8, 0x70u8, 0x3au8, 0x2fu8, 0x2fu8]
}

pub fn http_scheme() -> (r: Vec<u8>)
    ensures
        r@ == http_scheme_spec(),
{
    let mut v: Vec<u8> = Vec::new();
    v.push(0x68);
    v.push(0x74);
    v.push(0x74);
    v.push(0x70);
    v.push(0x3a);
    v.push(0x2f);
    v.push(0x2f);
    proof {
        assert(v@ =~= http_scheme_spec());
    }
    v
}

pub open spec fn default_host_spec() -> Seq<u8> {
    seq![0x31u8, 0x32u8, 0x37u8, 0x2eu8, 0x30u8, 0x2eu8, 0x30u8, 0x2eu8, 0x31u8, 0x3au8, 0x34u8, 0x30u8, 0x30u8, 0x30u8]
}

pub fn default_host() -> (r: Vec<u8>)
    ensures
        r@ == default_host_spec(),
{
    let mut v: Vec<u8> = Vec::new();
    v.push(0x31);
    v.push(0x32);
    v.push(0x37);
    v.push(0x2e);
    v.push(0x30);
    v.push(0x2e);
    v.push(0x30);
    v.push(0x2e);
    v.push(0x31);
    v.push(0x3a);
    v.push(0x34);
    v.push(0x30);
    v.push(0x30);
    v.push(0x30);
    proof {
        assert(v@ =~= default_host_spec());
    }
    v
}

pub open spec fn octet_stream_lit_spec() -> Seq<u8> {
    seq![0x61u8, 0x70u8, 0x70u8, 0x6cu8, 0x69u8, 0x63u8, 0x61u8, 0x74u8, 0x69u8, 0x6fu8, 0x6eu8, 0x2fu8, 0x6fu8, 0x63u8, 0x74u8, 0x65u8, 0x74u8, 0x2du8, 0x73u8, 0x74u8, 0x72u8, 0x65u8, 0x61u8, 0x6du8]
}

pub fn octet_stream_lit() -> (r: Vec<u8>)
    ensures
        r@ == octet_stream_lit_spec(),
{
    let mut v: Vec<u8> = Vec::new();
    v.push(0x61);
    v.push(0x70);
    v.push(0x70);
    v.push(0x6c);
    v.push(0x69);
    v.push(0x63);
    v.push(0x61);
    v.push(0x74);
    v.push(0x69);
    v.push(0x6f);
    v.push(0x6e);
    v.push(0x2f);
    v.push(0x6f);
    v.push(0x63);
    v.push(0x74);
    v.push(0x65);
    v.push(0x74);
    v.push(0x2d);
    v.push(0x73);
    v.push(0x74);
    v.push(0x72);
    v.push(0x65);
    v.push(0x61);
    v.push(0x6d);
    proof {
        assert(v@ =~= octet_stream_lit_spec());
    }
    v
}

pub open spec fn mpegurl_lit_spec() -> Seq<u8> {
    seq![0x61u8, 0x70u8, 0x70u8, 0x6cu8, 0x69u8, 0x63u8, 0x61u8, 0x74u8, 0x69u8, 0x6fu8, 0x6eu8, 0x2fu8, 0x76u8, 0x6eu8, 0x64u8, 0x2eu8, 0x61u8, 0x70u8, 0x70u8, 0x6cu8, 0x65u8, 0x2eu8, 0x6du8, 0x70u8, 0x65u8, 0x67u8, 0x75u8, 0x72u8, 0x6cu8]
}

pub fn mpegurl_lit() -> (r: Vec<u8>)
    ensures
        r@ == mpegurl_lit_spec(),
{
    let mut v: Vec<u8> = Vec::new();
    v.push(0x61);
    v.push(0x70);
    v.push(0x70);
    v.push(0x6c);
    v.push(0x69);
    v.push(0x63);
    v.push(0x61);
    v.push(0x74);
    v.push(0x69);
    v.push(0x6f);
    v.push(0x6e);
    v.push(0x2f);
    v.push(0x76);
    v.push(0x6e);
    v.push(0x64);
    v.push(0x2e);
    v.push(0x61);
    v.push(0x70);
    v.push(0x70);
    v.push(0x6c);
    v.push(0x65);
    v.push(0x2e);
    v.push(0x6d);
    v.push(0x70);
    v.push(0x65);
    v.push(0x67);
    v.push(0x75);
    v.push(0x72);
    v.push(0x6c);
    proof {
        assert(v@ =~= mpegurl_lit_spec());
    }
    v
}

pub open spec fn star_lit_spec() -> Seq<u8> {
    seq![0x2au8]
}

pub fn star_lit() -> (r: Vec<u8>)
    ensures
        r@ == star_lit_spec(),
{
    let mut v: Vec<u8> = Vec::new();
    v.push(0x2a);
    proof {
        assert(v@ =~= star_lit_spec());
    }
    v
}

} // verus!
