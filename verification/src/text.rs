use vstd::prelude::*;

verus! {

/// A byte is ASCII whitespace that trimming removes.
pub open spec fn is_ws(b: u8) -> bool {
    b == 0x20 || b == 0x09 || b == 0x0a || b == 0x0d || b == 0x0b || b == 0x0c
}

/// True when `p` occurs in `s` starting at index `i`.
pub open spec fn sub_at(s: Seq<u8>, p: Seq<u8>, i: int) -> bool {
    0 <= i && i + p.len() <= s.len() && s.subrange(i, i + p.len() as int) == p
}

/// True when `p` occurs somewhere in `s`.
pub open spec fn has_sub(s: Seq<u8>, p: Seq<u8>) -> bool {
    exists|i: int| sub_at(s, p, i)
}

/// Index of the leftmost occurrence of `p` in `s`, if any.
pub open spec fn find_sub(s: Seq<u8>, p: Seq<u8>) -> Option<int>
    decreases s.len(),
{
    if s.len() < p.len() {
        None
    } else if s.subrange(0, p.len() as int) == p {
        Some(0)
    } else if s.len() == 0 {
        None
    } else {
        match find_sub(s.skip(1), p) {
            Some(j) => Some(j + 1),
            None => None,
        }
    }
}

proof fn lemma_sub_at_shift(s: Seq<u8>, p: Seq<u8>, i: int)
    requires
        s.len() >= 1,
        i >= 0,
    ensures
        sub_at(s, p, i + 1) == sub_at(s.skip(1), p, i),
{
    if 0 <= i && i + p.len() <= s.len() - 1 {
        assert(s.skip(1).subrange(i, i + p.len() as int) =~= s.subrange(i + 1, i + 1 + p.len()));
    }
}

/// `find_sub` returns the first occurrence: a hit at its index and no hit before it.
pub proof fn lemma_find_sub(s: Seq<u8>, p: Seq<u8>)
    ensures
        match find_sub(s, p) {
            Some(i) => sub_at(s, p, i) && (forall|j: int| 0 <= j < i ==> !sub_at(s, p, j)),
            None => !has_sub(s, p),
        },
    decreases s.len(),
{
    if s.len() < p.len() {
        assert forall|i: int| !sub_at(s, p, i) by {}
        assert(!has_sub(s, p));
    } else if s.subrange(0, p.len() as int) == p {
        assert(sub_at(s, p, 0));
    } else if s.len() == 0 {
        assert(s.subrange(0, p.len() as int) =~= p);
        assert(false);
    } else {
        lemma_find_sub(s.skip(1), p);
        assert(!sub_at(s, p, 0));
        match find_sub(s.skip(1), p) {
            Some(j) => {
                lemma_sub_at_shift(s, p, j);
                assert(sub_at(s, p, j + 1));
                assert forall|k: int| 0 <= k < j + 1 implies !sub_at(s, p, k) by {
                    if k >= 1 {
                        lemma_sub_at_shift(s, p, k - 1);
                    }
                }
            },
            None => {
                assert forall|k: int| !sub_at(s, p, k) by {
                    if k >= 1 {
                        lemma_sub_at_shift(s, p, k - 1);
                    }
                }
                assert(!has_sub(s, p));
            },
        }
    }
}

/// Every occurrence of `p` in `s` replaced by `r`, scanning left to right
/// without overlap, as `str::replace` does.
pub open spec fn replace_all(s: Seq<u8>, p: Seq<u8>, r: Seq<u8>) -> Seq<u8>
    decreases s.len(),
{
    if p.len() == 0 || s.len() < p.len() {
        s
    } else if s.subrange(0, p.len() as int) == p {
        r + replace_all(s.skip(p.len() as int), p, r)
    } else {
        seq![s[0]] + replace_all(s.skip(1), p, r)
    }
}

/// `s` without leading whitespace.
pub open spec fn trim_start_spec(s: Seq<u8>) -> Seq<u8>
    decreases s.len(),
{
    if s.len() > 0 && is_ws(s[0]) {
        trim_start_spec(s.skip(1))
    } else {
        s
    }
}

/// `s` without trailing whitespace.
pub open spec fn trim_end_spec(s: Seq<u8>) -> Seq<u8>
    decreases s.len(),
{
    if s.len() > 0 && is_ws(s[s.len() - 1]) {
        trim_end_spec(s.take(s.len() - 1))
    } else {
        s
    }
}

/// `s` without surrounding whitespace.
pub open spec fn trim_spec(s: Seq<u8>) -> Seq<u8> {
    trim_end_spec(trim_start_spec(s))
}

/// Every byte of `s` is ASCII.
pub open spec fn ascii_seq(s: Seq<u8>) -> bool {
    forall|i: int| 0 <= i < s.len() ==> s[i] < 128
}

/// Decimal digits of a nonnegative number, most significant first.
pub open spec fn dec_spec(n: int) -> Seq<u8>
    decreases n,
{
    if n < 10 {
        seq![(n + 0x30) as u8]
    } else {
        dec_spec(n / 10) + seq![(n % 10 + 0x30) as u8]
    }
}

pub fn is_ws_byte(b: u8) -> (r: bool)
    ensures
        r == is_ws(b),
{
    b == 0x20 || b == 0x09 || b == 0x0a || b == 0x0d || b == 0x0b || b == 0x0c
}

/// Reverses the bytes of `s`.
pub fn reverse(s: &Vec<u8>) -> (r: Vec<u8>)
    ensures
        r@ == s@.reverse(),
{
    let mut out: Vec<u8> = Vec::new();
    let mut i: usize = s.len();
    while i > 0
        invariant
            i <= s@.len(),
            out@ =~= s@.subrange(i as int, s@.len() as int).reverse(),
        decreases i,
    {
        i = i - 1;
        out.push(s[i]);
        proof {
            assert(out@ =~= s@.subrange(i as int, s@.len() as int).reverse());
        }
    }
    proof {
        assert(s@.subrange(0, s@.len() as int) =~= s@);
    }
    out
}

/// Appends all of `other` onto `out`.
pub fn append_bytes(out: &mut Vec<u8>, other: &Vec<u8>)
    ensures
        final(out)@ == old(out)@ + other@,
{
    let mut i: usize = 0;
    while i < other.len()
        invariant
            i <= other@.len(),
            out@ =~= old(out)@ + other@.subrange(0, i as int),
        decreases other@.len() - i,
    {
        out.push(other[i]);
        i = i + 1;
        proof {
            assert(out@ =~= old(out)@ + other@.subrange(0, i as int));
        }
    }
    proof {
        assert(other@.subrange(0, other@.len() as int) =~= other@);
    }
}

/// Copies `s[from..to]` out as a fresh vector.
pub fn slice_bytes(s: &Vec<u8>, from: usize, to: usize) -> (r: Vec<u8>)
    requires
        from <= to <= s@.len(),
    ensures
        r@ == s@.subrange(from as int, to as int),
{
    let mut out: Vec<u8> = Vec::new();
    let mut i: usize = from;
    while i < to
        invariant
            from <= i <= to <= s@.len(),
            out@ =~= s@.subrange(from as int, i as int),
        decreases to - i,
    {
        out.push(s[i]);
        i = i + 1;
        proof {
            assert(out@ =~= s@.subrange(from as int, i as int));
        }
    }
    out
}

/// Whether `p` occurs at index `i` of `s`.
pub fn match_at(s: &Vec<u8>, p: &Vec<u8>, i: usize) -> (r: bool)
    requires
        i + p@.len() <= s@.len(),
    ensures
        r == sub_at(s@, p@, i as int),
{
    let n: usize = s.len();
    let m: usize = p.len();
    let mut j: usize = 0;
    while j < m
        invariant
            j <= m,
            m == p@.len(),
            n == s@.len(),
            i + m <= n,
            forall|k: int| 0 <= k < j ==> s@[i + k] == p@[k],
        decreases m - j,
    {
        if s[i + j] != p[j] {
            proof {
                assert(s@.subrange(i as int, i + p@.len())[j as int] == s@[i + j]);
            }
            return false;
        }
        j = j + 1;
    }
    proof {
        assert(s@.subrange(i as int, i + p@.len()) =~= p@);
    }
    true
}

/// Whether `p` occurs anywhere in `s`.
pub fn contains_sub(s: &Vec<u8>, p: &Vec<u8>) -> (r: bool)
    requires
        p@.len() >= 1,
    ensures
        r == has_sub(s@, p@),
{
    let n: usize = s.len();
    let m: usize = p.len();
    if m > n {
        proof {
            assert forall|i: int| !sub_at(s@, p@, i) by {}
        }
        return false;
    }
    let mut i: usize = 0;
    while i <= n - m
        invariant
            1 <= m == p@.len() <= n == s@.len(),
            i <= n - m + 1,
            forall|j: int| 0 <= j < i ==> !sub_at(s@, p@, j),
        decreases n - i,
    {
        if match_at(s, p, i) {
            proof {
                assert(sub_at(s@, p@, i as int));
            }
            return true;
        }
        i = i + 1;
    }
    proof {
        assert forall|j: int| !sub_at(s@, p@, j) by {
            if j + p@.len() <= s@.len() && 0 <= j {
                assert(j < i);
            }
        }
    }
    false
}

/// Index of the leftmost occurrence of `p` in `s`, if any.
pub fn find_first_sub(s: &Vec<u8>, p: &Vec<u8>) -> (r: Option<usize>)
    requires
        p@.len() >= 1,
    ensures
        match r {
            Some(i) => find_sub(s@, p@) == Some(i as int),
            None => find_sub(s@, p@) is None,
        },
{
    proof {
        lemma_find_sub(s@, p@);
    }
    let n: usize = s.len();
    let m: usize = p.len();
    if m > n {
        proof {
            assert forall|i: int| !sub_at(s@, p@, i) by {}
            assert(!has_sub(s@, p@));
        }
        return None;
    }
    let mut i: usize = 0;
    while i <= n - m
        invariant
            1 <= m == p@.len() <= n == s@.len(),
            i <= n - m + 1,
            forall|j: int| 0 <= j < i ==> !sub_at(s@, p@, j),
            match find_sub(s@, p@) {
                Some(w) => sub_at(s@, p@, w) && (forall|j: int| 0 <= j < w ==> !sub_at(s@, p@, j)),
                None => !has_sub(s@, p@),
            },
        decreases n - i,
    {
        if match_at(s, p, i) {
            proof {
                assert(sub_at(s@, p@, i as int));
                assert(has_sub(s@, p@));
                if find_sub(s@, p@) is None {
                    assert(false);
                }
                let w = find_sub(s@, p@)->Some_0;
                if w < i as int {
                    assert(!sub_at(s@, p@, w));
                    assert(false);
                }
                if w > i as int {
                    assert(!sub_at(s@, p@, i as int));
                    assert(false);
                }
            }
            return Some(i);
        }
        i = i + 1;
    }
    proof {
        assert forall|j: int| !sub_at(s@, p@, j) by {
            if j + p@.len() <= s@.len() && 0 <= j {
                assert(j < i);
            }
        }
        assert(!has_sub(s@, p@));
    }
    None
}

/// Replaces every occurrence of `p` in `s` by `r`, left to right.
pub fn replace_all_bytes(s: &Vec<u8>, p: &Vec<u8>, r: &Vec<u8>) -> (out: Vec<u8>)
    requires
        p@.len() >= 1,
    ensures
        out@ == replace_all(s@, p@, r@),
{
    let mut out: Vec<u8> = Vec::new();
    let mut i: usize = 0;
    let n: usize = s.len();
    let m: usize = p.len();
    proof {
        assert(s@.skip(0) =~= s@);
        assert(out@ + replace_all(s@, p@, r@) =~= replace_all(s@, p@, r@));
    }
    while i < n
        invariant
            i <= n == s@.len(),
            1 <= m == p@.len(),
            replace_all(s@, p@, r@) == out@ + replace_all(s@.skip(i as int), p@, r@),
        decreases n - i,
    {
        let ghost pre = out@;
        let ghost rest = s@.skip(i as int);
        if m <= n - i && match_at(s, p, i) {
            append_bytes(&mut out, r);
            proof {
                assert(rest.subrange(0, p@.len() as int) =~= s@.subrange(
                    i as int,
                    i + p@.len(),
                ));
                assert(rest.skip(p@.len() as int) =~= s@.skip(i + p@.len()));
                assert(replace_all(rest, p@, r@) == r@ + replace_all(
                    s@.skip(i + p@.len()),
                    p@,
                    r@,
                ));
                assert(pre + replace_all(rest, p@, r@) =~= out@ + replace_all(
                    s@.skip(i + p@.len()),
                    p@,
                    r@,
                ));
            }
            i = i + m;
        } else {
            out.push(s[i]);
            proof {
                if i + p@.len() <= s@.len() {
                    assert(rest.subrange(0, p@.len() as int) =~= s@.subrange(
                        i as int,
                        i + p@.len(),
                    ));
                    assert(rest.subrange(0, p@.len() as int) != p@);
                }
                assert(rest.skip(1) =~= s@.skip(i as int + 1));
                assert(replace_all(rest, p@, r@) == seq![s@[i as int]] + replace_all(
                    s@.skip(i as int + 1),
                    p@,
                    r@,
                )) by {
                    if rest.len() < p@.len() {
                        assert(replace_all(rest, p@, r@) == rest);
                        assert(replace_all(s@.skip(i as int + 1), p@, r@) == s@.skip(
                            i as int + 1,
                        ));
                        assert(rest =~= seq![s@[i as int]] + s@.skip(i as int + 1));
                    }
                }
                assert(pre + replace_all(rest, p@, r@) =~= out@ + replace_all(
                    s@.skip(i as int + 1),
                    p@,
                    r@,
                ));
            }
            i = i + 1;
        }
    }
    proof {
        assert(s@.skip(s@.len() as int) =~= Seq::<u8>::empty());
        assert(out@ + Seq::<u8>::empty() =~= out@);
    }
    out
}

/// Removes surrounding whitespace.
pub fn trim_bytes(s: &Vec<u8>) -> (out: Vec<u8>)
    ensures
        out@ == trim_spec(s@),
{
    let mut a: usize = 0;
    proof {
        assert(s@.skip(0) =~= s@);
    }
    while a < s.len() && is_ws_byte(s[a])
        invariant
            a <= s@.len(),
            trim_start_spec(s@) == trim_start_spec(s@.skip(a as int)),
        decreases s@.len() - a,
    {
        proof {
            assert(s@.skip(a as int).skip(1) =~= s@.skip(a as int + 1));
        }
        a = a + 1;
    }
    proof {
        assert(trim_start_spec(s@) == s@.skip(a as int));
    }
    let mut b: usize = s.len();
    while b > a && is_ws_byte(s[b - 1])
        invariant
            a <= b <= s@.len(),
            trim_end_spec(s@.skip(a as int)) == trim_end_spec(s@.subrange(a as int, b as int)),
        decreases b,
    {
        proof {
            let cur = s@.subrange(a as int, b as int);
            assert(cur[cur.len() - 1] == s@[b - 1]);
            assert(cur.take(cur.len() - 1) =~= s@.subrange(a as int, b as int - 1));
        }
        b = b - 1;
    }
    proof {
        let cur = s@.subrange(a as int, b as int);
        if b == a {
            assert(cur.len() == 0);
        } else {
            assert(cur[cur.len() - 1] == s@[b - 1]);
        }
        assert(trim_end_spec(cur) == cur);
        assert(s@.skip(a as int) =~= s@.subrange(a as int, s@.len() as int));
    }
    slice_bytes(s, a, b)
}

/// Decimal rendering of `n`.
pub fn fmt_u32(n: u32) -> (out: Vec<u8>)
    ensures
        out@ == dec_spec(n as int),
    decreases n,
{
    if n < 10 {
        let mut out: Vec<u8> = Vec::new();
        out.push((n as u8) + 0x30);
        proof {
            assert(out@ =~= dec_spec(n as int));
        }
        out
    } else {
        let mut out: Vec<u8> = fmt_u32(n / 10);
        out.push(((n % 10) as u8) + 0x30);
        proof {
            assert(out@ =~= dec_spec(n as int / 10) + seq![(n as int % 10 + 0x30) as u8]);
        }
        out
    }
}

} // verus!
