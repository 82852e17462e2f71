use vstd::prelude::*;

verus! {

broadcast use vstd::std_specs::vec::group_vec_axioms, vstd::seq::group_seq_axioms;

/// The lowercase hexadecimal digit for a value below sixteen.
pub open spec fn hex_char(d: u8) -> char {
    if d == 0 { '0' } else if d == 1 { '1' } else if d == 2 { '2' } else if d == 3 { '3' }
    else if d == 4 { '4' } else if d == 5 { '5' } else if d == 6 { '6' } else if d == 7 { '7' }
    else if d == 8 { '8' } else if d == 9 { '9' } else if d == 10 { 'a' } else if d == 11 { 'b' }
    else if d == 12 { 'c' } else if d == 13 { 'd' } else if d == 14 { 'e' } else { 'f' }
}

pub open spec fn is_lower_hex_char(c: char) -> bool {
    ('0' <= c && c <= '9') || ('a' <= c && c <= 'f')
}

/// A digit sequence without its leading zeros.
pub open spec fn strip_zeros(ds: Seq<u8>) -> Seq<u8>
    decreases ds.len(),
{
    if ds.len() > 0 && ds[0] == 0 {
        strip_zeros(ds.drop_first())
    } else {
        ds
    }
}

/// `0x` followed by the significant digits, or `0x0` when every digit is zero.
pub open spec fn hex_text(ds: Seq<u8>) -> Seq<char> {
    let s = strip_zeros(ds);
    seq!['0', 'x'] + if s.len() == 0 {
        seq!['0']
    } else {
        s.map_values(|d: u8| hex_char(d))
    }
}

/// The 32 nibbles of a `u128`, most significant first.
pub open spec fn nibbles_u128(v: u128) -> Seq<u8> {
    Seq::new(32, |i: int| ((v >> (4 * (31 - i)) as u128) & 15u128) as u8)
}

/// The nibbles of a big-endian byte sequence, most significant first.
pub open spec fn nibbles_of_bytes(b: Seq<u8>) -> Seq<u8> {
    Seq::new(
        2 * b.len(),
        |i: int| if i % 2 == 0 { b[i / 2] / 16 } else { b[i / 2] % 16 },
    )
}

pub open spec fn all_digits(ds: Seq<u8>) -> bool {
    forall|i: int| 0 <= i < ds.len() ==> ds[i] < 16
}

fn hex_digit_str(d: u8) -> (r: &'static str)
    requires
        d < 16,
    ensures
        r@ == seq![hex_char(d)],
{
    if d == 0 { proof { reveal_strlit("0"); } "0" }
    else if d == 1 { proof { reveal_strlit("1"); } "1" }
    else if d == 2 { proof { reveal_strlit("2"); } "2" }
    else if d == 3 { proof { reveal_strlit("3"); } "3" }
    else if d == 4 { proof { reveal_strlit("4"); } "4" }
    else if d == 5 { proof { reveal_strlit("5"); } "5" }
    else if d == 6 { proof { reveal_strlit("6"); } "6" }
    else if d == 7 { proof { reveal_strlit("7"); } "7" }
    else if d == 8 { proof { reveal_strlit("8"); } "8" }
    else if d == 9 { proof { reveal_strlit("9"); } "9" }
    else if d == 10 { proof { reveal_strlit("a"); } "a" }
    else if d == 11 { proof { reveal_strlit("b"); } "b" }
    else if d == 12 { proof { reveal_strlit("c"); } "c" }
    else if d == 13 { proof { reveal_strlit("d"); } "d" }
    else if d == 14 { proof { reveal_strlit("e"); } "e" }
    else { proof { reveal_strlit("f"); } "f" }
}

proof fn lemma_strip_skip(ds: Seq<u8>, k: int)
    requires
        0 <= k < ds.len(),
        ds[k] == 0,
    ensures
        strip_zeros(ds.subrange(k, ds.len() as int)) == strip_zeros(
            ds.subrange(k + 1, ds.len() as int),
        ),
{
    assert(ds.subrange(k, ds.len() as int).drop_first() =~= ds.subrange(k + 1, ds.len() as int));
}

/// Renders a digit sequence as `0x`-prefixed lowercase hexadecimal without leading zeros.
pub fn hex_from_nibbles(ds: &Vec<u8>) -> (r: String)
    requires
        all_digits(ds@),
    ensures
        r@ == hex_text(ds@),
{
    let n = ds.len();
    let mut k: usize = 0;
    assert(ds@.subrange(0, n as int) =~= ds@);
    while k < n && ds[k] == 0
        invariant
            0 <= k <= n,
            n == ds@.len(),
            strip_zeros(ds@) == strip_zeros(ds@.subrange(k as int, n as int)),
        decreases n - k,
    {
        proof {
            lemma_strip_skip(ds@, k as int);
        }
        k = k + 1;
    }
    let ghost rest = ds@.subrange(k as int, n as int);
    assert(strip_zeros(rest) == rest);
    let mut out = String::from_str("0x");
    proof {
        reveal_strlit("0x");
    }
    if k == n {
        out.append("0");
        proof {
            reveal_strlit("0");
        }
        assert(out@ =~= hex_text(ds@));
        return out;
    }
    let mut i: usize = k;
    while i < n
        invariant
            k <= i <= n,
            n == ds@.len(),
            rest == ds@.subrange(k as int, n as int),
            all_digits(ds@),
            out@ == seq!['0', 'x'] + rest.subrange(0, i - k).map_values(|d: u8| hex_char(d)),
        decreases n - i,
    {
        out.append(hex_digit_str(ds[i]));
        assert(rest.subrange(0, i + 1 - k) =~= rest.subrange(0, i - k).push(ds@[i as int]));
        assert(out@ =~= seq!['0', 'x'] + rest.subrange(0, i + 1 - k).map_values(
            |d: u8| hex_char(d),
        ));
        i = i + 1;
    }
    assert(rest.subrange(0, n - k) =~= rest);
    out
}

/// The nibbles of a `u128`, most significant first.
pub fn u128_nibbles(v: u128) -> (r: Vec<u8>)
    ensures
        r@ == nibbles_u128(v),
        all_digits(r@),
{
    let mut out: Vec<u8> = Vec::new();
    let mut i: usize = 0;
    while i < 32
        invariant
            0 <= i <= 32,
            out@ == nibbles_u128(v).subrange(0, i as int),
        decreases 32 - i,
    {
        let shift: u128 = (4 * (31 - i)) as u128;
        let d: u8 = ((v >> shift) & 15u128) as u8;
        out.push(d);
        assert(out@ =~= nibbles_u128(v).subrange(0, i + 1));
        i = i + 1;
    }
    assert(out@ =~= nibbles_u128(v));
    assert forall|j: int| 0 <= j < out@.len() implies out@[j] < 16 by {
        let x = v >> (4 * (31 - j)) as u128;
        assert((x & 15u128) <= 15u128) by (bit_vector);
    }
    out
}

/// The nibbles of a big-endian byte sequence, most significant first.
pub fn byte_nibbles(b: &[u8]) -> (r: Vec<u8>)
    requires
        b@.len() <= 64,
    ensures
        r@ == nibbles_of_bytes(b@),
        all_digits(r@),
{
    let mut out: Vec<u8> = Vec::new();
    let mut i: usize = 0;
    while i < b.len()
        invariant
            0 <= i <= b@.len() <= 64,
            out@ == nibbles_of_bytes(b@).subrange(0, 2 * i as int),
        decreases b@.len() - i,
    {
        out.push(b[i] / 16);
        out.push(b[i] % 16);
        assert(out@ =~= nibbles_of_bytes(b@).subrange(0, 2 * (i + 1) as int));
        i = i + 1;
    }
    assert(out@ =~= nibbles_of_bytes(b@));
    out
}

/// Every rendering starts with `0x` and continues with lowercase hexadecimal digits only.
pub proof fn lemma_hex_text_lowercase(ds: Seq<u8>)
    requires
        all_digits(ds),
    ensures
        hex_text(ds).len() >= 3,
        hex_text(ds)[0] == '0',
        hex_text(ds)[1] == 'x',
        forall|i: int| 2 <= i < hex_text(ds).len() ==> is_lower_hex_char(#[trigger] hex_text(ds)[i]),
    decreases ds.len(),
{
    if ds.len() > 0 && ds[0] == 0 {
        lemma_hex_text_lowercase(ds.drop_first());
    }
}

} // verus!
