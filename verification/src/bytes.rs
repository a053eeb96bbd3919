use vstd::arithmetic::div_mod::lemma_div_denominator;
use vstd::arithmetic::div_mod::lemma_fundamental_div_mod;
use vstd::prelude::*;

verus! {

/// The two bytes of `v` in little-endian order.
pub open spec fn le16(v: u16) -> Seq<u8> {
    seq![(v % 256) as u8, (v / 256) as u8]
}

/// The four bytes of `v` in little-endian order.
pub open spec fn le32(v: u32) -> Seq<u8> {
    seq![
        (v % 256) as u8,
        ((v / 256) % 256) as u8,
        ((v / 65536) % 256) as u8,
        ((v / 16777216) % 256) as u8,
    ]
}

/// The value of the two bytes of `a` at `i`, read little-endian.
pub open spec fn ru16(a: Seq<u8>, i: int) -> int
    recommends
        0 <= i,
        i + 2 <= a.len(),
{
    a[i] + 256 * a[i + 1]
}

/// The value of the four bytes of `a` at `i`, read little-endian.
pub open spec fn ru32(a: Seq<u8>, i: int) -> int
    recommends
        0 <= i,
        i + 4 <= a.len(),
{
    a[i] + 256 * a[i + 1] + 65536 * a[i + 2] + 16777216 * a[i + 3]
}

/// Reading back the two little-endian bytes of `v` yields `v`.
pub proof fn lemma_ru16_le16(a: Seq<u8>, i: int, v: u16)
    requires
        0 <= i,
        i + 2 <= a.len(),
        a[i] == le16(v)[0],
        a[i + 1] == le16(v)[1],
    ensures
        ru16(a, i) == v,
{
    lemma_fundamental_div_mod(v as int, 256);
}

/// Reading back the four little-endian bytes of `v` yields `v`.
pub proof fn lemma_ru32_le32(a: Seq<u8>, i: int, v: u32)
    requires
        0 <= i,
        i + 4 <= a.len(),
        a[i] == le32(v)[0],
        a[i + 1] == le32(v)[1],
        a[i + 2] == le32(v)[2],
        a[i + 3] == le32(v)[3],
    ensures
        ru32(a, i) == v,
{
    let x = v as int;
    lemma_fundamental_div_mod(x, 256);
    lemma_fundamental_div_mod(x / 256, 256);
    lemma_fundamental_div_mod(x / 65536, 256);
    lemma_div_denominator(x, 256, 256);
    lemma_div_denominator(x, 65536, 256);
    assert(x / 16777216 < 256) by {
        lemma_div_denominator(x, 16777216, 256);
        lemma_fundamental_div_mod(x / 16777216, 256);
    }
}

/// Reads the two bytes at `i` as a little-endian integer.
pub fn read_u16(a: &Vec<u8>, i: usize) -> (r: u16)
    requires
        i + 2 <= a@.len(),
    ensures
        r == ru16(a@, i as int),
{
    let n = a.len();
    (a[i] as u16) + 256 * (a[i + 1] as u16)
}

/// Reads the four bytes at `i` as a little-endian integer.
pub fn read_u32(a: &Vec<u8>, i: usize) -> (r: u32)
    requires
        i + 4 <= a@.len(),
    ensures
        r == ru32(a@, i as int),
{
    let n = a.len();
    (a[i] as u32) + 256 * (a[i + 1] as u32) + 65536 * (a[i + 2] as u32) + 16777216 * (a[i + 3]
        as u32)
}

/// Appends the two little-endian bytes of `v`.
pub fn push_u16(out: &mut Vec<u8>, v: u16)
    ensures
        final(out)@ == old(out)@ + le16(v),
{
    out.push((v % 256) as u8);
    out.push((v / 256) as u8);
    assert(out@ =~= old(out)@ + le16(v));
}

/// Appends the four little-endian bytes of `v`.
pub fn push_u32(out: &mut Vec<u8>, v: u32)
    ensures
        final(out)@ == old(out)@ + le32(v),
{
    out.push((v % 256) as u8);
    out.push(((v / 256) % 256) as u8);
    out.push(((v / 65536) % 256) as u8);
    out.push(((v / 16777216) % 256) as u8);
    assert(out@ =~= old(out)@ + le32(v));
}

/// Appends all bytes of `v`.
pub fn push_bytes(out: &mut Vec<u8>, v: &Vec<u8>)
    ensures
        final(out)@ == old(out)@ + v@,
{
    let mut k: usize = 0;
    while k < v.len()
        invariant
            k <= v@.len(),
            out@ == old(out)@ + v@.subrange(0, k as int),
        decreases v@.len() - k,
    {
        out.push(v[k]);
        assert(out@ =~= old(out)@ + v@.subrange(0, k as int + 1));
        k += 1;
    }
    assert(out@ =~= old(out)@ + v@);
}

/// `s` ends with the byte sequence `suf`.
pub open spec fn ends_with(s: Seq<u8>, suf: Seq<u8>) -> bool {
    s.len() >= suf.len() && s.subrange(s.len() - suf.len(), s.len() as int) == suf
}

/// Decides whether `s` ends with `suf`.
pub fn ends_with_bytes(s: &Vec<u8>, suf: &Vec<u8>) -> (r: bool)
    ensures
        r == ends_with(s@, suf@),
{
    if s.len() < suf.len() {
        assert(!ends_with(s@, suf@));
        return false;
    }
    let off = s.len() - suf.len();
    let mut k: usize = 0;
    while k < suf.len()
        invariant
            k <= suf@.len(),
            off == s@.len() - suf@.len(),
            s@.len() >= suf@.len(),
            s@.len() <= usize::MAX,
            forall|j: int| 0 <= j < k ==> s@[off + j] == suf@[j],
        decreases suf@.len() - k,
    {
        if s[off + k] != suf[k] {
            assert(s@.subrange(s@.len() - suf@.len(), s@.len() as int)[k as int] == s@[off + k]);
            assert(!ends_with(s@, suf@));
            return false;
        }
        k += 1;
    }
    assert(s@.subrange(s@.len() - suf@.len(), s@.len() as int) =~= suf@);
    true
}

} // verus!
