use vstd::prelude::*;

verus! {

/// The unsigned little-endian value of the eight bytes of `s` from `at`.
pub open spec fn le_u64_at(s: Seq<u8>, at: int) -> int {
    s[at] as int + s[at + 1] as int * 0x100 + s[at + 2] as int * 0x1_0000 + s[at + 3] as int
        * 0x100_0000 + s[at + 4] as int * 0x1_0000_0000 + s[at + 5] as int * 0x100_0000_0000
        + s[at + 6] as int * 0x1_0000_0000_0000 + s[at + 7] as int * 0x100_0000_0000_0000
}

/// The eight little-endian bytes of `v`.
pub open spec fn le_bytes(v: u64) -> Seq<u8> {
    seq![
        (v % 0x100) as u8,
        (v / 0x100 % 0x100) as u8,
        (v / 0x1_0000 % 0x100) as u8,
        (v / 0x100_0000 % 0x100) as u8,
        (v / 0x1_0000_0000 % 0x100) as u8,
        (v / 0x100_0000_0000 % 0x100) as u8,
        (v / 0x1_0000_0000_0000 % 0x100) as u8,
        (v / 0x100_0000_0000_0000 % 0x100) as u8,
    ]
}

/// Reading back the bytes of a value gives the value.
pub proof fn lemma_le_round_trip(v: u64)
    ensures
        le_bytes(v).len() == 8,
        le_u64_at(le_bytes(v), 0) == v,
{
    let q1 = v / 0x100;
    let q2 = q1 / 0x100;
    let q3 = q2 / 0x100;
    let q4 = q3 / 0x100;
    let q5 = q4 / 0x100;
    let q6 = q5 / 0x100;
    let q7 = q6 / 0x100;
    assert(v / 0x1_0000 == q2) by (nonlinear_arith)
        requires q1 == v / 0x100, q2 == q1 / 0x100;
    assert(v / 0x100_0000 == q3) by (nonlinear_arith)
        requires q3 == q2 / 0x100, q2 == v / 0x1_0000;
    assert(v / 0x1_0000_0000 == q4) by (nonlinear_arith)
        requires q4 == q3 / 0x100, q3 == v / 0x100_0000;
    assert(v / 0x100_0000_0000 == q5) by (nonlinear_arith)
        requires q5 == q4 / 0x100, q4 == v / 0x1_0000_0000;
    assert(v / 0x1_0000_0000_0000 == q6) by (nonlinear_arith)
        requires q6 == q5 / 0x100, q5 == v / 0x100_0000_0000;
    assert(v / 0x100_0000_0000_0000 == q7) by (nonlinear_arith)
        requires q7 == q6 / 0x100, q6 == v / 0x1_0000_0000_0000;
    assert(q7 < 0x100);
}

/// Reads the little-endian `u64` stored in `data` at `at`.
pub fn read_u64_le(data: &[u8], at: usize) -> (r: u64)
    requires
        at + 8 <= data@.len(),
    ensures
        r == le_u64_at(data@, at as int),
{
    data[at] as u64 + data[at + 1] as u64 * 0x100 + data[at + 2] as u64 * 0x1_0000
        + data[at + 3] as u64 * 0x100_0000 + data[at + 4] as u64 * 0x1_0000_0000
        + data[at + 5] as u64 * 0x100_0000_0000 + data[at + 6] as u64 * 0x1_0000_0000_0000
        + data[at + 7] as u64 * 0x100_0000_0000_0000
}

/// Appends the eight little-endian bytes of `v` to `out`.
pub fn write_u64_le(out: &mut Vec<u8>, v: u64)
    ensures
        final(out)@ == old(out)@ + le_bytes(v),
{
    let ghost before = out@;
    out.push((v % 0x100) as u8);
    out.push((v / 0x100 % 0x100) as u8);
    out.push((v / 0x1_0000 % 0x100) as u8);
    out.push((v / 0x100_0000 % 0x100) as u8);
    out.push((v / 0x1_0000_0000 % 0x100) as u8);
    out.push((v / 0x100_0000_0000 % 0x100) as u8);
    out.push((v / 0x1_0000_0000_0000 % 0x100) as u8);
    out.push((v / 0x100_0000_0000_0000 % 0x100) as u8);
    assert(out@ =~= before + le_bytes(v));
}

/// Overwrites the eight bytes of `data` from `at` with the little-endian bytes of `v`.
pub fn put_u64_le(data: &mut Vec<u8>, at: usize, v: u64)
    requires
        at + 8 <= old(data)@.len(),
    ensures
        final(data)@ == old(data)@.subrange(0, at as int) + le_bytes(v) + old(data)@.subrange(
            at + 8,
            old(data)@.len() as int,
        ),
{
    let ghost before = data@;
    let len = data.len();
    let (a1, a2, a3, a4, a5, a6, a7) = (at + 1, at + 2, at + 3, at + 4, at + 5, at + 6, at + 7);
    assert(a7 < len);
    data.set(at, (v % 0x100) as u8);
    data.set(a1, (v / 0x100 % 0x100) as u8);
    data.set(a2, (v / 0x1_0000 % 0x100) as u8);
    data.set(a3, (v / 0x100_0000 % 0x100) as u8);
    data.set(a4, (v / 0x1_0000_0000 % 0x100) as u8);
    data.set(a5, (v / 0x100_0000_0000 % 0x100) as u8);
    data.set(a6, (v / 0x1_0000_0000_0000 % 0x100) as u8);
    data.set(a7, (v / 0x100_0000_0000_0000 % 0x100) as u8);
    assert(data@ =~= before.subrange(0, at as int) + le_bytes(v) + before.subrange(
        at + 8,
        before.len() as int,
    ));
}

} // verus!
