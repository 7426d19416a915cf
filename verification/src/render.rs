//! Rendering an emitted record as one output line, `[<index>/<total>] <label>`,
//! in ASCII bytes.

use vstd::prelude::*;

use crate::record::{label_bytes, label_text, Record};

verus! {

/// The decimal digits of `n`, most significant first, as ASCII bytes, with
/// no leading zero except for `n == 0` itself.
pub open spec fn dec_digits(n: nat) -> Seq<u8>
    decreases n,
{
    if n < 10 {
        seq![(48 + n) as u8]
    } else {
        dec_digits(n / 10).push((48 + n % 10) as u8)
    }
}

/// The whole line for one record: `[<index>/<total>] <label>`.
pub open spec fn line_bytes(r: Record) -> Seq<u8> {
    seq![91u8] + dec_digits(r.index as nat) + seq![47u8] + dec_digits(r.total as nat) + seq![
        93u8,
        32,
    ] + label_bytes(r.label)
}

/// Writes `n` in decimal, most significant digit first.
pub fn u32_digits(n: u32) -> (v: Vec<u8>)
    ensures
        v@ == dec_digits(n as nat),
{
    let mut v: Vec<u8> = Vec::new();
    v.push(48 + (n % 10) as u8);
    let mut m: u32 = n / 10;
    proof {
        if m > 0 {
            assert(dec_digits(n as nat) == dec_digits(m as nat).push((48 + n % 10) as u8));
            assert(dec_digits(m as nat).push((48 + n % 10) as u8) =~= dec_digits(m as nat) + v@);
        }
    }
    while m > 0
        invariant
            m > 0 ==> dec_digits(n as nat) == dec_digits(m as nat) + v@,
            m == 0 ==> dec_digits(n as nat) == v@,
        decreases m,
    {
        let d: u8 = 48 + (m % 10) as u8;
        let ghost pre = v@;
        v.insert(0, d);
        proof {
            assert(v@ =~= seq![d] + pre);
            if m >= 10 {
                assert(dec_digits(m as nat) == dec_digits(m as nat / 10).push(d));
                assert(dec_digits(m as nat / 10).push(d) + pre =~= dec_digits(m as nat / 10) + (
                seq![d] + pre));
                assert(dec_digits(n as nat) == dec_digits((m / 10) as nat) + v@);
            } else {
                assert(dec_digits(m as nat) =~= seq![d]);
                assert(dec_digits(n as nat) == v@);
            }
        }
        m = m / 10;
    }
    v
}

/// Builds the output line for one record, exactly as the record is to appear
/// on the output: `[<index>/<total>] <label>`.
pub fn render_line(r: &Record) -> (v: Vec<u8>)
    ensures
        v@ == line_bytes(*r),
{
    let mut v: Vec<u8> = Vec::new();
    v.push(91);
    let mut index_digits = u32_digits(r.index);
    v.append(&mut index_digits);
    v.push(47);
    let mut total_digits = u32_digits(r.total);
    v.append(&mut total_digits);
    v.push(93);
    v.push(32);
    let mut label = label_text(r.label);
    v.append(&mut label);
    assert(v@ =~= line_bytes(*r));
    v
}

} // verus!
