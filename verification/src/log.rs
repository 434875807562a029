use vstd::prelude::*;

use crate::bstr::push_all;
use crate::fmt::{decimal, push_decimal};
use crate::time::BootTimestamp;

verus! {

/// `n` zero digits.
pub open spec fn zeros(n: nat) -> Seq<u8> {
    Seq::new(n, |i: int| 0x30u8)
}

/// Decimal digits padded with zeros on the left to at least `width` digits.
pub open spec fn zero_padded(digits: Seq<u8>, width: nat) -> Seq<u8> {
    if digits.len() < width {
        zeros((width - digits.len()) as nat) + digits
    } else {
        digits
    }
}

/// The prefix of a log record: `[seconds.nanoseconds] `, nanoseconds in nine digits.
pub open spec fn spec_record_prefix(t: BootTimestamp) -> Seq<u8> {
    seq![0x5bu8] + decimal(t.seconds as nat) + seq![0x2eu8] + zero_padded(decimal(t.nanoseconds as nat), 9)
        + seq![0x5du8, 0x20u8]
}

/// A log record: the time stamp prefix, the text and a line feed.
pub open spec fn spec_record(t: BootTimestamp, text: Seq<u8>) -> Seq<u8> {
    spec_record_prefix(t) + text + seq![0x0au8]
}

fn push_zero_padded(out: &mut Vec<u8>, v: u64, width: usize)
    ensures
        final(out)@ == old(out)@ + zero_padded(decimal(v as nat), width as nat),
{
    let digits = crate::fmt::decimal_bytes(v);
    let ghost start = out@;
    let mut k: usize = digits.len();
    while k < width
        invariant
            digits@ == decimal(v as nat),
            digits@.len() <= k,
            k <= width || k == digits@.len(),
            out@ == start + zeros((k - digits@.len()) as nat),
        decreases width - k,
    {
        out.push(0x30);
        k = k + 1;
        assert(out@ =~= start + zeros((k - digits@.len()) as nat));
    }
    push_all(out, digits.as_slice());
    if digits.len() < width {
        assert(out@ =~= start + zero_padded(decimal(v as nat), width as nat));
    } else {
        assert(out@ =~= start + zero_padded(decimal(v as nat), width as nat));
    }
}

/// The log record of `text` at time `timestamp`.
pub fn write_record(timestamp: BootTimestamp, text: &[u8]) -> (record: Vec<u8>)
    ensures
        record@ == spec_record(timestamp, text@),
{
    let mut out: Vec<u8> = Vec::new();
    out.push(0x5b);
    push_decimal(&mut out, timestamp.seconds);
    out.push(0x2e);
    push_zero_padded(&mut out, timestamp.nanoseconds as u64, 9);
    out.push(0x5d);
    out.push(0x20);
    push_all(&mut out, text);
    out.push(0x0a);
    assert(out@ =~= spec_record(timestamp, text@));
    out
}

} // verus!
