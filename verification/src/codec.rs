//! Rendering of outbound text.
//!
//! The bundled plugin emits a frame report onto the message bus and shows
//! frame rates with thousands separators.  Both are plain byte-level
//! renderings, specified exactly: the decimal form of a number, the
//! `1,234,567`-style grouped form, and the frame-report payload that splices
//! the frame counter and the host-rendered coordinates into a fixed shape.

use vstd::prelude::*;

verus! {

/// The ASCII digit for a value in `0..10`.
pub open spec fn spec_digit(d: int) -> u8 {
    (d + 48) as u8
}

/// The decimal rendering of a non-negative number, most significant digit
/// first, with no leading zeros (a lone zero for 0).
pub open spec fn spec_decimal(n: int) -> Seq<u8>
    decreases n,
{
    if n < 10 {
        seq![spec_digit(n)]
    } else {
        spec_decimal(n / 10).push(spec_digit(n % 10))
    }
}

/// The decimal rendering of a value in `0..1000`, zero-padded to exactly
/// three digits.
pub open spec fn spec_padded3(n: int) -> Seq<u8> {
    seq![spec_digit(n / 100), spec_digit((n / 10) % 10), spec_digit(n % 10)]
}

/// The decimal rendering with a comma between each group of three digits,
/// as `1,234,567`.
pub open spec fn spec_grouped(n: int) -> Seq<u8>
    decreases n,
{
    if n < 1000 {
        spec_decimal(n)
    } else {
        spec_grouped(n / 1000).push(44u8) + spec_padded3(n % 1000)
    }
}

/// Append the decimal rendering of `n`.
pub fn push_decimal(out: &mut Vec<u8>, n: u64)
    ensures
        final(out)@ == old(out)@ + spec_decimal(n as int),
    decreases n,
{
    if n < 10 {
        out.push((n as u8) + 48);
        proof {
            assert(out@ =~= old(out)@ + spec_decimal(n as int));
        }
    } else {
        push_decimal(out, n / 10);
        out.push(((n % 10) as u8) + 48);
        proof {
            assert(out@ =~= old(out)@ + spec_decimal(n as int));
        }
    }
}

/// The decimal rendering of `n` as bytes.
pub fn render_decimal(n: u64) -> (out: Vec<u8>)
    ensures
        out@ == spec_decimal(n as int),
{
    let mut out: Vec<u8> = Vec::new();
    push_decimal(&mut out, n);
    proof {
        assert(out@ =~= spec_decimal(n as int));
    }
    out
}

/// Append the grouped rendering of `n`.
fn push_grouped(out: &mut Vec<u8>, n: u64)
    ensures
        final(out)@ == old(out)@ + spec_grouped(n as int),
    decreases n,
{
    if n < 1000 {
        push_decimal(out, n);
    } else {
        push_grouped(out, n / 1000);
        out.push(44);
        let rest = n % 1000;
        out.push(((rest / 100) as u8) + 48);
        out.push((((rest / 10) % 10) as u8) + 48);
        out.push(((rest % 10) as u8) + 48);
        proof {
            assert(out@ =~= old(out)@ + spec_grouped(n as int));
        }
    }
}

/// The decimal rendering of `n` with commas between groups of three digits,
/// the way large frame rates are shown.
pub fn render_grouped(n: u64) -> (out: Vec<u8>)
    ensures
        out@ == spec_grouped(n as int),
{
    let mut out: Vec<u8> = Vec::new();
    push_grouped(&mut out, n);
    proof {
        assert(out@ =~= spec_grouped(n as int));
    }
    out
}

/// The opening of the frame report: `{"frame":`.
pub open spec fn spec_frame_opening() -> Seq<u8> {
    seq![123u8, 34u8, 102u8, 114u8, 97u8, 109u8, 101u8, 34u8, 58u8]
}

/// The middle of the frame report: `,"position":[`.
pub open spec fn spec_position_opening() -> Seq<u8> {
    seq![44u8, 34u8, 112u8, 111u8, 115u8, 105u8, 116u8, 105u8, 111u8, 110u8, 34u8, 58u8, 91u8]
}

/// The closing of the frame report: `]}`.
pub open spec fn spec_frame_closing() -> Seq<u8> {
    seq![93u8, 125u8]
}

/// The frame report for one tick: the frame counter and the three
/// host-rendered coordinates, spliced into
/// `{"frame":N,"position":[X,Y,Z]}`.
pub open spec fn spec_frame_payload(frame: u64, x: Seq<u8>, y: Seq<u8>, z: Seq<u8>) -> Seq<u8> {
    spec_frame_opening() + spec_decimal(frame as int) + spec_position_opening() + x + seq![44u8]
        + y + seq![44u8] + z + spec_frame_closing()
}

/// Append each byte of `bytes`.
fn push_all(out: &mut Vec<u8>, bytes: &Vec<u8>)
    ensures
        final(out)@ == old(out)@ + bytes@,
{
    let mut i: usize = 0;
    while i < bytes.len()
        invariant
            i <= bytes.len(),
            out@ == old(out)@ + bytes@.take(i as int),
        decreases bytes.len() - i,
    {
        out.push(bytes[i]);
        i = i + 1;
        proof {
            assert(out@ =~= old(out)@ + bytes@.take(i as int));
        }
    }
    proof {
        assert(bytes@.take(bytes@.len() as int) =~= bytes@);
    }
}

/// Render the frame report for one tick.
pub fn render_frame_payload(frame: u64, x: &Vec<u8>, y: &Vec<u8>, z: &Vec<u8>) -> (out: Vec<u8>)
    ensures
        out@ == spec_frame_payload(frame, x@, y@, z@),
{
    let mut out: Vec<u8> = Vec::new();
    out.push(123);
    out.push(34);
    out.push(102);
    out.push(114);
    out.push(97);
    out.push(109);
    out.push(101);
    out.push(34);
    out.push(58);
    push_decimal(&mut out, frame);
    out.push(44);
    out.push(34);
    out.push(112);
    out.push(111);
    out.push(115);
    out.push(105);
    out.push(116);
    out.push(105);
    out.push(111);
    out.push(110);
    out.push(34);
    out.push(58);
    out.push(91);
    push_all(&mut out, x);
    out.push(44);
    push_all(&mut out, y);
    out.push(44);
    push_all(&mut out, z);
    out.push(93);
    out.push(125);
    proof {
        assert(out@ =~= spec_frame_payload(frame, x@, y@, z@));
    }
    out
}

} // verus!
