//! The lines that the cycle writes to its text sink.

use vstd::prelude::*;
use crate::measurement::LoopAction;

verus! {

/// The ASCII digits of `n` in base ten, without leading zeros.
pub open spec fn digits_of(n: nat) -> Seq<u8>
    decreases n,
{
    if n < 10 {
        seq![(48 + n) as u8]
    } else {
        digits_of(n / 10).push((48 + n % 10) as u8)
    }
}

/// The ASCII text of `v` in base ten, with a minus sign where it is
/// negative.
pub open spec fn decimal_of(v: int) -> Seq<u8> {
    if v < 0 {
        seq![45u8] + digits_of((-v) as nat)
    } else {
        digits_of(v as nat)
    }
}

/// The label `Tare: ` in ASCII.
pub open spec fn tare_label() -> Seq<u8> {
    seq![84u8, 97u8, 114u8, 101u8, 58u8, 32u8]
}

/// The label `Weight: ` in ASCII.
pub open spec fn weight_label() -> Seq<u8> {
    seq![87u8, 101u8, 105u8, 103u8, 104u8, 116u8, 58u8, 32u8]
}

/// The line that an action puts on the text sink, if it puts one there.
pub open spec fn line_of(action: LoopAction) -> Option<Seq<u8>> {
    match action {
        LoopAction::ReportTare(tare) => Some(tare_label() + decimal_of(tare as int)),
        LoopAction::ReportWeight { weight, pause } => Some(
            weight_label() + decimal_of(weight as int),
        ),
        _ => None,
    }
}

/// Appends the decimal digits of `n` to `text`.
pub fn push_digits(text: Vec<u8>, n: u64) -> (out: Vec<u8>)
    ensures
        out@ == text@ + digits_of(n as nat),
    decreases n,
{
    if n < 10 {
        let mut out = text;
        out.push(48 + n as u8);
        proof {
            assert(out@ =~= text@ + digits_of(n as nat));
        }
        out
    } else {
        let mut out = push_digits(text, n / 10);
        out.push(48 + (n % 10) as u8);
        proof {
            assert(out@ =~= text@ + digits_of(n as nat));
        }
        out
    }
}

/// Appends the decimal text of `v` to `text`.
pub fn push_decimal(text: Vec<u8>, v: i64) -> (out: Vec<u8>)
    ensures
        out@ == text@ + decimal_of(v as int),
{
    if v < 0 {
        let magnitude: u64 = (-(v + 1)) as u64 + 1;
        let mut signed = text;
        signed.push(45);
        let out = push_digits(signed, magnitude);
        proof {
            assert(out@ =~= text@ + decimal_of(v as int));
        }
        out
    } else {
        push_digits(text, v as u64)
    }
}

/// The line that `action` puts on the text sink, without its line end:
/// `Tare: ` or `Weight: ` and the value in base ten. Other actions write
/// no line.
pub fn report_line(action: LoopAction) -> (line: Option<Vec<u8>>)
    ensures
        line.is_some() == line_of(action).is_some(),
        line.is_some() ==> line.unwrap()@ == line_of(action).unwrap(),
{
    match action {
        LoopAction::ReportTare(tare) => {
            let mut label: Vec<u8> = Vec::new();
            label.push(84);
            label.push(97);
            label.push(114);
            label.push(101);
            label.push(58);
            label.push(32);
            proof {
                assert(label@ =~= tare_label());
            }
            Some(push_decimal(label, tare as i64))
        },
        LoopAction::ReportWeight { weight, pause: _ } => {
            let mut label: Vec<u8> = Vec::new();
            label.push(87);
            label.push(101);
            label.push(105);
            label.push(103);
            label.push(104);
            label.push(116);
            label.push(58);
            label.push(32);
            proof {
                assert(label@ =~= weight_label());
            }
            Some(push_decimal(label, weight))
        },
        _ => None,
    }
}

} // verus!
