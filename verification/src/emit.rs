//! Emission of a metric batch: the decision of what one emission call
//! does, and the human-readable dump the dry-run mode prints instead
//! of contacting the backend.

use vstd::prelude::*;

use crate::digits::{digit_char, digit_str, spec_digits, u128_to_string};
use crate::metrics::{spec_name_str, MetricPoint, MetricUnit};

verus! {

/// What one emission call does.
#[derive(Clone, Copy, Debug, PartialEq, Eq, Structural)]
pub enum EmitAction {
    /// Dry-run mode: print the dump, contact nothing, succeed.
    DryRunDump,
    /// An empty batch outside dry-run mode: a no-op, not an error.
    SkipEmpty,
    /// Send the batch to the backend in one call.
    Send,
}

/// Decides what emitting a batch of the given size does: dry-run
/// always dumps; an empty batch is otherwise skipped; anything else
/// is sent.
pub fn emit_action(batch_len: usize, dry_run: bool) -> (r: EmitAction)
    ensures
        dry_run ==> r == EmitAction::DryRunDump,
        !dry_run && batch_len == 0 ==> r == EmitAction::SkipEmpty,
        !dry_run && batch_len > 0 ==> r == EmitAction::Send,
{
    if dry_run {
        EmitAction::DryRunDump
    } else if batch_len == 0 {
        EmitAction::SkipEmpty
    } else {
        EmitAction::Send
    }
}

/// A fixed-point value in hundredths, rendered with two decimals:
/// the integer part, a point, and exactly two fraction digits.
pub open spec fn spec_centi_string(v: nat) -> Seq<char> {
    spec_digits(v / 100) + seq!['.'] + seq![digit_char((v / 10) % 10), digit_char(v % 10)]
}

/// Renders a value held in hundredths with two decimals.
pub fn centi_to_string(v: u128) -> (r: String)
    ensures
        r@ == spec_centi_string(v as nat),
{
    let mut s = u128_to_string(v / 100);
    s.append(".");
    s.append(digit_str(((v / 10) % 10) as u64));
    s.append(digit_str((v % 10) as u64));
    proof {
        reveal_strlit(".");
        assert(s@ =~= spec_centi_string(v as nat));
    }
    s
}

/// The label a unit is dumped as.
pub open spec fn spec_unit_str(u: MetricUnit) -> Seq<char> {
    match u {
        MetricUnit::Percent => "Percent"@,
        MetricUnit::Count => "Count"@,
        MetricUnit::BytesPerSecond => "Bytes/Second"@,
        MetricUnit::Unitless => "None"@,
    }
}

/// The label a unit is dumped as.
pub fn unit_str(u: &MetricUnit) -> (r: &'static str)
    ensures
        r@ == spec_unit_str(*u),
{
    match u {
        MetricUnit::Percent => "Percent",
        MetricUnit::Count => "Count",
        MetricUnit::BytesPerSecond => "Bytes/Second",
        MetricUnit::Unitless => "None",
    }
}

/// One line of the dry-run dump.
pub open spec fn spec_point_line(p: MetricPoint) -> Seq<char> {
    "  "@ + spec_name_str(p.name) + " = "@ + spec_centi_string(p.value_centi as nat) + " "@
        + spec_unit_str(p.unit) + "\n"@
}

/// The dry-run dump: one line per point, in batch order.
pub open spec fn spec_dump(batch: Seq<MetricPoint>) -> Seq<char>
    decreases batch.len(),
{
    if batch.len() == 0 {
        Seq::empty()
    } else {
        spec_dump(batch.drop_last()) + spec_point_line(batch.last())
    }
}

/// Renders the dry-run dump of a batch: every point on its own line,
/// name, two-decimal value and unit, in batch order.
pub fn format_batch(batch: &Vec<MetricPoint>) -> (r: String)
    ensures
        r@ == spec_dump(batch@),
{
    let mut acc = String::new();
    let n = batch.len();
    let mut i: usize = 0;
    while i < n
        invariant
            i <= n,
            n == batch@.len(),
            acc@ == spec_dump(batch@.take(i as int)),
        decreases n - i,
    {
        acc.append("  ");
        acc.append(batch[i].name.as_str());
        acc.append(" = ");
        let v = centi_to_string(batch[i].value_centi);
        acc.append(v.as_str());
        acc.append(" ");
        acc.append(unit_str(&batch[i].unit));
        acc.append("\n");
        proof {
            assert(batch@.take(i + 1).drop_last() =~= batch@.take(i as int));
            assert(batch@.take(i + 1).last() == batch@[i as int]);
            assert(acc@ =~= spec_dump(batch@.take(i as int)) + spec_point_line(batch@[i as int]));
        }
        i = i + 1;
    }
    proof {
        assert(batch@.take(n as int) =~= batch@);
    }
    acc
}

} // verus!
