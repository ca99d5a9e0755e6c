use vstd::prelude::*;
use crate::requester::{ProbeFailure, Sample};
use crate::time::rfc3339_of;
use vstd::string::StringExecFns;

verus! {

broadcast use vstd::seq_lib::group_to_multiset_ensures;

/// The first line of the report.
pub const HEADER_ROW: &'static str = "offset_micros,server,sent_at";

/// Report order: by server time, then by send time.
pub open spec fn row_le(a: Sample, b: Sample) -> bool {
    a.server_time.spec_lt(b.server_time) || (a.server_time == b.server_time
        && a.sent_at.spec_le(b.sent_at))
}

/// Every earlier row comes no later than every later one.
pub open spec fn is_ordered(rows: Seq<Sample>) -> bool {
    forall|i: int, j: int| 0 <= i < j < rows.len() ==> row_le(rows[i], rows[j])
}

fn row_before(a: &Sample, b: &Sample) -> (r: bool)
    ensures
        r == !row_le(*b, *a),
{
    a.server_time.is_before(&b.server_time) || (a.server_time == b.server_time
        && a.sent_at.is_before(&b.sent_at))
}

/// The samples in report order: ascending by `(server_time, sent_at)`.
/// Nothing is added or dropped.
pub fn finalize(samples: Vec<Sample>) -> (r: Vec<Sample>)
    ensures
        is_ordered(r@),
        r@.to_multiset() == samples@.to_multiset(),
{
    let mut out: Vec<Sample> = Vec::new();
    let mut i: usize = 0;
    while i < samples.len()
        invariant
            i <= samples@.len(),
            is_ordered(out@),
            out@.to_multiset() == samples@.take(i as int).to_multiset(),
        decreases samples@.len() - i,
    {
        let s = samples[i];
        let mut p: usize = 0;
        while p < out.len() && !row_before(&s, &out[p])
            invariant
                p <= out@.len(),
                forall|k: int| 0 <= k < p ==> row_le(out@[k], s),
            decreases out@.len() - p,
        {
            p = p + 1;
        }
        proof {
            if p < out@.len() {
                assert forall|k: int| p <= k < out@.len() implies !row_le(out@[k], s) by {
                    assert(row_le(out@[p as int], out@[k]));
                }
            }
            assert(samples@.take(i + 1) =~= samples@.take(i as int).push(s));
            vstd::seq_lib::to_multiset_insert(out@, p as int, s);
        }
        let ghost before = out@;
        out.insert(p, s);
        proof {
            assert forall|a: int, b: int| 0 <= a < b < out@.len() implies row_le(
                out@[a],
                out@[b],
            ) by {
                if a < p && b == p {
                } else if a == p && b > p {
                    assert(!row_le(before[b - 1], s));
                } else if a < p && b > p {
                    assert(row_le(before[a], before[b - 1]));
                } else if b < p {
                } else {
                    assert(row_le(before[a - 1], before[b - 1]));
                }
            }
        }
        i = i + 1;
    }
    assert(samples@.take(i as int) =~= samples@);
    out
}

/// The samples among probe outcomes, in collection order.
pub open spec fn samples_of(outcomes: Seq<Result<Sample, ProbeFailure>>) -> Seq<Sample>
    decreases outcomes.len(),
{
    if outcomes.len() == 0 {
        Seq::empty()
    } else {
        let rest = samples_of(outcomes.drop_last());
        match outcomes.last() {
            Ok(s) => rest.push(s),
            Err(_) => rest,
        }
    }
}

/// The failures among probe outcomes, in collection order.
pub open spec fn failures_of(outcomes: Seq<Result<Sample, ProbeFailure>>) -> Seq<ProbeFailure>
    decreases outcomes.len(),
{
    if outcomes.len() == 0 {
        Seq::empty()
    } else {
        let rest = failures_of(outcomes.drop_last());
        match outcomes.last() {
            Ok(_) => rest,
            Err(f) => rest.push(f),
        }
    }
}

/// Parts the outcomes of a batch of probes into the samples obtained and the
/// failures, each in collection order, so that a failed probe costs no other
/// probe its sample.
pub fn split_outcomes(outcomes: Vec<Result<Sample, ProbeFailure>>) -> (r: (
    Vec<Sample>,
    Vec<ProbeFailure>,
))
    ensures
        r.0@ == samples_of(outcomes@),
        r.1@ == failures_of(outcomes@),
{
    let mut samples: Vec<Sample> = Vec::new();
    let mut failures: Vec<ProbeFailure> = Vec::new();
    let mut i: usize = 0;
    while i < outcomes.len()
        invariant
            i <= outcomes@.len(),
            samples@ == samples_of(outcomes@.take(i as int)),
            failures@ == failures_of(outcomes@.take(i as int)),
        decreases outcomes@.len() - i,
    {
        assert(outcomes@.take(i + 1).drop_last() =~= outcomes@.take(i as int));
        match outcomes[i] {
            Ok(s) => samples.push(s),
            Err(f) => failures.push(f),
        }
        i = i + 1;
    }
    assert(outcomes@.take(i as int) =~= outcomes@);
    (samples, failures)
}

/// Every sample among the outcomes is kept, whatever failed beside it: each
/// successful outcome's sample is in the report's samples, and each failure
/// in its failures.
pub proof fn lemma_failures_spare_samples(outcomes: Seq<Result<Sample, ProbeFailure>>)
    ensures
        forall|i: int|
            0 <= i < outcomes.len() ==> (#[trigger] outcomes[i] matches Ok(s) ==> samples_of(
                outcomes,
            ).contains(s)),
        forall|i: int|
            0 <= i < outcomes.len() ==> (#[trigger] outcomes[i] matches Err(f) ==> failures_of(
                outcomes,
            ).contains(f)),
        samples_of(outcomes).len() + failures_of(outcomes).len() == outcomes.len(),
    decreases outcomes.len(),
{
    if outcomes.len() > 0 {
        let init = outcomes.drop_last();
        lemma_failures_spare_samples(init);
        let n = outcomes.len() - 1;
        assert forall|i: int| 0 <= i < outcomes.len() implies (#[trigger] outcomes[i] matches Ok(
            s,
        ) ==> samples_of(outcomes).contains(s)) by {
            if i < n {
                assert(init[i] == outcomes[i]);
                if let Ok(s) = outcomes[i] {
                    let j = choose|j: int| 0 <= j < samples_of(init).len() && samples_of(init)[j] == s;
                    assert(samples_of(outcomes)[j] == s);
                }
            } else {
                if let Ok(s) = outcomes[i] {
                    assert(samples_of(outcomes).last() == s);
                }
            }
        }
        assert forall|i: int| 0 <= i < outcomes.len() implies (#[trigger] outcomes[i] matches Err(
            f,
        ) ==> failures_of(outcomes).contains(f)) by {
            if i < n {
                assert(init[i] == outcomes[i]);
                if let Err(f) = outcomes[i] {
                    let j = choose|j: int| 0 <= j < failures_of(init).len() && failures_of(init)[j] == f;
                    assert(failures_of(outcomes)[j] == f);
                }
            } else {
                if let Err(f) = outcomes[i] {
                    assert(failures_of(outcomes).last() == f);
                }
            }
        }
    }
}

/// The decimal digit for `d < 10`.
pub open spec fn digit_char(d: nat) -> char {
    (('0' as u8) + d) as char
}

/// The decimal digits of `n`, most significant first, without leading zeros.
pub open spec fn digits(n: nat) -> Seq<char>
    decreases n,
{
    if n < 10 {
        seq![digit_char(n)]
    } else {
        digits(n / 10).push(digit_char(n % 10))
    }
}

/// The decimal text of an integer, with a leading `-` when it is negative.
pub open spec fn decimal(i: int) -> Seq<char> {
    if i < 0 {
        seq!['-'] + digits((-i) as nat)
    } else {
        digits(i as nat)
    }
}

fn digit_text(d: u64) -> (r: &'static str)
    requires
        d < 10,
    ensures
        r@ == seq![digit_char(d as nat)],
{
    proof {
        reveal_strlit("0");
        reveal_strlit("1");
        reveal_strlit("2");
        reveal_strlit("3");
        reveal_strlit("4");
        reveal_strlit("5");
        reveal_strlit("6");
        reveal_strlit("7");
        reveal_strlit("8");
        reveal_strlit("9");
    }
    match d {
        0 => "0",
        1 => "1",
        2 => "2",
        3 => "3",
        4 => "4",
        5 => "5",
        6 => "6",
        7 => "7",
        8 => "8",
        _ => "9",
    }
}

fn push_digits(out: &mut String, n: u64)
    ensures
        final(out)@ == old(out)@ + digits(n as nat),
    decreases n,
{
    if n >= 10 {
        push_digits(out, n / 10);
    }
    out.append(digit_text(n % 10));
    proof {
        if n >= 10 {
            assert(digits(n as nat) == digits((n / 10) as nat).push(digit_char((n % 10) as nat)));
        }
    }
}

/// One report line: the offset in decimal, then the server time and the send
/// time in RFC 3339, separated by commas.
pub fn format_row(sample: &Sample) -> (r: String)
    requires
        sample.wf(),
    ensures
        r@ == decimal(sample.offset_micros as int) + ","@ + rfc3339_of(
            sample.server_time.secs,
            sample.server_time.nanos,
        ) + ","@ + rfc3339_of(sample.sent_at.secs, sample.sent_at.nanos),
{
    proof {
        reveal_strlit("-");
        reveal_strlit(",");
    }
    let mut row = String::new();
    let o = sample.offset_micros;
    if o < 0 {
        row.append("-");
        push_digits(&mut row, (-(o as i128)) as u64);
    } else {
        push_digits(&mut row, o as u64);
    }
    assert(row@ =~= decimal(o as int));
    row.append(",");
    row.append(sample.server_time.to_rfc3339().as_str());
    row.append(",");
    row.append(sample.sent_at.to_rfc3339().as_str());
    row
}

} // verus!
