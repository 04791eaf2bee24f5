//! The persisted collector state: the previous network sample, stored
//! as one small JSON object `{"prev_received":R,"prev_transmitted":T,
//! "prev_time":S}` at a well-known path.
//!
//! The format is the library's own, so both directions are verified:
//! `format_state` renders the canonical text and `parse_state` reads
//! it back. Anything that is not the canonical text counts as corrupt
//! and parses to the zero sample — corruption is swallowed, never
//! surfaced, per the store's contract. `lemma_state_roundtrip` states
//! that parsing always recovers what was formatted.

use vstd::prelude::*;

use crate::digits::{
    all_digits, digits_value, is_digit, lemma_spec_digits, spec_digits, u64_to_string,
};
use crate::sample::NetworkSample;
use crate::strutil::matches_at;

verus! {

/// The canonical text persisted for a sample.
pub open spec fn spec_state_format(x: NetworkSample) -> Seq<char> {
    "{\"prev_received\":"@ + spec_digits(x.bytes_received as nat) + ",\"prev_transmitted\":"@
        + spec_digits(x.bytes_transmitted as nat) + ",\"prev_time\":"@ + spec_digits(
        x.observed_at as nat,
    ) + "}"@
}

/// Renders a sample as its canonical persisted text.
pub fn format_state(x: &NetworkSample) -> (r: String)
    ensures
        r@ == spec_state_format(*x),
{
    let mut s = String::from_str("{\"prev_received\":");
    let a = u64_to_string(x.bytes_received);
    s.append(a.as_str());
    s.append(",\"prev_transmitted\":");
    let b = u64_to_string(x.bytes_transmitted);
    s.append(b.as_str());
    s.append(",\"prev_time\":");
    let c = u64_to_string(x.observed_at);
    s.append(c.as_str());
    s.append("}");
    proof {
        assert(s@ =~= spec_state_format(*x));
    }
    s
}

/// The end of the digit run starting at `i`: the first position at or
/// after `i` holding no digit.
pub open spec fn scan_digits_end(s: Seq<char>, i: int) -> int
    decreases s.len() - i,
{
    if 0 <= i < s.len() && is_digit(s[i]) {
        scan_digits_end(s, i + 1)
    } else {
        i
    }
}

/// The digit scan stays within bounds, covers only digits, and stops
/// at the first non-digit.
pub proof fn lemma_scan_digits_end(s: Seq<char>, i: int)
    requires
        0 <= i <= s.len(),
    ensures
        i <= scan_digits_end(s, i) <= s.len(),
        all_digits(s.subrange(i, scan_digits_end(s, i))),
        scan_digits_end(s, i) < s.len() ==> !is_digit(s[scan_digits_end(s, i)]),
    decreases s.len() - i,
{
    if 0 <= i < s.len() && is_digit(s[i]) {
        lemma_scan_digits_end(s, i + 1);
        let e = scan_digits_end(s, i);
        assert(forall|k: int|
            i <= k < e ==> is_digit(#[trigger] s[k]) || (k > i && s.subrange(i + 1, e)[k - i - 1]
                == s[k]));
        assert(all_digits(s.subrange(i, e))) by {
            assert(forall|k: int|
                0 <= k < e - i ==> is_digit(#[trigger] s.subrange(i, e)[k]) || s.subrange(i, e)[k]
                    == s.subrange(i + 1, e)[k - 1]);
        }
    } else {
        assert(s.subrange(i, i) =~= Seq::<char>::empty());
    }
}

/// On a region of digits closed by a non-digit (or the end of the
/// input), the scan ends exactly at the close.
pub proof fn lemma_scan_digits_region(s: Seq<char>, i: int, j: int)
    requires
        0 <= i <= j <= s.len(),
        all_digits(s.subrange(i, j)),
        j == s.len() || !is_digit(s[j]),
    ensures
        scan_digits_end(s, i) == j,
    decreases j - i,
{
    if i == j {
    } else {
        assert(is_digit(s[i])) by {
            assert(s.subrange(i, j)[0] == s[i]);
        }
        assert(s.subrange(i + 1, j) =~= s.subrange(i, j).drop_first());
        assert(all_digits(s.subrange(i + 1, j))) by {
            assert(forall|k: int|
                0 <= k < j - i - 1 ==> #[trigger] s.subrange(i + 1, j)[k] == s.subrange(i, j)[k
                    + 1]);
        }
        lemma_scan_digits_region(s, i + 1, j);
    }
}

/// A literal expected at one position: the position after it, when it
/// is there.
pub open spec fn spec_expect(s: Seq<char>, i: int, lit: Seq<char>) -> Option<int> {
    if matches_at(s, lit, i) {
        Some(i + lit.len())
    } else {
        None
    }
}

/// A canonical `u64` numeral expected at one position: its value and
/// the position after it. Canonical means non-empty, no leading zero
/// unless the numeral is `0` itself, and in range.
pub open spec fn spec_scan_num(s: Seq<char>, i: int) -> Option<(nat, int)> {
    if 0 <= i <= s.len() {
        let j = scan_digits_end(s, i);
        let ds = s.subrange(i, j);
        if i < j && (ds.len() == 1 || ds[0] != '0') && digits_value(ds) <= u64::MAX {
            Some((digits_value(ds), j))
        } else {
            None
        }
    } else {
        None
    }
}

/// What the canonical state text parses to, if anything.
pub open spec fn spec_parse_state(s: Seq<char>) -> Option<NetworkSample> {
    match spec_expect(s, 0, "{\"prev_received\":"@) {
        None => None,
        Some(i1) => match spec_scan_num(s, i1) {
            None => None,
            Some((a, i2)) => match spec_expect(s, i2, ",\"prev_transmitted\":"@) {
                None => None,
                Some(i3) => match spec_scan_num(s, i3) {
                    None => None,
                    Some((b, i4)) => match spec_expect(s, i4, ",\"prev_time\":"@) {
                        None => None,
                        Some(i5) => match spec_scan_num(s, i5) {
                            None => None,
                            Some((c, i6)) => match spec_expect(s, i6, "}"@) {
                                None => None,
                                Some(i7) => if i7 == s.len() {
                                    Some(
                                        NetworkSample {
                                            bytes_received: a as u64,
                                            bytes_transmitted: b as u64,
                                            observed_at: c as u64,
                                        },
                                    )
                                } else {
                                    None
                                },
                            },
                        },
                    },
                },
            },
        },
    }
}

/// Expects a literal at position `i` of `s`.
fn expect_at(s: &str, n: usize, i: usize, lit: &str) -> (r: Option<usize>)
    requires
        n == s@.len(),
        i <= n,
    ensures
        match r {
            Some(k) => spec_expect(s@, i as int, lit@) == Some(k as int) && i <= k <= n,
            None => spec_expect(s@, i as int, lit@) is None,
        },
{
    let m = lit.unicode_len();
    if m > n - i {
        return None;
    }
    if crate::strutil::check_match_at(s, lit, i) {
        Some(i + m)
    } else {
        None
    }
}

/// Scans a canonical `u64` numeral at position `i` of `s`.
fn scan_num_at(s: &str, n: usize, i: usize) -> (r: Option<(u64, usize)>)
    requires
        n == s@.len(),
        i <= n,
    ensures
        match r {
            Some(v) => spec_scan_num(s@, i as int) == Some(((v.0 as nat), (v.1 as int))) && i
                < v.1 <= n,
            None => spec_scan_num(s@, i as int) is None,
        },
{
    let mut j: usize = i;
    let mut val: u64 = 0;
    let mut over: bool = false;
    loop
        invariant
            i <= j <= n,
            n == s@.len(),
            all_digits(s@.subrange(i as int, j as int)),
            !over ==> val == digits_value(s@.subrange(i as int, j as int)),
            over ==> digits_value(s@.subrange(i as int, j as int)) > u64::MAX,
        ensures
            i <= j <= n,
            n == s@.len(),
            all_digits(s@.subrange(i as int, j as int)),
            !over ==> val == digits_value(s@.subrange(i as int, j as int)),
            over ==> digits_value(s@.subrange(i as int, j as int)) > u64::MAX,
            j == n || !is_digit(s@[j as int]),
        decreases n - j,
    {
        if j == n {
            break;
        }
        let c = s.get_char(j);
        if !(c >= '0' && c <= '9') {
            break;
        }
        let d: u64 = (c as u32 as u64) - ('0' as u32 as u64);
        proof {
            assert(s@.subrange(i as int, j + 1) =~= s@.subrange(i as int, j as int).push(
                s@[j as int],
            ));
            assert(s@.subrange(i as int, j + 1).drop_last() =~= s@.subrange(i as int, j as int));
        }
        if !over {
            match val.checked_mul(10) {
                Some(v10) => {
                    match v10.checked_add(d) {
                        Some(v) => {
                            val = v;
                        },
                        None => {
                            over = true;
                        },
                    }
                },
                None => {
                    over = true;
                },
            }
        }
        j = j + 1;
    }
    proof {
        lemma_scan_digits_region(s@, i as int, j as int);
    }
    if j == i {
        return None;
    }
    if j > i + 1 && s.get_char(i) == '0' {
        proof {
            assert(s@.subrange(i as int, j as int)[0] == s@[i as int]);
        }
        return None;
    }
    if over {
        return None;
    }
    proof {
        assert((s@.subrange(i as int, j as int).len() == 1 || s@.subrange(i as int, j as int)[0]
            != '0')) by {
            if j == i + 1 {
            } else {
                assert(s@.subrange(i as int, j as int)[0] == s@[i as int]);
            }
        }
    }
    Some((val, j))
}

/// Reads a persisted sample back from its text. Exactly the canonical
/// text of a sample parses to that sample; any other text — a missing
/// field, reordered keys, extra whitespace, a non-canonical numeral —
/// counts as corrupt and yields the zero sample ("no prior sample"),
/// never an error.
pub fn parse_state(s: &str) -> (r: NetworkSample)
    ensures
        match spec_parse_state(s@) {
            Some(x) => r == x,
            None => r == (NetworkSample { bytes_received: 0, bytes_transmitted: 0, observed_at: 0 }),
        },
{
    let n = s.unicode_len();
    let zero = NetworkSample::zero();
    let i1 = match expect_at(s, n, 0, "{\"prev_received\":") {
        Some(k) => k,
        None => {
            return zero;
        },
    };
    let (a, i2) = match scan_num_at(s, n, i1) {
        Some(v) => v,
        None => {
            return zero;
        },
    };
    let i3 = match expect_at(s, n, i2, ",\"prev_transmitted\":") {
        Some(k) => k,
        None => {
            return zero;
        },
    };
    let (b, i4) = match scan_num_at(s, n, i3) {
        Some(v) => v,
        None => {
            return zero;
        },
    };
    let i5 = match expect_at(s, n, i4, ",\"prev_time\":") {
        Some(k) => k,
        None => {
            return zero;
        },
    };
    let (c, i6) = match scan_num_at(s, n, i5) {
        Some(v) => v,
        None => {
            return zero;
        },
    };
    let i7 = match expect_at(s, n, i6, "}") {
        Some(k) => k,
        None => {
            return zero;
        },
    };
    if i7 != n {
        return zero;
    }
    NetworkSample { bytes_received: a, bytes_transmitted: b, observed_at: c }
}

/// Parsing recovers exactly what formatting produced: the persisted
/// text of any sample reads back as that sample, bit for bit.
pub proof fn lemma_state_roundtrip(x: NetworkSample)
    ensures
        spec_parse_state(spec_state_format(x)) == Some(x),
{
    reveal_strlit("{\"prev_received\":");
    reveal_strlit(",\"prev_transmitted\":");
    reveal_strlit(",\"prev_time\":");
    reveal_strlit("}");
    let l1 = "{\"prev_received\":"@;
    let l2 = ",\"prev_transmitted\":"@;
    let l3 = ",\"prev_time\":"@;
    let l4 = "}"@;
    let d1 = spec_digits(x.bytes_received as nat);
    let d2 = spec_digits(x.bytes_transmitted as nat);
    let d3 = spec_digits(x.observed_at as nat);
    lemma_spec_digits(x.bytes_received as nat);
    lemma_spec_digits(x.bytes_transmitted as nat);
    lemma_spec_digits(x.observed_at as nat);
    let s = spec_state_format(x);
    let i1 = l1.len() as int;
    let i2 = i1 + d1.len();
    let i3 = i2 + l2.len();
    let i4 = i3 + d2.len();
    let i5 = i4 + l3.len();
    let i6 = i5 + d3.len();
    let i7 = i6 + l4.len();
    assert(s.len() == i7);

    assert(s.subrange(0, i1) =~= l1);
    assert(matches_at(s, l1, 0));
    assert(spec_expect(s, 0, l1) == Some(i1));

    assert(s.subrange(i1, i2) =~= d1);
    assert(!is_digit(s[i2])) by {
        assert(s[i2] == l2[0]);
    }
    lemma_scan_digits_region(s, i1, i2);
    assert(spec_scan_num(s, i1) == Some((x.bytes_received as nat, i2)));

    assert(s.subrange(i2, i3) =~= l2);
    assert(matches_at(s, l2, i2));
    assert(spec_expect(s, i2, l2) == Some(i3));

    assert(s.subrange(i3, i4) =~= d2);
    assert(!is_digit(s[i4])) by {
        assert(s[i4] == l3[0]);
    }
    lemma_scan_digits_region(s, i3, i4);
    assert(spec_scan_num(s, i3) == Some((x.bytes_transmitted as nat, i4)));

    assert(s.subrange(i4, i5) =~= l3);
    assert(matches_at(s, l3, i4));
    assert(spec_expect(s, i4, l3) == Some(i5));

    assert(s.subrange(i5, i6) =~= d3);
    assert(!is_digit(s[i6])) by {
        assert(s[i6] == l4[0]);
    }
    lemma_scan_digits_region(s, i5, i6);
    assert(spec_scan_num(s, i5) == Some((x.observed_at as nat, i6)));

    assert(s.subrange(i6, i7) =~= l4);
    assert(matches_at(s, l4, i6));
    assert(spec_expect(s, i6, l4) == Some(i7));
}

/// No two samples persist as the same text.
pub proof fn lemma_state_format_injective(x: NetworkSample, y: NetworkSample)
    requires
        spec_state_format(x) == spec_state_format(y),
    ensures
        x == y,
{
    lemma_state_roundtrip(x);
    lemma_state_roundtrip(y);
}

} // verus!
