//! Choosing the network interface whose counters a cycle reads:
//! parsing the routing table's default-route line for its device
//! name, and the container fallback of `eth0`-or-first. The caller
//! runs the commands and lists the interfaces; the choices are made
//! here.

use vstd::prelude::*;

use crate::identity::opt_view;
use crate::strutil::{spec_contains, spec_split, split_str, str_contains, str_eq};

verus! {

/// The non-empty pieces, in order: whitespace-splitting semantics.
pub open spec fn spec_nonempty(ps: Seq<Seq<char>>) -> Seq<Seq<char>>
    decreases ps.len(),
{
    if ps.len() == 0 {
        Seq::empty()
    } else {
        let rest = spec_nonempty(ps.drop_first());
        if ps[0].len() > 0 {
            seq![ps[0]] + rest
        } else {
            rest
        }
    }
}

/// The whitespace-separated words of a line.
pub open spec fn spec_words(s: Seq<char>) -> Seq<Seq<char>> {
    spec_nonempty(spec_split(s, ' '))
}

/// Splits a line into its space-separated words, dropping empties.
pub fn words(s: &str) -> (r: Vec<String>)
    ensures
        r.deep_view() =~~= spec_words(s@),
{
    let pieces = split_str(s, ' ');
    let ghost pdv = pieces.deep_view();
    let mut out: Vec<String> = Vec::new();
    let n = pieces.len();
    let mut i: usize = 0;
    proof {
        assert(pdv.skip(0) =~~= pdv);
        assert(out.deep_view() =~~= Seq::<Seq<char>>::empty());
    }
    while i < n
        invariant
            i <= n,
            n == pdv.len(),
            n == pieces@.len(),
            pdv == pieces.deep_view(),
            spec_nonempty(pdv) =~~= out.deep_view() + spec_nonempty(pdv.skip(i as int)),
        decreases n - i,
    {
        proof {
            assert(pdv.skip(i as int)[0] == pdv[i as int]);
            assert(pdv.skip(i as int).drop_first() =~~= pdv.skip(i + 1));
            assert(pdv[i as int] == pieces@[i as int]@);
        }
        let ghost old_dv = out.deep_view();
        if pieces[i].as_str().unicode_len() > 0 {
            let w = pieces[i].clone();
            out.push(w);
            proof {
                assert(out.deep_view() =~~= old_dv + seq![pdv[i as int]]);
                assert(spec_nonempty(pdv) =~~= out.deep_view() + spec_nonempty(pdv.skip(i + 1)));
            }
        }
        i = i + 1;
    }
    proof {
        assert(pdv.skip(n as int) =~~= Seq::<Seq<char>>::empty());
        assert(spec_nonempty(pdv.skip(n as int)) =~~= Seq::<Seq<char>>::empty());
    }
    out
}

/// The word after the first `dev`, when the first `dev` has one.
pub open spec fn spec_after_dev(ws: Seq<Seq<char>>) -> Option<Seq<char>>
    decreases ws.len(),
{
    if ws.len() == 0 {
        None
    } else if ws[0] == "dev"@ {
        if ws.len() >= 2 {
            Some(ws[1])
        } else {
            None
        }
    } else {
        spec_after_dev(ws.drop_first())
    }
}

/// The device of the first line that mentions `default` and names a
/// device after `dev`.
pub open spec fn spec_scan_lines(ls: Seq<Seq<char>>) -> Option<Seq<char>>
    decreases ls.len(),
{
    if ls.len() == 0 {
        None
    } else {
        let hit = if spec_contains(ls[0], "default"@) {
            spec_after_dev(spec_words(ls[0]))
        } else {
            None
        };
        if hit is Some {
            hit
        } else {
            spec_scan_lines(ls.drop_first())
        }
    }
}

/// What the routing table's text names as the default interface.
pub open spec fn spec_default_interface(out: Seq<char>) -> Option<Seq<char>> {
    spec_scan_lines(spec_split(out, '\n'))
}

/// The word after `dev` among a line's words.
fn after_dev(ws: &Vec<String>) -> (r: Option<String>)
    ensures
        opt_view(r) == spec_after_dev(ws.deep_view()),
{
    let ghost wdv = ws.deep_view();
    let n = ws.len();
    let mut j: usize = 0;
    proof {
        assert(wdv.skip(0) =~~= wdv);
    }
    while j < n
        invariant
            j <= n,
            n == wdv.len(),
            n == ws@.len(),
            wdv == ws.deep_view(),
            spec_after_dev(wdv) == spec_after_dev(wdv.skip(j as int)),
        decreases n - j,
    {
        proof {
            assert(wdv.skip(j as int)[0] == wdv[j as int]);
            assert(wdv.skip(j as int).drop_first() =~~= wdv.skip(j + 1));
            assert(wdv[j as int] == ws@[j as int]@);
        }
        if str_eq(ws[j].as_str(), "dev") {
            if j + 1 < n {
                proof {
                    assert(wdv.skip(j as int)[1] == wdv[j + 1]);
                    assert(wdv[j + 1] == ws@[j + 1]@);
                }
                return Some(ws[j + 1].clone());
            } else {
                return None;
            }
        }
        j = j + 1;
    }
    proof {
        assert(wdv.skip(n as int) =~~= Seq::<Seq<char>>::empty());
    }
    None
}

/// Finds the default route's device in the routing table's text: the
/// first line mentioning `default` that names a device after `dev`.
pub fn parse_default_interface(output: &str) -> (r: Option<String>)
    ensures
        opt_view(r) == spec_default_interface(output@),
{
    let lines = split_str(output, '\n');
    let ghost ldv = lines.deep_view();
    let n = lines.len();
    let mut i: usize = 0;
    proof {
        assert(ldv.skip(0) =~~= ldv);
    }
    while i < n
        invariant
            i <= n,
            n == ldv.len(),
            n == lines@.len(),
            ldv == lines.deep_view(),
            ldv == spec_split(output@, '\n'),
            spec_scan_lines(ldv) == spec_scan_lines(ldv.skip(i as int)),
        decreases n - i,
    {
        proof {
            assert(ldv.skip(i as int)[0] == ldv[i as int]);
            assert(ldv.skip(i as int).drop_first() =~~= ldv.skip(i + 1));
            assert(ldv[i as int] == lines@[i as int]@);
        }
        if str_contains(lines[i].as_str(), "default") {
            let ws = words(lines[i].as_str());
            match after_dev(&ws) {
                Some(device) => {
                    return Some(device);
                },
                None => {},
            }
        }
        i = i + 1;
    }
    proof {
        assert(ldv.skip(n as int) =~~= Seq::<Seq<char>>::empty());
    }
    None
}

/// Picks the interface whose counters a container cycle reads: the
/// first one named `eth0`, else the first one listed, else none.
pub fn choose_interface(names: &Vec<String>) -> (r: Option<usize>)
    ensures
        names@.len() == 0 ==> r is None,
        (exists|j: int| 0 <= j < names@.len() && #[trigger] names@[j]@ == "eth0"@) ==> match r {
            Some(i) => i < names@.len() && names@[i as int]@ == "eth0"@ && forall|j: int|
                0 <= j < i ==> names@[j]@ != "eth0"@,
            None => false,
        },
        names@.len() > 0 && (forall|j: int|
            0 <= j < names@.len() ==> #[trigger] names@[j]@ != "eth0"@) ==> r == Some(0usize),
{
    let n = names.len();
    let mut i: usize = 0;
    while i < n
        invariant
            i <= n,
            n == names@.len(),
            forall|j: int| 0 <= j < i ==> #[trigger] names@[j]@ != "eth0"@,
        decreases n - i,
    {
        if str_eq(names[i].as_str(), "eth0") {
            return Some(i);
        }
        i = i + 1;
    }
    if n > 0 {
        Some(0)
    } else {
        None
    }
}

} // verus!
