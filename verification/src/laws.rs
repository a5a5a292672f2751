//! The library's general guarantees, stated and proved once for all
//! inputs: the naming round trip through the line parser, idempotence of
//! cache resolution, and the positional independence of unsupported
//! output kinds.
use vstd::prelude::*;

use crate::probe::{
    cache_find, kind_naming, kind_ok, kind_unsupported, line_index_of, spec_parse_crate_type,
    spec_resolve, ProbeErrorV,
};
use crate::text::{
    contains_seq, first_match_from, is_ws, lemma_first_match_determined,
    lemma_first_match_from, lemma_trim_back_idx, lemma_trim_front_idx, matches_at, sep_seq,
    spec_trim, split2, trim_front,
};

verus! {

/// Round trip: a probe line built from a naming pair by joining prefix and
/// suffix with the sentinel separator parses back to exactly that pair,
/// whatever was probed alongside it.  The separator must not occur before
/// the join position nor inside the suffix, and the line must carry no
/// edge whitespace, as holds of every toolchain-reported name.
pub proof fn lemma_round_trip(prefix: Seq<char>, suffix: Seq<char>)
    requires
        forall|i: int|
            0 <= i < prefix.len() ==> !matches_at(prefix + sep_seq() + suffix, i, sep_seq()),
        !contains_seq(suffix, sep_seq()),
        !is_ws((prefix + sep_seq() + suffix)[0]),
        !is_ws((prefix + sep_seq() + suffix)[(prefix + sep_seq() + suffix).len() - 1]),
    ensures
        split2(spec_trim(prefix + sep_seq() + suffix)) == Some((prefix, suffix)),
{
    let line = prefix + sep_seq() + suffix;
    let p = prefix.len() as int;
    assert(line.len() == prefix.len() + 3 + suffix.len());
    assert(matches_at(line, p, sep_seq())) by {
        assert forall|k: int| 0 <= k < 3 implies #[trigger] line[p + k] == sep_seq()[k] by {
            assert(line[p + k] == sep_seq()[k]);
        }
    }
    lemma_trim_front_idx(line, 0);
    assert(trim_front(line) == line.subrange(0, line.len() as int));
    assert(line.subrange(0, line.len() as int) =~= line);
    lemma_trim_back_idx(line, line.len() as int);
    assert(spec_trim(line) == line);
    lemma_first_match_determined(line, sep_seq(), p);
    assert(first_match_from(line, sep_seq(), 0) == p);
    let rest = line.subrange(p + 3, line.len() as int);
    assert(rest =~= suffix);
    assert(first_match_from(suffix, sep_seq(), 0) < 0) by {
        lemma_first_match_from(suffix, sep_seq(), 0);
        if first_match_from(suffix, sep_seq(), 0) >= 0 {
            let q = first_match_from(suffix, sep_seq(), 0);
            assert(matches_at(suffix, q, sep_seq()));
            assert(contains_seq(suffix, sep_seq()));
        }
    }
    assert(line.subrange(0, p) =~= prefix);
}

proof fn lemma_cache_find_push(
    entries: Seq<(Seq<char>, Option<(Seq<char>, Seq<char>)>)>,
    k0: Seq<char>,
    v: Option<(Seq<char>, Seq<char>)>,
    k: Seq<char>,
)
    ensures
        cache_find(entries.push((k0, v)), k) == (match cache_find(entries, k) {
            Some(x) => Some(x),
            None => if k0 == k {
                Some(v)
            } else {
                None
            },
        }),
    decreases entries.len(),
{
    if entries.len() == 0 {
        assert(entries.push((k0, v))[0] == (k0, v));
        assert(entries.push((k0, v)).drop_first()
            =~= Seq::<(Seq<char>, Option<(Seq<char>, Seq<char>)>)>::empty());
    } else {
        assert(entries.push((k0, v))[0] == entries[0]);
        assert(entries.push((k0, v)).drop_first() =~= entries.drop_first().push((k0, v)));
        lemma_cache_find_push(entries.drop_first(), k0, v, k);
    }
}

/// Idempotence of resolution: once a kind is resolved on an instance, a
/// later resolution of the same kind returns the identical value and
/// leaves the cache unchanged, whatever a second probe would have
/// produced — so no second toolchain invocation can influence the result.
pub proof fn lemma_resolve_idempotent(
    entries: Seq<(Seq<char>, Option<(Seq<char>, Seq<char>)>)>,
    k: Seq<char>,
    probed_first: Option<(Seq<char>, Seq<char>)>,
    probed_second: Option<(Seq<char>, Seq<char>)>,
)
    ensures
        ({
            let first = spec_resolve(entries, k, probed_first);
            spec_resolve(first.1, k, probed_second) == (first.0, first.1)
        }),
{
    match cache_find(entries, k) {
        Some(v) => {
        },
        None => {
            lemma_cache_find_push(entries, k, probed_first, k);
        },
    }
}

/// A kind's result in a batch probe equals what a focused probe on that
/// kind alone would produce: against the same stderr, a rejected kind
/// resolves to nothing whatever stdout holds, and an accepted kind
/// resolves from just its own line — independent of which other kinds
/// were probed alongside it.
pub proof fn lemma_batch_matches_focused(
    kinds: Seq<Seq<char>>,
    err_lines: Seq<Seq<char>>,
    out_lines: Seq<Seq<char>>,
    k: int,
)
    requires
        0 <= k < kinds.len(),
        kind_ok(kinds, err_lines, out_lines, k),
    ensures
        kind_unsupported(err_lines, kinds[k]) ==> spec_parse_crate_type(
            kinds[k],
            err_lines,
            Seq::empty(),
            0,
        ) == Result::<(Option<(Seq<char>, Seq<char>)>, int), ProbeErrorV>::Ok(
            (kind_naming(kinds, err_lines, out_lines, k), 0),
        ),
        !kind_unsupported(err_lines, kinds[k]) ==> spec_parse_crate_type(
            kinds[k],
            err_lines,
            seq![out_lines[line_index_of(kinds, err_lines, k)]],
            0,
        ) == Result::<(Option<(Seq<char>, Seq<char>)>, int), ProbeErrorV>::Ok(
            (kind_naming(kinds, err_lines, out_lines, k), 1),
        ),
{
    if !kind_unsupported(err_lines, kinds[k]) {
        let line = out_lines[line_index_of(kinds, err_lines, k)];
        assert(seq![line][0] == line);
    }
}

proof fn lemma_line_index_remove(
    kinds: Seq<Seq<char>>,
    err_lines: Seq<Seq<char>>,
    k: int,
    j: int,
)
    requires
        0 <= k < kinds.len(),
        kind_unsupported(err_lines, kinds[k]),
    ensures
        0 <= j <= k ==> line_index_of(kinds.remove(k), err_lines, j) == line_index_of(
            kinds,
            err_lines,
            j,
        ),
        k < j <= kinds.len() ==> line_index_of(kinds.remove(k), err_lines, j - 1)
            == line_index_of(kinds, err_lines, j),
    decreases j,
{
    if j <= 0 {
    } else if j <= k {
        assert(kinds.remove(k)[j - 1] == kinds[j - 1]);
        lemma_line_index_remove(kinds, err_lines, k, j - 1);
    } else if j == k + 1 {
        lemma_line_index_remove(kinds, err_lines, k, k);
    } else if j <= kinds.len() {
        assert(kinds.remove(k)[j - 2] == kinds[j - 1]);
        lemma_line_index_remove(kinds, err_lines, k, j - 1);
    }
}

/// Unsupported-kind correctness: a kind reported unsupported on stderr
/// resolves to nothing and consumes no stdout line, and every other
/// requested kind resolves exactly as it would had the unsupported kind
/// not been requested at all — no off-by-one shift of the line cursor.
pub proof fn lemma_unsupported_kind(
    kinds: Seq<Seq<char>>,
    err_lines: Seq<Seq<char>>,
    out_lines: Seq<Seq<char>>,
    k: int,
)
    requires
        0 <= k < kinds.len(),
        kind_unsupported(err_lines, kinds[k]),
    ensures
        kind_naming(kinds, err_lines, out_lines, k) is None,
        line_index_of(kinds, err_lines, k + 1) == line_index_of(kinds, err_lines, k),
        forall|j: int|
            0 <= j < k ==> kind_naming(kinds.remove(k), err_lines, out_lines, j)
                == kind_naming(kinds, err_lines, out_lines, j),
        forall|j: int|
            k < j < kinds.len() ==> kind_naming(kinds.remove(k), err_lines, out_lines, j - 1)
                == kind_naming(kinds, err_lines, out_lines, j),
{
    assert forall|j: int|
        0 <= j < k implies kind_naming(kinds.remove(k), err_lines, out_lines, j)
        == kind_naming(kinds, err_lines, out_lines, j) by {
        assert(kinds.remove(k)[j] == kinds[j]);
        lemma_line_index_remove(kinds, err_lines, k, j);
    }
    assert forall|j: int|
        k < j < kinds.len() implies kind_naming(kinds.remove(k), err_lines, out_lines, j - 1)
        == kind_naming(kinds, err_lines, out_lines, j) by {
        assert(kinds.remove(k)[j - 1] == kinds[j]);
        lemma_line_index_remove(kinds, err_lines, k, j);
    }
}

} // verus!
