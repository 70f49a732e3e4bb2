use vstd::prelude::*;

use crate::race_result::RaceResult;

verus! {

/// The comparison key of the ranking engine. Qualification sorts by finish
/// time alone; under race rules every DNF entry is lifted above the largest
/// possible time, so no DNF entry can outrank a finisher.
pub open spec fn sort_key(r: RaceResult, race_rules: bool) -> int {
    (if race_rules && r.dnf {
        256int
    } else {
        0int
    }) + r.finish_time_seconds as int
}

/// The same entry with its finish position (re)assigned.
pub open spec fn with_position(r: RaceResult, position: u8) -> RaceResult {
    RaceResult {
        driver_name: r.driver_name,
        team_name: r.team_name,
        finish_position: position,
        finish_time_seconds: r.finish_time_seconds,
        dnf: r.dnf,
    }
}

/// Some index of `p` (within `0..n`) holds the value `v`.
pub open spec fn perm_covers(p: Seq<int>, n: int, v: int) -> bool {
    exists|i: int| 0 <= i < n && #[trigger] p[i] == v
}

/// `p` maps output indices to input indices, bijectively over `0..n`.
pub open spec fn valid_perm(p: Seq<int>, n: int) -> bool {
    &&& p.len() == n
    &&& (forall|i: int| 0 <= i < n ==> 0 <= #[trigger] p[i] < n)
    &&& (forall|i: int, j: int|
        #![trigger p[i], p[j]]
        0 <= i < n && 0 <= j < n && i != j ==> p[i] != p[j])
    &&& (forall|v: int| 0 <= v < n ==> #[trigger] perm_covers(p, n, v))
}

/// Indices `a < b` of `s` stand in key order; ties are decided by the
/// original positions recorded in `p`, so the sort is stable.
pub open spec fn stable_le(
    s: Seq<RaceResult>,
    p: Seq<int>,
    race_rules: bool,
    a: int,
    b: int,
) -> bool {
    ||| sort_key(s[a], race_rules) < sort_key(s[b], race_rules)
    ||| (sort_key(s[a], race_rules) == sort_key(s[b], race_rules) && p[a] < p[b])
}

/// `output` is `input` stably sorted by the session key, witnessed by the
/// permutation `p`: entries are carried over unchanged.
pub open spec fn stable_sorted_by(
    input: Seq<RaceResult>,
    output: Seq<RaceResult>,
    p: Seq<int>,
    race_rules: bool,
) -> bool {
    &&& output.len() == input.len()
    &&& valid_perm(p, input.len() as int)
    &&& (forall|k: int| 0 <= k < input.len() ==> #[trigger] output[k] == input[p[k]])
    &&& (forall|a: int, b: int|
        0 <= a < b < input.len() ==> #[trigger] stable_le(output, p, race_rules, a, b))
}

/// `output` is the ranking of `input`, witnessed by the permutation `p`:
/// stably sorted by the session key, with 1-based finish positions assigned
/// along the sorted order.
pub open spec fn ranking_perm(
    input: Seq<RaceResult>,
    output: Seq<RaceResult>,
    p: Seq<int>,
    race_rules: bool,
) -> bool {
    &&& output.len() == input.len()
    &&& valid_perm(p, input.len() as int)
    &&& (forall|k: int|
        0 <= k < input.len() ==> #[trigger] output[k] == with_position(
            input[p[k]],
            (k + 1) as u8,
        ))
    &&& (forall|a: int, b: int|
        0 <= a < b < input.len() ==> #[trigger] stable_le(output, p, race_rules, a, b))
}

/// What the ranking engine produces: some permutation witnesses that
/// `output` ranks `input` under the session's rules.
pub open spec fn is_ranking_of(
    input: Seq<RaceResult>,
    output: Seq<RaceResult>,
    race_rules: bool,
) -> bool {
    exists|p: Seq<int>| #[trigger] ranking_perm(input, output, p, race_rules)
}

/// The executable session key; positions do not influence it.
fn key_of(r: &RaceResult, race_rules: bool) -> (k: u16)
    ensures
        k as int == sort_key(*r, race_rules),
{
    if race_rules && r.dnf {
        256 + (r.finish_time_seconds as u16)
    } else {
        r.finish_time_seconds as u16
    }
}

/// Stable insertion sort by the session key, in place.
pub fn sort_results(results: &mut Vec<RaceResult>, race_rules: bool)
    ensures
        exists|p: Seq<int>| #[trigger] stable_sorted_by(
            old(results)@,
            final(results)@,
            p,
            race_rules,
        ),
{
    let ghost orig = results@;
    let ghost mut gp: Seq<int> = Seq::new(orig.len(), |k: int| k);
    let n = results.len();
    proof {
        assert forall|v: int| 0 <= v < n implies #[trigger] perm_covers(gp, n as int, v) by {
            assert(gp[v] == v);
        }
    }
    let mut i: usize = 0;
    while i < n
        invariant
            i <= n,
            n == orig.len(),
            results@.len() == n,
            gp.len() == n,
            forall|k: int| 0 <= k < n ==> 0 <= #[trigger] gp[k] < n,
            forall|k1: int, k2: int|
                #![trigger gp[k1], gp[k2]]
                0 <= k1 < n && 0 <= k2 < n && k1 != k2 ==> gp[k1] != gp[k2],
            forall|v: int| 0 <= v < n ==> #[trigger] perm_covers(gp, n as int, v),
            forall|k: int| 0 <= k < n ==> #[trigger] results@[k] == orig[gp[k]],
            forall|k: int| i <= k < n ==> #[trigger] gp[k] == k,
            forall|a: int, b: int|
                0 <= a < b < i ==> #[trigger] stable_le(results@, gp, race_rules, a, b),
        decreases n - i,
    {
        proof {
            assert forall|k: int| 0 <= k < i implies #[trigger] gp[k] < i by {
                if gp[k] >= i {
                    let m = gp[k];
                    assert(gp[m] == m);
                }
            }
        }
        let mut j: usize = i;
        while j > 0 && key_of(&results[j - 1], race_rules) > key_of(&results[j], race_rules)
            invariant
                j <= i < n,
                n == orig.len(),
                results@.len() == n,
                gp.len() == n,
                forall|k: int| 0 <= k < n ==> 0 <= #[trigger] gp[k] < n,
                forall|k1: int, k2: int|
                    #![trigger gp[k1], gp[k2]]
                    0 <= k1 < n && 0 <= k2 < n && k1 != k2 ==> gp[k1] != gp[k2],
                forall|v: int| 0 <= v < n ==> #[trigger] perm_covers(gp, n as int, v),
                forall|k: int| 0 <= k < n ==> #[trigger] results@[k] == orig[gp[k]],
                forall|k: int| i < k < n ==> #[trigger] gp[k] == k,
                gp[j as int] == i,
                forall|k: int| 0 <= k <= i && k != j ==> #[trigger] gp[k] < i,
                forall|a: int, b: int|
                    0 <= a < b <= i && a != j && b != j ==> #[trigger] stable_le(
                        results@,
                        gp,
                        race_rules,
                        a,
                        b,
                    ),
                forall|a: int|
                    j < a <= i ==> sort_key(results@[j as int], race_rules) < sort_key(
                        #[trigger] results@[a],
                        race_rules,
                    ),
            decreases j,
        {
            let ghost old_seq = results@;
            let ghost old_gp = gp;
            let moving = results.remove(j);
            results.insert(j - 1, moving);
            proof {
                gp = old_gp.update(j - 1, old_gp[j as int]).update(j as int, old_gp[j - 1]);
                assert(results@ =~= old_seq.update(j - 1, old_seq[j as int]).update(
                    j as int,
                    old_seq[j - 1],
                ));
                assert forall|v: int| 0 <= v < n implies #[trigger] perm_covers(
                    gp,
                    n as int,
                    v,
                ) by {
                    assert(perm_covers(old_gp, n as int, v));
                    let k0 = choose|k: int| 0 <= k < n && #[trigger] old_gp[k] == v;
                    if k0 == j - 1 {
                        assert(gp[j as int] == v);
                    } else if k0 == j {
                        assert(gp[j - 1] == v);
                    } else {
                        assert(gp[k0] == v);
                    }
                }
                assert forall|a: int, b: int|
                    0 <= a < b <= i && a != j - 1 && b != j - 1 implies #[trigger] stable_le(
                    results@,
                    gp,
                    race_rules,
                    a,
                    b,
                ) by {
                    if b == j {
                        assert(stable_le(old_seq, old_gp, race_rules, a, j - 1));
                    } else if a == j {
                        assert(stable_le(old_seq, old_gp, race_rules, j - 1, b));
                    } else {
                        assert(stable_le(old_seq, old_gp, race_rules, a, b));
                    }
                }
            }
            j = j - 1;
        }
        proof {
            assert forall|a: int, b: int| 0 <= a < b <= i implies #[trigger] stable_le(
                results@,
                gp,
                race_rules,
                a,
                b,
            ) by {
                if b == j {
                    assert(j > 0);
                    let kj = sort_key(results@[j as int], race_rules);
                    let kjm = sort_key(results@[j - 1], race_rules);
                    assert(kjm <= kj);
                    if a < j - 1 {
                        assert(stable_le(results@, gp, race_rules, a, j - 1));
                    }
                } else if a == j {
                    assert(sort_key(results@[j as int], race_rules) < sort_key(
                        results@[b],
                        race_rules,
                    ));
                } else {
                    assert(stable_le(results@, gp, race_rules, a, b));
                }
            }
        }
        i = i + 1;
    }
    proof {
        assert(stable_sorted_by(orig, results@, gp, race_rules));
    }
}

/// Assign 1-based finish positions along the current order.
fn assign_positions(results: Vec<RaceResult>) -> (out: Vec<RaceResult>)
    requires
        results@.len() <= 255,
    ensures
        out@.len() == results@.len(),
        forall|k: int|
            0 <= k < results@.len() ==> #[trigger] out@[k] == with_position(
                results@[k],
                (k + 1) as u8,
            ),
{
    let ghost orig = results@;
    let mut rest = results;
    let mut out: Vec<RaceResult> = Vec::new();
    let n = rest.len();
    let mut k: usize = 0;
    while k < n
        invariant
            k <= n,
            n == orig.len() <= 255,
            rest@ == orig.subrange(k as int, n as int),
            out@.len() == k,
            forall|m: int|
                0 <= m < k ==> #[trigger] out@[m] == with_position(orig[m], (m + 1) as u8),
        decreases n - k,
    {
        let ghost old_rest = rest@;
        let mut entry = rest.remove(0);
        entry.finish_position = (k + 1) as u8;
        out.push(entry);
        proof {
            assert(rest@ =~= orig.subrange(k + 1 as int, n as int));
            assert(old_rest[0] == orig[k as int]);
        }
        k = k + 1;
    }
    out
}

/// The ranking engine: stably sort by the session key (finish time for
/// qualification; DNF entries demoted behind all finishers for a race) and
/// assign finish positions 1..=N along the sorted order.
pub fn rank_results(results: Vec<RaceResult>, race_rules: bool) -> (ranked: Vec<RaceResult>)
    requires
        results@.len() <= 255,
    ensures
        is_ranking_of(results@, ranked@, race_rules),
        ranked@.len() == results@.len(),
        forall|k: int| 0 <= k < ranked@.len() ==> #[trigger] ranked@[k].finish_position == k + 1,
        forall|a: int, b: int|
            0 <= a < b < ranked@.len() ==> sort_key(#[trigger] ranked@[a], race_rules) <= sort_key(
                #[trigger] ranked@[b],
                race_rules,
            ),
{
    let ghost input = results@;
    let mut sorted = results;
    sort_results(&mut sorted, race_rules);
    let ghost p = choose|p: Seq<int>| #[trigger] stable_sorted_by(input, sorted@, p, race_rules);
    let ghost sorted_seq = sorted@;
    let ranked = assign_positions(sorted);
    proof {
        assert forall|a: int, b: int| 0 <= a < b < input.len() implies #[trigger] stable_le(
            ranked@,
            p,
            race_rules,
            a,
            b,
        ) by {
            assert(stable_le(sorted_seq, p, race_rules, a, b));
            assert(ranked@[a] == with_position(sorted_seq[a], (a + 1) as u8));
            assert(ranked@[b] == with_position(sorted_seq[b], (b + 1) as u8));
        }
        assert(ranking_perm(input, ranked@, p, race_rules));
        assert forall|a: int, b: int| 0 <= a < b < ranked@.len() implies sort_key(
            #[trigger] ranked@[a],
            race_rules,
        ) <= sort_key(#[trigger] ranked@[b], race_rules) by {
            assert(stable_le(ranked@, p, race_rules, a, b));
        }
    }
    ranked
}

/// Unpacks the ranking contract: the output is a permutation of the input
/// (entries carried over unchanged, positions aside), it is sorted by the
/// session key, equal keys keep their input order, and the finish positions
/// are exactly 1..=N in output order.
pub proof fn lemma_ranking_properties(
    input: Seq<RaceResult>,
    output: Seq<RaceResult>,
    race_rules: bool,
)
    requires
        is_ranking_of(input, output, race_rules),
    ensures
        output.len() == input.len(),
        exists|p: Seq<int>| #[trigger] ranking_perm(input, output, p, race_rules),
        forall|k: int| 0 <= k < output.len() ==> #[trigger] output[k].finish_position == (
        k + 1) as u8,
        forall|a: int, b: int|
            0 <= a < b < output.len() ==> sort_key(#[trigger] output[a], race_rules) <= sort_key(
                #[trigger] output[b],
                race_rules,
            ),
{
    let p = choose|p: Seq<int>| #[trigger] ranking_perm(input, output, p, race_rules);
    assert forall|a: int, b: int| 0 <= a < b < output.len() implies sort_key(
        #[trigger] output[a],
        race_rules,
    ) <= sort_key(#[trigger] output[b], race_rules) by {
        assert(stable_le(output, p, race_rules, a, b));
    }
}

/// The entry as it stands before ranking: its finish position cleared.
pub open spec fn unranked(r: RaceResult) -> RaceResult {
    with_position(r, 0)
}

/// A list with every finish position cleared, for comparing rankings with
/// their inputs entry by entry.
pub open spec fn stripped(s: Seq<RaceResult>) -> Seq<RaceResult> {
    s.map_values(|r: RaceResult| unranked(r))
}

/// Rearranging a sequence along a bijection keeps its multiset of entries.
proof fn lemma_perm_preserves_multiset(input: Seq<RaceResult>, output: Seq<RaceResult>, p: Seq<int>)
    requires
        valid_perm(p, input.len() as int),
        output.len() == input.len(),
        forall|k: int| 0 <= k < input.len() ==> #[trigger] output[k] == input[p[k]],
    ensures
        output.to_multiset() == input.to_multiset(),
    decreases input.len(),
{
    broadcast use vstd::seq_lib::group_to_multiset_ensures;
    broadcast use vstd::multiset::group_multiset_axioms;

    let n = input.len() as int;
    if n == 0 {
        assert(output =~= input);
    } else {
        assert(perm_covers(p, n, n - 1));
        let i0 = choose|i: int| 0 <= i < n && #[trigger] p[i] == n - 1;
        let x = output[i0];
        let out_rest = output.remove(i0);
        let in_rest = input.drop_last();
        let p_rest = p.remove(i0);
        assert forall|k: int| 0 <= k < n - 1 implies 0 <= #[trigger] p_rest[k] < n - 1 by {
            if k < i0 {
                assert(p_rest[k] == p[k]);
                assert(p[k] != p[i0]);
            } else {
                assert(p_rest[k] == p[k + 1]);
                assert(p[k + 1] != p[i0]);
            }
        }
        assert forall|k1: int, k2: int|
            #![trigger p_rest[k1], p_rest[k2]]
            0 <= k1 < n - 1 && 0 <= k2 < n - 1 && k1 != k2 implies p_rest[k1] != p_rest[k2] by {
            let o1: int = if k1 < i0 {
                k1
            } else {
                k1 + 1
            };
            let o2: int = if k2 < i0 {
                k2
            } else {
                k2 + 1
            };
            assert(p_rest[k1] == p[o1]);
            assert(p_rest[k2] == p[o2]);
        }
        assert forall|v: int| 0 <= v < n - 1 implies #[trigger] perm_covers(p_rest, n - 1, v) by {
            assert(perm_covers(p, n, v));
            let i = choose|i: int| 0 <= i < n && #[trigger] p[i] == v;
            if i < i0 {
                assert(p_rest[i] == v);
            } else {
                assert(p_rest[i - 1] == v);
            }
        }
        assert forall|k: int| 0 <= k < n - 1 implies #[trigger] out_rest[k] == in_rest[p_rest[k]] by {
            if k < i0 {
                assert(out_rest[k] == output[k]);
                assert(p_rest[k] == p[k]);
            } else {
                assert(out_rest[k] == output[k + 1]);
                assert(p_rest[k] == p[k + 1]);
            }
        }
        lemma_perm_preserves_multiset(in_rest, out_rest, p_rest);
        assert(x == input[n - 1]);
        assert(input =~= in_rest.push(input[n - 1]));
        assert(input.to_multiset() =~= in_rest.to_multiset().insert(x));
        assert(out_rest.to_multiset() =~= output.to_multiset().remove(x));
        assert(output.to_multiset().count(x) > 0);
        assert(output.to_multiset() =~= output.to_multiset().remove(x).insert(x));
        assert(output.to_multiset() =~= input.to_multiset());
    }
}

/// Position reassignment aside, a ranking holds exactly the entries it was
/// given: with finish positions cleared on both sides, the output is a
/// rearrangement of the input, entry for entry.
pub proof fn lemma_ranking_is_permutation(
    input: Seq<RaceResult>,
    output: Seq<RaceResult>,
    race_rules: bool,
)
    requires
        is_ranking_of(input, output, race_rules),
    ensures
        stripped(output).to_multiset() == stripped(input).to_multiset(),
{
    let p = choose|p: Seq<int>| #[trigger] ranking_perm(input, output, p, race_rules);
    let out_m = stripped(output);
    let in_m = stripped(input);
    assert forall|k: int| 0 <= k < in_m.len() implies #[trigger] out_m[k] == in_m[p[k]] by {
        assert(output[k] == with_position(input[p[k]], (k + 1) as u8));
    }
    lemma_perm_preserves_multiset(in_m, out_m, p);
}

/// Seen from the input side: the entries that the permutation `p` places at
/// `a < b` stand in key order, ties decided by their input positions.
pub open spec fn perm_stable_at(
    s: Seq<RaceResult>,
    p: Seq<int>,
    race_rules: bool,
    a: int,
    b: int,
) -> bool {
    ||| sort_key(s[p[a]], race_rules) < sort_key(s[p[b]], race_rules)
    ||| (sort_key(s[p[a]], race_rules) == sort_key(s[p[b]], race_rules) && p[a] < p[b])
}

/// A stable ranking permutation over an already key-sorted sequence can only
/// be the identity.
proof fn lemma_stable_perm_identity(s: Seq<RaceResult>, p: Seq<int>, race_rules: bool, i: int)
    requires
        valid_perm(p, s.len() as int),
        forall|a: int, b: int|
            0 <= a < b < s.len() ==> sort_key(#[trigger] s[a], race_rules) <= sort_key(
                #[trigger] s[b],
                race_rules,
            ),
        forall|a: int, b: int|
            0 <= a < b < s.len() ==> #[trigger] perm_stable_at(s, p, race_rules, a, b),
        0 <= i <= s.len(),
        forall|j: int| 0 <= j < i ==> #[trigger] p[j] == j,
    ensures
        forall|j: int| 0 <= j < s.len() ==> #[trigger] p[j] == j,
    decreases s.len() - i,
{
    let n = s.len() as int;
    if i < n {
        if p[i] < i {
            assert(p[p[i]] == p[i]);
            assert(false);
        }
        if p[i] > i {
            assert(perm_covers(p, n, i));
            let j = choose|k: int| 0 <= k < n && #[trigger] p[k] == i;
            if j < i {
                assert(p[j] == j);
                assert(false);
            }
            assert(i < j);
            assert(perm_stable_at(s, p, race_rules, i, j));
            assert(sort_key(s[i], race_rules) <= sort_key(s[p[i]], race_rules));
            assert(false);
        }
        lemma_stable_perm_identity(s, p, race_rules, i + 1);
    }
}

/// The ranking engine is idempotent: ranking its own output again, under the
/// same rules, returns that output unchanged, positions included.
pub proof fn lemma_ranking_idempotent(
    input: Seq<RaceResult>,
    once: Seq<RaceResult>,
    twice: Seq<RaceResult>,
    race_rules: bool,
)
    requires
        is_ranking_of(input, once, race_rules),
        is_ranking_of(once, twice, race_rules),
    ensures
        twice == once,
{
    let p1 = choose|p: Seq<int>| #[trigger] ranking_perm(input, once, p, race_rules);
    let p2 = choose|p: Seq<int>| #[trigger] ranking_perm(once, twice, p, race_rules);
    let n = once.len() as int;
    assert forall|a: int, b: int| 0 <= a < b < n implies sort_key(
        #[trigger] once[a],
        race_rules,
    ) <= sort_key(#[trigger] once[b], race_rules) by {
        assert(stable_le(once, p1, race_rules, a, b));
    }
    assert forall|a: int, b: int| 0 <= a < b < n implies #[trigger] perm_stable_at(
        once,
        p2,
        race_rules,
        a,
        b,
    ) by {
        assert(stable_le(twice, p2, race_rules, a, b));
        assert(twice[a] == with_position(once[p2[a]], (a + 1) as u8));
        assert(twice[b] == with_position(once[p2[b]], (b + 1) as u8));
    }
    lemma_stable_perm_identity(once, p2, race_rules, 0);
    assert forall|k: int| 0 <= k < n implies #[trigger] twice[k] == once[k] by {
        assert(p2[k] == k);
        assert(twice[k] == with_position(once[k], (k + 1) as u8));
        assert(once[k] == with_position(input[p1[k]], (k + 1) as u8));
    }
    assert(twice =~= once);
}

/// End of the "Q3" tier: the first ten ranks, or the whole list if shorter.
pub open spec fn q3_cut(n: int) -> int {
    if n < 10 {
        n
    } else {
        10
    }
}

/// End of the "eliminated in Q2" tier: ranks up to fifteen, or the whole
/// list if shorter.
pub open spec fn q2_cut(n: int) -> int {
    if n < 15 {
        n
    } else {
        15
    }
}

/// The three-tier qualification view over an already-ranked list: ranks 1-10
/// advance to Q3, ranks 11-15 fell in Q2, every later rank fell in Q1. The
/// input is only read; the tiers hold copies in the same order.
pub fn qualification_tiers(results: &Vec<RaceResult>) -> (tiers: (
    Vec<RaceResult>,
    Vec<RaceResult>,
    Vec<RaceResult>,
))
    ensures
        tiers.0@ == results@.subrange(0, q3_cut(results@.len() as int)),
        tiers.1@ == results@.subrange(
            q3_cut(results@.len() as int),
            q2_cut(results@.len() as int),
        ),
        tiers.2@ == results@.subrange(q2_cut(results@.len() as int), results@.len() as int),
{
    let n = results.len();
    let cut1 = if n < 10 {
        n
    } else {
        10
    };
    let cut2 = if n < 15 {
        n
    } else {
        15
    };
    let mut advancing: Vec<RaceResult> = Vec::new();
    let mut out_in_q2: Vec<RaceResult> = Vec::new();
    let mut out_in_q1: Vec<RaceResult> = Vec::new();
    let mut i: usize = 0;
    while i < cut1
        invariant
            i <= cut1,
            cut1 as int == q3_cut(results@.len() as int),
            n == results@.len(),
            advancing@ == results@.subrange(0, i as int),
        decreases cut1 - i,
    {
        advancing.push(results[i].clone());
        proof {
            assert(advancing@ =~= results@.subrange(0, i + 1 as int));
        }
        i = i + 1;
    }
    let mut i: usize = cut1;
    while i < cut2
        invariant
            cut1 <= i <= cut2,
            cut1 as int == q3_cut(results@.len() as int),
            cut2 as int == q2_cut(results@.len() as int),
            n == results@.len(),
            out_in_q2@ == results@.subrange(cut1 as int, i as int),
        decreases cut2 - i,
    {
        out_in_q2.push(results[i].clone());
        proof {
            assert(out_in_q2@ =~= results@.subrange(cut1 as int, i + 1 as int));
        }
        i = i + 1;
    }
    let mut i: usize = cut2;
    while i < n
        invariant
            cut2 <= i <= n,
            cut2 as int == q2_cut(results@.len() as int),
            n == results@.len(),
            out_in_q1@ == results@.subrange(cut2 as int, i as int),
        decreases n - i,
    {
        out_in_q1.push(results[i].clone());
        proof {
            assert(out_in_q1@ =~= results@.subrange(cut2 as int, i + 1 as int));
        }
        i = i + 1;
    }
    (advancing, out_in_q2, out_in_q1)
}

/// On a ranked grid of twenty, the tier view cuts exactly at the ranks: the
/// first tier holds ranks 1..=10, the second ranks 11..=15, the third ranks
/// 16..=20.
pub proof fn lemma_tiers_of_twenty(
    input: Seq<RaceResult>,
    ranked: Seq<RaceResult>,
    advancing: Seq<RaceResult>,
    out_in_q2: Seq<RaceResult>,
    out_in_q1: Seq<RaceResult>,
)
    requires
        is_ranking_of(input, ranked, false),
        ranked.len() == 20,
        advancing == ranked.subrange(0, q3_cut(ranked.len() as int)),
        out_in_q2 == ranked.subrange(q3_cut(ranked.len() as int), q2_cut(ranked.len() as int)),
        out_in_q1 == ranked.subrange(q2_cut(ranked.len() as int), ranked.len() as int),
    ensures
        advancing.len() == 10,
        out_in_q2.len() == 5,
        out_in_q1.len() == 5,
        forall|k: int| 0 <= k < 10 ==> (#[trigger] advancing[k]).finish_position == k + 1,
        forall|k: int| 0 <= k < 5 ==> (#[trigger] out_in_q2[k]).finish_position == k + 11,
        forall|k: int| 0 <= k < 5 ==> (#[trigger] out_in_q1[k]).finish_position == k + 16,
{
    lemma_ranking_properties(input, ranked, false);
}

/// Under race rules no DNF entry ever outranks a finisher: every finisher's
/// position is strictly ahead of every DNF entry's position, whatever the
/// recorded times.
pub proof fn lemma_race_dnf_demoted(input: Seq<RaceResult>, output: Seq<RaceResult>)
    requires
        is_ranking_of(input, output, true),
        input.len() <= 255,
    ensures
        forall|i: int, j: int|
            0 <= i < output.len() && 0 <= j < output.len() && !(#[trigger] output[i]).dnf && (
            #[trigger] output[j]).dnf ==> output[i].finish_position < output[j].finish_position,
{
    let p = choose|p: Seq<int>| #[trigger] ranking_perm(input, output, p, true);
    assert forall|i: int, j: int|
        0 <= i < output.len() && 0 <= j < output.len() && !(#[trigger] output[i]).dnf && (
        #[trigger] output[j]).dnf implies output[i].finish_position
        < output[j].finish_position by {
        assert(sort_key(output[i], true) < 256);
        assert(sort_key(output[j], true) >= 256);
        if j < i {
            assert(stable_le(output, p, true, j, i));
            assert(false);
        }
        assert(output[i].finish_position == (i + 1) as u8);
        assert(output[j].finish_position == (j + 1) as u8);
    }
}

} // verus!
