//! The processes that load the processor most.

use vstd::prelude::*;
use vstd::set_lib::*;
use crate::snapshot::Process;

verus! {

/// Number of processes that the dashboard lists.
pub const TOP_COUNT: usize = 5;

/// Whether the process at `a` is listed before the one at `b`: the higher
/// load first, and of two equal loads the one that stands first in `procs`.
pub open spec fn outranks(procs: Seq<Process>, a: int, b: int) -> bool {
    procs[a].cpu > procs[b].cpu || (procs[a].cpu == procs[b].cpu && a < b)
}

/// Whether `top` holds positions in `procs`, each before the next in rank and
/// each before every position that `top` leaves out.
pub open spec fn ranked(procs: Seq<Process>, top: Seq<int>) -> bool {
    &&& forall|i: int| 0 <= i < top.len() ==> 0 <= #[trigger] top[i] < procs.len()
    &&& forall|i: int, j: int|
        0 <= i < j < top.len() ==> outranks(procs, #[trigger] top[i], #[trigger] top[j])
    &&& forall|i: int, m: int|
        0 <= i < top.len() && 0 <= m < procs.len() && !(#[trigger] top.contains(m)) ==> outranks(
            procs,
            #[trigger] top[i],
            m,
        )
}

/// Whether `top` lists the positions of the `count` highest-ranking processes
/// of `procs`, best first; of all of them where there are no more than
/// `count`.
pub open spec fn is_ranking(procs: Seq<Process>, count: nat, top: Seq<int>) -> bool {
    &&& top.len() == if count <= procs.len() {
        count
    } else {
        procs.len()
    }
    &&& ranked(procs, top)
}

/// The positions of the `count` highest-ranking processes of `procs`, best
/// first. `lemma_ranking_is_unique` shows that there is one such list only.
pub open spec fn ranking(procs: Seq<Process>, count: nat) -> Seq<int> {
    choose|top: Seq<int>| is_ranking(procs, count, top)
}

/// A list of positions, as integers.
pub open spec fn positions(top: Seq<usize>) -> Seq<int> {
    top.map_values(|p: usize| p as int)
}

/// No position stands twice in a ranked list.
proof fn lemma_ranked_is_duplicate_free(procs: Seq<Process>, top: Seq<int>)
    requires
        ranked(procs, top),
    ensures
        top.no_duplicates(),
{
    assert forall|i: int, j: int| 0 <= i < top.len() && 0 <= j < top.len() && i != j implies top[i]
        != top[j] by {
        // One of the two outranks the other, and no position outranks itself.
        if i < j {
            assert(outranks(procs, top[i], top[j]));
        } else {
            assert(outranks(procs, top[j], top[i]));
        }
    }
}

/// A ranked list is no longer than the list of processes.
proof fn lemma_ranked_is_short(procs: Seq<Process>, top: Seq<int>)
    requires
        ranked(procs, top),
    ensures
        top.len() <= procs.len(),
{
    let all = set_int_range(0, procs.len() as int);
    lemma_ranked_is_duplicate_free(procs, top);
    top.unique_seq_to_set();
    lemma_int_range(0, procs.len() as int);
    assert forall|p: int| top.to_set().contains(p) implies all.contains(p) by {
        let i = choose|i: int| 0 <= i < top.len() && top[i] == p;
        assert(0 <= top[i] < procs.len());
    }
    lemma_len_subset(top.to_set(), all);
}

/// A ranked list that leaves no position out is as long as the list of
/// processes.
proof fn lemma_ranked_is_complete(procs: Seq<Process>, top: Seq<int>)
    requires
        ranked(procs, top),
        forall|m: int| 0 <= m < procs.len() ==> top.contains(m),
    ensures
        top.len() == procs.len(),
{
    let all = set_int_range(0, procs.len() as int);
    lemma_ranked_is_short(procs, top);
    lemma_ranked_is_duplicate_free(procs, top);
    top.unique_seq_to_set();
    lemma_int_range(0, procs.len() as int);
    assert forall|p: int| all.contains(p) implies top.to_set().contains(p) by {
        assert(top.contains(p));
    }
    lemma_len_subset(all, top.to_set());
}

/// Two ranked lists of the same length agree up to position `upto`.
proof fn lemma_rankings_agree(procs: Seq<Process>, a: Seq<int>, b: Seq<int>, upto: int)
    requires
        ranked(procs, a),
        ranked(procs, b),
        a.len() == b.len(),
        0 <= upto <= a.len(),
    ensures
        forall|i: int| 0 <= i < upto ==> a[i] == b[i],
    decreases upto,
{
    if upto > 0 {
        let i = upto - 1;
        lemma_rankings_agree(procs, a, b, i);
        // Each of the two entries at `i` is the other or outranks it.
        assert(a[i] == b[i] || outranks(procs, a[i], b[i])) by {
            if a.contains(b[i]) {
                // It stands in `a` at `i` or later: the entries before `i`
                // are those of `b`, and `b` holds none twice.
                let j = choose|j: int| 0 <= j < a.len() && a[j] == b[i];
                if j < i {
                    assert(outranks(procs, b[j], b[i]));
                }
            }
        }
        assert(a[i] == b[i] || outranks(procs, b[i], a[i])) by {
            if b.contains(a[i]) {
                let j = choose|j: int| 0 <= j < b.len() && b[j] == a[i];
                if j < i {
                    assert(outranks(procs, a[j], a[i]));
                }
            }
        }
    }
}

/// There is one ranking only: two lists that both rank the `count` best
/// processes of `procs` are the same list.
pub proof fn lemma_ranking_is_unique(procs: Seq<Process>, count: nat, a: Seq<int>, b: Seq<int>)
    requires
        is_ranking(procs, count, a),
        is_ranking(procs, count, b),
    ensures
        a == b,
{
    lemma_rankings_agree(procs, a, b, a.len() as int);
}

/// The highest-ranking position below `upto` that `top` does not list, if
/// there is one.
spec fn best_unlisted(procs: Seq<Process>, top: Seq<int>, upto: nat) -> Option<int>
    decreases upto,
{
    if upto == 0 {
        None
    } else {
        let m = upto - 1;
        let before = best_unlisted(procs, top, m as nat);
        if top.contains(m) {
            before
        } else {
            match before {
                Some(b) => if procs[b].cpu >= procs[m].cpu {
                    Some(b)
                } else {
                    Some(m)
                },
                None => Some(m),
            }
        }
    }
}

/// `best_unlisted` finds a position that `top` does not list and that
/// outranks every other such position below `upto`, or finds that `top` lists
/// them all.
proof fn lemma_best_unlisted(procs: Seq<Process>, top: Seq<int>, upto: nat)
    requires
        upto <= procs.len(),
    ensures
        match best_unlisted(procs, top, upto) {
            Some(b) => {
                &&& 0 <= b < upto
                &&& !top.contains(b)
                &&& forall|m: int|
                    0 <= m < upto && m != b && !(#[trigger] top.contains(m)) ==> outranks(
                        procs,
                        b,
                        m,
                    )
            },
            None => forall|m: int| 0 <= m < upto ==> top.contains(m),
        },
    decreases upto,
{
    if upto > 0 {
        lemma_best_unlisted(procs, top, (upto - 1) as nat);
    }
}

/// A ranked list with the best position that it does not list added at its
/// end is ranked.
proof fn lemma_ranked_push(procs: Seq<Process>, top: Seq<int>, b: int)
    requires
        ranked(procs, top),
        0 <= b < procs.len(),
        !top.contains(b),
        forall|m: int|
            0 <= m < procs.len() && m != b && !(#[trigger] top.contains(m)) ==> outranks(
                procs,
                b,
                m,
            ),
    ensures
        ranked(procs, top.push(b)),
{
    let after = top.push(b);
    assert forall|i: int, j: int| 0 <= i < j < after.len() implies outranks(
        procs,
        #[trigger] after[i],
        #[trigger] after[j],
    ) by {
        // Either both stand in `top`, or the second is `b`, which `top`
        // does not list.
        if j < top.len() {
            assert(top[i] == after[i] && top[j] == after[j]);
        } else {
            assert(top[i] == after[i]);
        }
    }
    assert forall|i: int, m: int|
        0 <= i < after.len() && 0 <= m < procs.len() && !(#[trigger] after.contains(
            m,
        )) implies outranks(procs, #[trigger] after[i], m) by {
        // What `after` does not list is not `b`, and `top` does not list it.
        assert(after[top.len() as int] == b);
        if top.contains(m) {
            let k = choose|k: int| 0 <= k < top.len() && top[k] == m;
            assert(after[k] == m);
        }
        if i < top.len() {
            assert(top[i] == after[i]);
        }
    }
}

/// A ranking of `count`, built one position at a time.
spec fn built_ranking(procs: Seq<Process>, count: nat) -> Seq<int>
    decreases count,
{
    if count == 0 {
        Seq::empty()
    } else {
        let top = built_ranking(procs, (count - 1) as nat);
        match best_unlisted(procs, top, procs.len()) {
            Some(b) => top.push(b),
            None => top,
        }
    }
}

/// What is built one position at a time is a ranking.
proof fn lemma_built_ranking(procs: Seq<Process>, count: nat)
    ensures
        is_ranking(procs, count, built_ranking(procs, count)),
    decreases count,
{
    if count > 0 {
        let top = built_ranking(procs, (count - 1) as nat);
        lemma_built_ranking(procs, (count - 1) as nat);
        lemma_best_unlisted(procs, top, procs.len());
        match best_unlisted(procs, top, procs.len()) {
            Some(b) => {
                lemma_ranked_push(procs, top, b);
                lemma_ranked_is_short(procs, top.push(b));
            },
            None => {
                lemma_ranked_is_complete(procs, top);
            },
        }
    }
}

/// Every list of processes has a ranking of every length: `ranking` is
/// defined throughout.
pub proof fn lemma_ranking_exists(procs: Seq<Process>, count: nat)
    ensures
        is_ranking(procs, count, ranking(procs, count)),
{
    lemma_built_ranking(procs, count);
}

/// Of at least five processes with loads that all differ, the ranking of
/// five lists exactly the five with the highest loads, in descending order of
/// load: every load that it shows is above the next, and above every load
/// that it does not show.
pub proof fn lemma_top_five_of_distinct(procs: Seq<Process>)
    requires
        procs.len() >= 5,
        forall|i: int, j: int|
            0 <= i < procs.len() && 0 <= j < procs.len() && i != j ==> procs[i].cpu != procs[j].cpu,
    ensures
        ranking(procs, 5).len() == 5,
        forall|i: int| 0 <= i < 5 ==> 0 <= #[trigger] ranking(procs, 5)[i] < procs.len(),
        forall|i: int, j: int|
            0 <= i < j < 5 ==> procs[#[trigger] ranking(procs, 5)[i]].cpu
                > procs[#[trigger] ranking(procs, 5)[j]].cpu,
        forall|i: int, m: int|
            0 <= i < 5 && 0 <= m < procs.len() && !(#[trigger] ranking(procs, 5).contains(m))
                ==> procs[#[trigger] ranking(procs, 5)[i]].cpu > procs[m].cpu,
{
    let top = ranking(procs, 5);
    lemma_ranking_exists(procs, 5);
    // Where all loads differ, to outrank is to have the higher load.
    assert forall|i: int, j: int| 0 <= i < j < 5 implies procs[#[trigger] top[i]].cpu
        > procs[#[trigger] top[j]].cpu by {
        assert(outranks(procs, top[i], top[j]));
    }
    assert forall|i: int, m: int|
        0 <= i < 5 && 0 <= m < procs.len() && !(#[trigger] top.contains(m)) implies procs[#[trigger] top[i]].cpu
        > procs[m].cpu by {
        assert(outranks(procs, top[i], m));
    }
}

/// Whether the process at `m` is not listed in `top`: whether `top` is empty
/// or the process ranks behind the last entry of `top`.
fn unlisted(procs: &Vec<Process>, top: &Vec<usize>, m: usize) -> (yes: bool)
    requires
        ranked(procs@, positions(top@)),
        m < procs.len(),
    ensures
        yes == !positions(top@).contains(m as int),
{
    if top.len() == 0 {
        true
    } else {
        let ghost pos = positions(top@);
        let last = top[top.len() - 1];
        assert(0 <= pos[pos.len() - 1] < procs.len());
        let yes = procs[last].cpu > procs[m].cpu || (procs[last].cpu == procs[m].cpu && last < m);
        proof {
            // What `top` lists is its last entry or outranks it; what it does
            // not list, its last entry outranks.
            if pos.contains(m as int) {
                let i = choose|i: int| 0 <= i < pos.len() && pos[i] == m as int;
                if i < pos.len() - 1 {
                    assert(outranks(procs@, pos[i], pos[pos.len() - 1]));
                }
            } else {
                assert(outranks(procs@, pos[pos.len() - 1], m as int));
            }
        }
        yes
    }
}

/// The position of the highest-ranking process that `top` does not list, if
/// there is one.
fn next_best(procs: &Vec<Process>, top: &Vec<usize>) -> (best: Option<usize>)
    requires
        ranked(procs@, positions(top@)),
    ensures
        match best {
            Some(b) => {
                &&& b < procs.len()
                &&& !positions(top@).contains(b as int)
                &&& forall|m: int|
                    0 <= m < procs.len() && m != b && !(#[trigger] positions(top@).contains(m))
                        ==> outranks(procs@, b as int, m)
            },
            None => forall|m: int| 0 <= m < procs.len() ==> positions(top@).contains(m),
        },
{
    let mut best: Option<usize> = None;
    let mut m: usize = 0;
    while m < procs.len()
        invariant
            m <= procs.len(),
            ranked(procs@, positions(top@)),
            match best {
                Some(b) => {
                    &&& b < m
                    &&& !positions(top@).contains(b as int)
                    &&& forall|k: int|
                        0 <= k < m && k != b && !(#[trigger] positions(top@).contains(k))
                            ==> outranks(procs@, b as int, k)
                },
                None => forall|k: int| 0 <= k < m ==> positions(top@).contains(k),
            },
        decreases procs.len() - m,
    {
        if unlisted(procs, top, m) {
            match best {
                Some(b) => {
                    if procs[m].cpu > procs[b].cpu {
                        best = Some(m);
                    }
                },
                None => {
                    best = Some(m);
                },
            }
        }
        m += 1;
    }
    best
}

/// The positions in `procs` of the `count` processes with the highest load,
/// highest first. Processes with the same load keep the order in which they
/// stand in `procs`. Where `procs` holds no more than `count` processes, all
/// of them are listed.
pub fn top_by_cpu(procs: &Vec<Process>, count: usize) -> (top: Vec<usize>)
    ensures
        is_ranking(procs@, count as nat, positions(top@)),
        positions(top@) == ranking(procs@, count as nat),
        top.len() <= count,
        top.len() <= procs.len(),
        forall|i: int| 0 <= i < top.len() ==> #[trigger] top@[i] < procs.len(),
{
    let mut top: Vec<usize> = Vec::new();
    let mut complete = false;
    while top.len() < count && !complete
        invariant
            top.len() <= count,
            ranked(procs@, positions(top@)),
            complete ==> top.len() == procs.len(),
        decreases count - top.len() + (if complete { 0int } else { 1int }),
    {
        match next_best(procs, &top) {
            Some(b) => {
                let ghost before = positions(top@);
                top.push(b);
                proof {
                    assert(positions(top@) =~= before.push(b as int));
                    lemma_ranked_push(procs@, before, b as int);
                }
            },
            None => {
                proof {
                    lemma_ranked_is_complete(procs@, positions(top@));
                }
                complete = true;
            },
        }
    }
    proof {
        lemma_ranked_is_short(procs@, positions(top@));
        assert forall|i: int| 0 <= i < top.len() implies #[trigger] top@[i] < procs.len() by {
            assert(positions(top@)[i] == top@[i]);
        }
        lemma_ranking_is_unique(
            procs@,
            count as nat,
            positions(top@),
            ranking(procs@, count as nat),
        );
    }
    top
}

} // verus!
