//! Ordering of scored results: higher score first, then by name, and for equal
//! keys in the order the results came in (a stable sort).
use vstd::prelude::*;

verus! {

/// Lexicographic order on character sequences, comparing characters by code point
/// (the order of `String`'s `Ord`): `a` comes strictly before `b`.
pub open spec fn lex_lt(a: Seq<char>, b: Seq<char>) -> bool
    decreases a.len(),
{
    if a.len() == 0 {
        b.len() > 0
    } else if b.len() == 0 {
        false
    } else if a[0] != b[0] {
        a[0] < b[0]
    } else {
        lex_lt(a.drop_first(), b.drop_first())
    }
}

/// A result with score `s1` and name `n1` ranks strictly before one with score `s2`
/// and name `n2`: a higher score, or an equal score and an earlier name.
pub open spec fn ranks_before(s1: int, n1: Seq<char>, s2: int, n2: Seq<char>) -> bool {
    s1 > s2 || (s1 == s2 && lex_lt(n1, n2))
}

/// Entry `i` comes before entry `j` in the stable ranking: it ranks before, or it
/// has the same score and name and came first.
pub open spec fn precedes(scores: Seq<int>, names: Seq<Seq<char>>, i: int, j: int) -> bool {
    ||| ranks_before(scores[i], names[i], scores[j], names[j])
    ||| (scores[i] == scores[j] && names[i] == names[j] && i < j)
}

/// `p` lists every entry index once, in the stable ranking order.
pub open spec fn is_stable_ranking(scores: Seq<int>, names: Seq<Seq<char>>, p: Seq<usize>) -> bool {
    &&& p.len() == scores.len()
    &&& forall|a: int| 0 <= a < p.len() ==> #[trigger] p[a] < scores.len()
    &&& forall|a: int, b: int|
        0 <= a < b < p.len() ==> precedes(scores, names, #[trigger] p[a] as int, #[trigger] p[b] as int)
}

/// No sequence comes before itself.
pub proof fn lemma_lex_irreflexive(a: Seq<char>)
    ensures
        !lex_lt(a, a),
    decreases a.len(),
{
    if a.len() > 0 {
        lemma_lex_irreflexive(a.drop_first());
    }
}

/// Of two different sequences, one comes before the other.
pub proof fn lemma_lex_total(a: Seq<char>, b: Seq<char>)
    ensures
        a == b || lex_lt(a, b) || lex_lt(b, a),
    decreases a.len(),
{
    if a.len() > 0 && b.len() > 0 {
        if a[0] == b[0] {
            lemma_lex_total(a.drop_first(), b.drop_first());
            if a.drop_first() == b.drop_first() {
                assert(a =~= seq![a[0]] + a.drop_first());
                assert(b =~= seq![b[0]] + b.drop_first());
            }
        }
    } else if a.len() == 0 && b.len() == 0 {
        assert(a =~= b);
    }
}

/// The lexicographic order is transitive.
pub proof fn lemma_lex_transitive(a: Seq<char>, b: Seq<char>, c: Seq<char>)
    requires
        lex_lt(a, b),
        lex_lt(b, c),
    ensures
        lex_lt(a, c),
    decreases a.len(),
{
    if a.len() > 0 && b.len() > 0 && c.len() > 0 {
        if a[0] == b[0] && b[0] == c[0] {
            lemma_lex_transitive(a.drop_first(), b.drop_first(), c.drop_first());
        }
    }
}

/// Two entries with different keys are ordered one way or the other.
pub proof fn lemma_ranks_total(s1: int, n1: Seq<char>, s2: int, n2: Seq<char>)
    ensures
        (s1 == s2 && n1 == n2) || ranks_before(s1, n1, s2, n2) || ranks_before(s2, n2, s1, n1),
{
    lemma_lex_total(n1, n2);
}

/// Ranking before is transitive, also through an entry with an equal key.
pub proof fn lemma_ranks_transitive(
    s1: int,
    n1: Seq<char>,
    s2: int,
    n2: Seq<char>,
    s3: int,
    n3: Seq<char>,
)
    requires
        ranks_before(s1, n1, s2, n2),
        ranks_before(s2, n2, s3, n3) || (s2 == s3 && n2 == n3),
    ensures
        ranks_before(s1, n1, s3, n3),
{
    if s1 == s2 && s2 == s3 && n2 != n3 {
        lemma_lex_transitive(n1, n2, n3);
    }
}

/// Whether `a` comes strictly before `b` in code point order.
pub fn lex_less(a: &Vec<char>, b: &Vec<char>) -> (r: bool)
    ensures
        r == lex_lt(a@, b@),
{
    let mut k: usize = 0;
    assert(a@.skip(0) =~= a@);
    assert(b@.skip(0) =~= b@);
    while k < a.len() && k < b.len() && a[k] == b[k]
        invariant
            k <= a.len(),
            k <= b.len(),
            lex_lt(a@, b@) == lex_lt(a@.skip(k as int), b@.skip(k as int)),
        decreases a.len() - k,
    {
        assert(a@.skip(k as int).drop_first() =~= a@.skip(k + 1));
        assert(b@.skip(k as int).drop_first() =~= b@.skip(k + 1));
        k = k + 1;
    }
    if k == a.len() {
        k < b.len()
    } else if k == b.len() {
        false
    } else {
        assert(a@.skip(k as int)[0] == a@[k as int]);
        assert(b@.skip(k as int)[0] == b@[k as int]);
        a[k] < b[k]
    }
}

/// Whether the entry with score `s1` and name `n1` ranks strictly before the one
/// with score `s2` and name `n2`.
fn ranks_before_exec(s1: i32, n1: &Vec<char>, s2: i32, n2: &Vec<char>) -> (r: bool)
    ensures
        r == ranks_before(s1 as int, n1@, s2 as int, n2@),
{
    if s1 > s2 {
        true
    } else if s1 < s2 {
        false
    } else {
        lex_less(n1, n2)
    }
}

/// The scores of a list, as integers.
pub open spec fn score_values(v: Seq<i32>) -> Seq<int> {
    v.map_values(|s: i32| s as int)
}

/// The views of a list of character runs.
pub open spec fn runs(v: Seq<Vec<char>>) -> Seq<Seq<char>> {
    v.map_values(|r: Vec<char>| r@)
}

/// The stable ranking of the entries with the given scores and names: the
/// indices of all entries, higher scores first, equal scores by name, and equal
/// keys in their original order (as `sort_by` orders them).
pub fn stable_ranking(scores: &Vec<i32>, names: &Vec<Vec<char>>) -> (p: Vec<usize>)
    requires
        scores.len() == names.len(),
    ensures
        is_stable_ranking(score_values(scores@), runs(names@), p@),
{
    let ghost nm = runs(names@);
    let ghost sc = score_values(scores@);
    let n = scores.len();
    let mut p: Vec<usize> = Vec::new();
    let mut i: usize = 0;
    while i < n
        invariant
            n == scores.len(),
            n == names.len(),
            nm == runs(names@),
            sc == score_values(scores@),
            i <= n,
            p@.len() == i,
            forall|a: int| 0 <= a < p@.len() ==> #[trigger] p@[a] < i,
            forall|a: int, b: int|
                0 <= a < b < p@.len() ==> precedes(sc, nm, #[trigger] p@[a] as int, #[trigger] p@[b] as int),
        decreases n - i,
    {
        let mut pos: usize = 0;
        while pos < p.len() && !ranks_before_exec(scores[i], &names[i], scores[p[pos]], &names[p[pos]])
            invariant
                n == scores.len(),
                n == names.len(),
                nm == runs(names@),
                sc == score_values(scores@),
                i < n,
                pos <= p@.len(),
                forall|a: int| 0 <= a < p@.len() ==> #[trigger] p@[a] < i,
                forall|a: int|
                    0 <= a < pos ==> !ranks_before(
                        sc[i as int],
                        nm[i as int],
                        sc[#[trigger] p@[a] as int],
                        nm[p@[a] as int],
                    ),
            decreases p@.len() - pos,
        {
            pos = pos + 1;
        }
        let ghost old_p = p@;
        p.insert(pos, i);
        proof {
            assert forall|a: int, b: int| 0 <= a < b < p@.len() implies precedes(
                sc,
                nm,
                #[trigger] p@[a] as int,
                #[trigger] p@[b] as int,
            ) by {
                let x = p@[a] as int;
                let y = p@[b] as int;
                if a < pos && b > pos {
                    assert(x == old_p[a] && y == old_p[b - 1]);
                } else if a < pos && b == pos {
                    assert(x == old_p[a]);
                    lemma_ranks_total(sc[x], nm[x], sc[y], nm[y]);
                } else if a == pos {
                    assert(y == old_p[b - 1]);
                    let z = old_p[pos as int] as int;
                    assert(ranks_before(sc[x], nm[x], sc[z], nm[z]));
                    if b - 1 > pos {
                        assert(precedes(sc, nm, z, y));
                        lemma_ranks_transitive(
                            sc[x],
                            nm[x],
                            sc[z],
                            nm[z],
                            sc[y],
                            nm[y],
                        );
                    }
                } else if a < pos {
                    assert(x == old_p[a] && y == old_p[b]);
                } else {
                    assert(x == old_p[a - 1] && y == old_p[b - 1]);
                }
            }
            assert forall|a: int| 0 <= a < p@.len() implies #[trigger] p@[a] < i + 1 by {
                if a < pos {
                    assert(p@[a] == old_p[a]);
                } else if a > pos {
                    assert(p@[a] == old_p[a - 1]);
                }
            }
        }
        i = i + 1;
    }
    p
}

/// Two sequences are never each before the other.
pub proof fn lemma_lex_asymmetric(a: Seq<char>, b: Seq<char>)
    ensures
        !(lex_lt(a, b) && lex_lt(b, a)),
{
    if lex_lt(a, b) && lex_lt(b, a) {
        lemma_lex_transitive(a, b, a);
        lemma_lex_irreflexive(a);
    }
}

/// No entry comes before itself, and no two entries come each before the other.
pub proof fn lemma_precedes_strict(scores: Seq<int>, names: Seq<Seq<char>>, i: int, j: int)
    ensures
        !precedes(scores, names, i, i),
        !(precedes(scores, names, i, j) && precedes(scores, names, j, i)),
{
    lemma_lex_irreflexive(names[i]);
    lemma_lex_asymmetric(names[i], names[j]);
    if scores[i] == scores[j] && names[i] == names[j] {
        lemma_lex_irreflexive(names[i]);
    }
}

/// A stable ranking lists every entry exactly once.
pub proof fn law_ranking_is_permutation(scores: Seq<int>, names: Seq<Seq<char>>, p: Seq<usize>)
    requires
        is_stable_ranking(scores, names, p),
    ensures
        p.no_duplicates(),
        forall|i: usize| i < scores.len() ==> #[trigger] p.contains(i),
{
    assert forall|a: int, b: int| 0 <= a < p.len() && 0 <= b < p.len() && a != b implies p[a]
        != p[b] by {
        if a < b {
            assert(precedes(scores, names, p[a] as int, p[b] as int));
            lemma_precedes_strict(scores, names, p[a] as int, p[b] as int);
        } else {
            assert(precedes(scores, names, p[b] as int, p[a] as int));
            lemma_precedes_strict(scores, names, p[b] as int, p[a] as int);
        }
    }
    let n = scores.len() as int;
    let ints = p.map_values(|x: usize| x as int);
    assert(ints.no_duplicates()) by {
        assert forall|a: int, b: int| 0 <= a < ints.len() && 0 <= b < ints.len() && a != b implies ints[a]
            != ints[b] by {
            assert(p[a] != p[b]);
        }
    }
    ints.unique_seq_to_set();
    let range = vstd::set_lib::set_int_range(0, n);
    vstd::set_lib::lemma_int_range(0, n);
    assert forall|x: int| ints.to_set().contains(x) implies range.contains(x) by {
        let k = choose|k: int| 0 <= k < ints.len() && ints[k] == x;
        assert(p[k] < scores.len());
    }
    vstd::seq_lib::seq_to_set_is_finite(ints);
    vstd::set_lib::lemma_subset_equality(ints.to_set(), range);
    assert forall|i: usize| i < scores.len() implies #[trigger] p.contains(i) by {
        assert(range.contains(i as int));
        assert(ints.to_set().contains(i as int));
        let k = choose|k: int| 0 <= k < ints.len() && ints[k] == i as int;
        assert(p[k] == i);
    }
}

/// A stable ranking lists higher scores first.
pub proof fn law_ranking_sorted_by_score(scores: Seq<int>, names: Seq<Seq<char>>, p: Seq<usize>, a: int, b: int)
    requires
        is_stable_ranking(scores, names, p),
        0 <= a < b < p.len(),
    ensures
        scores[p[a] as int] >= scores[p[b] as int],
        scores[p[a] as int] == scores[p[b] as int] && names[p[a] as int] == names[p[b] as int]
            ==> p[a] < p[b],
{
    assert(precedes(scores, names, p[a] as int, p[b] as int));
    if scores[p[a] as int] == scores[p[b] as int] && names[p[a] as int] == names[p[b] as int] {
        lemma_lex_irreflexive(names[p[a] as int]);
    }
}

/// The stable ranking of a list is unique: any two orders that both list every
/// entry once by score, then name, then original position, are the same.
pub proof fn law_ranking_unique(
    scores: Seq<int>,
    names: Seq<Seq<char>>,
    p: Seq<usize>,
    q: Seq<usize>,
)
    requires
        is_stable_ranking(scores, names, p),
        is_stable_ranking(scores, names, q),
    ensures
        p == q,
{
    law_ranking_is_permutation(scores, names, p);
    law_ranking_is_permutation(scores, names, q);
    assert forall|a: int| 0 <= a < p.len() implies p[a] == q[a] by {
        lemma_rankings_agree_at(scores, names, p, q, a);
    }
    assert(p =~= q);
}

/// Two stable rankings agree at every position.
proof fn lemma_rankings_agree_at(
    scores: Seq<int>,
    names: Seq<Seq<char>>,
    p: Seq<usize>,
    q: Seq<usize>,
    a: int,
)
    requires
        is_stable_ranking(scores, names, p),
        is_stable_ranking(scores, names, q),
        p.no_duplicates(),
        q.no_duplicates(),
        forall|i: usize| i < scores.len() ==> #[trigger] p.contains(i),
        forall|i: usize| i < scores.len() ==> #[trigger] q.contains(i),
        0 <= a < p.len(),
    ensures
        p[a] == q[a],
    decreases a,
{
    assert forall|c: int| 0 <= c < a implies p[c] == q[c] by {
        lemma_rankings_agree_at(scores, names, p, q, c);
    }
    if p[a] != q[a] {
        let x = p[a];
        let y = q[a];
        assert(q.contains(x));
        let b = choose|b: int| 0 <= b < q.len() && q[b] == x;
        assert(p.contains(y));
        let c = choose|c: int| 0 <= c < p.len() && p[c] == y;
        if b < a {
            assert(p[b] == q[b]);
        }
        if c < a {
            assert(p[c] == q[c]);
        }
        assert(precedes(scores, names, y as int, x as int));
        assert(precedes(scores, names, x as int, y as int));
        lemma_precedes_strict(scores, names, x as int, y as int);
    }
}

} // verus!
