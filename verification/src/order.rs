//! The ranking order on chatter-count entries, and a reference sort.
//!
//! An entry is a pair of username (as a character sequence) and message
//! count.  Entries are ranked by count, descending; entries with equal
//! counts are ordered by username, lexicographically ascending, so that the
//! ranking is deterministic for equal counts.  `sort_desc` is the reference
//! full sort under this order; the ranker's contract states its output
//! equal to a truncation of it.

use vstd::prelude::*;

verus! {

/// Lexicographic order on character sequences, by Unicode scalar value.
pub open spec fn lex_lt(a: Seq<char>, b: Seq<char>) -> bool
    decreases a.len(),
{
    if b.len() == 0 {
        false
    } else if a.len() == 0 {
        true
    } else if a[0] < b[0] {
        true
    } else if a[0] == b[0] {
        lex_lt(a.drop_first(), b.drop_first())
    } else {
        false
    }
}

/// `a` is ranked strictly above `b`: more messages, or the same number of
/// messages and a lexicographically earlier username.
pub open spec fn ranks_above(a: (Seq<char>, nat), b: (Seq<char>, nat)) -> bool {
    a.1 > b.1 || (a.1 == b.1 && lex_lt(a.0, b.0))
}

/// No later element is ranked above an earlier one.
pub open spec fn sorted_desc(s: Seq<(Seq<char>, nat)>) -> bool {
    forall|i: int, j: int| 0 <= i < j < s.len() ==> !ranks_above(s[j], s[i])
}

/// Inserts `x` into a descending-sorted sequence, keeping the order.
pub open spec fn insert_desc(s: Seq<(Seq<char>, nat)>, x: (Seq<char>, nat)) -> Seq<
    (Seq<char>, nat),
>
    decreases s.len(),
{
    if s.len() == 0 {
        seq![x]
    } else if ranks_above(x, s.first()) {
        seq![x] + s
    } else {
        seq![s.first()] + insert_desc(s.drop_first(), x)
    }
}

/// The full sort of `s`, descending under `ranks_above`.
pub open spec fn sort_desc(s: Seq<(Seq<char>, nat)>) -> Seq<(Seq<char>, nat)>
    decreases s.len(),
{
    if s.len() == 0 {
        Seq::<(Seq<char>, nat)>::empty()
    } else {
        insert_desc(sort_desc(s.drop_last()), s.last())
    }
}

/// The `k` highest-ranked entries of `s`, descending: the full sort,
/// truncated to `k` (or everything, when `s` has at most `k` entries).
pub open spec fn spec_top_k(s: Seq<(Seq<char>, nat)>, k: int) -> Seq<(Seq<char>, nat)> {
    if k <= s.len() {
        sort_desc(s).take(k)
    } else {
        sort_desc(s)
    }
}

pub proof fn lemma_lex_lt_asym(a: Seq<char>, b: Seq<char>)
    requires
        lex_lt(a, b),
    ensures
        !lex_lt(b, a),
    decreases a.len(),
{
    if a.len() > 0 && b.len() > 0 && a[0] == b[0] {
        lemma_lex_lt_asym(a.drop_first(), b.drop_first());
    }
}

pub proof fn lemma_lex_lt_trans(a: Seq<char>, b: Seq<char>, c: Seq<char>)
    requires
        lex_lt(a, b),
        lex_lt(b, c),
    ensures
        lex_lt(a, c),
    decreases a.len(),
{
    if a.len() > 0 && b.len() > 0 && a[0] == b[0] && b[0] == c[0] {
        lemma_lex_lt_trans(a.drop_first(), b.drop_first(), c.drop_first());
    }
}

pub proof fn lemma_lex_lt_total(a: Seq<char>, b: Seq<char>)
    ensures
        lex_lt(a, b) || lex_lt(b, a) || a == b,
    decreases a.len(),
{
    if a.len() == 0 && b.len() == 0 {
        assert(a =~= b);
    } else if a.len() > 0 && b.len() > 0 {
        if a[0] == b[0] {
            lemma_lex_lt_total(a.drop_first(), b.drop_first());
            if a.drop_first() == b.drop_first() {
                assert(a =~= seq![a[0]] + a.drop_first());
                assert(b =~= seq![b[0]] + b.drop_first());
            }
        }
    }
}

pub proof fn lemma_ranks_above_asym(a: (Seq<char>, nat), b: (Seq<char>, nat))
    requires
        ranks_above(a, b),
    ensures
        !ranks_above(b, a),
{
    if a.1 == b.1 {
        lemma_lex_lt_asym(a.0, b.0);
    }
}

pub proof fn lemma_ranks_above_trans(
    a: (Seq<char>, nat),
    b: (Seq<char>, nat),
    c: (Seq<char>, nat),
)
    requires
        ranks_above(a, b),
        ranks_above(b, c),
    ensures
        ranks_above(a, c),
{
    if a.1 == b.1 && b.1 == c.1 {
        lemma_lex_lt_trans(a.0, b.0, c.0);
    }
}

pub proof fn lemma_ranks_above_total(a: (Seq<char>, nat), b: (Seq<char>, nat))
    ensures
        ranks_above(a, b) || ranks_above(b, a) || a == b,
{
    if a.1 == b.1 {
        lemma_lex_lt_total(a.0, b.0);
    }
}

pub proof fn lemma_insert_desc_len(s: Seq<(Seq<char>, nat)>, x: (Seq<char>, nat))
    ensures
        insert_desc(s, x).len() == s.len() + 1,
    decreases s.len(),
{
    if s.len() > 0 && !ranks_above(x, s.first()) {
        lemma_insert_desc_len(s.drop_first(), x);
    }
}

/// Where `x` lands in a sorted sequence: before the first element it
/// outranks, after every element it does not.
pub proof fn lemma_insert_desc_at(s: Seq<(Seq<char>, nat)>, x: (Seq<char>, nat), p: int)
    requires
        0 <= p <= s.len(),
        forall|j: int| 0 <= j < p ==> !ranks_above(x, s[j]),
        p < s.len() ==> ranks_above(x, s[p]),
    ensures
        insert_desc(s, x) == s.take(p) + seq![x] + s.skip(p),
    decreases s.len(),
{
    if s.len() == 0 {
        assert(insert_desc(s, x) =~= s.take(p) + seq![x] + s.skip(p));
    } else if p == 0 {
        assert(insert_desc(s, x) =~= s.take(0) + seq![x] + s.skip(0));
    } else {
        lemma_insert_desc_at(s.drop_first(), x, p - 1);
        assert(s.drop_first().take(p - 1) =~= s.take(p).drop_first());
        assert(s.drop_first().skip(p - 1) =~= s.skip(p));
        assert(insert_desc(s, x) =~= s.take(p) + seq![x] + s.skip(p));
    }
}

/// Inserting grows the sequence by one, adds no element but `x`, and
/// preserves descending sortedness.
pub proof fn lemma_insert_desc_props(s: Seq<(Seq<char>, nat)>, x: (Seq<char>, nat))
    ensures
        insert_desc(s, x).len() == s.len() + 1,
        forall|j: int|
            0 <= j < s.len() + 1 ==> (#[trigger] insert_desc(s, x)[j] == x || s.contains(
                insert_desc(s, x)[j],
            )),
        sorted_desc(s) ==> sorted_desc(insert_desc(s, x)),
    decreases s.len(),
{
    if s.len() == 0 {
    } else if ranks_above(x, s.first()) {
        let r = seq![x] + s;
        assert forall|j: int| 0 <= j < s.len() + 1 implies (#[trigger] r[j] == x || s.contains(
            r[j],
        )) by {
            if j > 0 {
                assert(r[j] == s[j - 1]);
            }
        }
        if sorted_desc(s) {
            assert forall|i: int, j: int| 0 <= i < j < r.len() implies !ranks_above(r[j], r[i]) by {
                if i == 0 {
                    let y = s[j - 1];
                    if ranks_above(y, x) {
                        lemma_ranks_above_trans(y, x, s[0]);
                        if j - 1 == 0 {
                            lemma_ranks_above_asym(y, s[0]);
                        } else {
                            assert(!ranks_above(s[j - 1], s[0]));
                        }
                        assert(false);
                    }
                }
            }
        }
    } else {
        let s1 = s.drop_first();
        lemma_insert_desc_props(s1, x);
        let ri = insert_desc(s1, x);
        let r = seq![s.first()] + ri;
        assert forall|j: int| 0 <= j < s.len() + 1 implies (#[trigger] r[j] == x || s.contains(
            r[j],
        )) by {
            if j == 0 {
                assert(s.contains(s[0]));
            } else {
                assert(r[j] == ri[j - 1]);
                if ri[j - 1] != x {
                    let m = choose|m: int| 0 <= m < s1.len() && s1[m] == ri[j - 1];
                    assert(s[m + 1] == s1[m]);
                }
            }
        }
        if sorted_desc(s) {
            assert(sorted_desc(s1)) by {
                assert forall|i: int, j: int| 0 <= i < j < s1.len() implies !ranks_above(
                    s1[j],
                    s1[i],
                ) by {
                    assert(s1[j] == s[j + 1] && s1[i] == s[i + 1]);
                }
            }
            assert forall|i: int, j: int| 0 <= i < j < r.len() implies !ranks_above(r[j], r[i]) by {
                if i == 0 {
                    assert(r[j] == ri[j - 1]);
                    if ri[j - 1] == x {
                        assert(!ranks_above(x, s.first()));
                    } else {
                        let m = choose|m: int| 0 <= m < s1.len() && s1[m] == ri[j - 1];
                        assert(s1[m] == s[m + 1]);
                        assert(!ranks_above(s[m + 1], s[0]));
                    }
                } else {
                    assert(r[j] == ri[j - 1] && r[i] == ri[i - 1]);
                }
            }
        }
    }
}

/// The sort keeps the length and draws every element from `s`.
pub proof fn lemma_sort_desc_props(s: Seq<(Seq<char>, nat)>)
    ensures
        sort_desc(s).len() == s.len(),
        sorted_desc(sort_desc(s)),
        forall|j: int| 0 <= j < s.len() ==> s.contains(#[trigger] sort_desc(s)[j]),
    decreases s.len(),
{
    if s.len() > 0 {
        let s0 = s.drop_last();
        lemma_sort_desc_props(s0);
        lemma_insert_desc_props(sort_desc(s0), s.last());
        assert forall|j: int| 0 <= j < s.len() implies s.contains(#[trigger] sort_desc(s)[j]) by {
            let y = sort_desc(s)[j];
            if y == s.last() {
                assert(s[s.len() - 1] == s.last());
            } else {
                assert(sort_desc(s0).contains(y));
                let m = choose|m: int| 0 <= m < sort_desc(s0).len() && sort_desc(s0)[m] == y;
                assert(s0.contains(y));
                let m2 = choose|m2: int| 0 <= m2 < s0.len() && s0[m2] == y;
                assert(s[m2] == y);
            }
        }
    }
}

/// When `x` outranks the `k`-th entry, only the first `k` entries matter:
/// inserting into the whole sequence and inserting into its `k`-prefix give
/// the same `k`-prefix.
pub proof fn lemma_insert_take_within(s: Seq<(Seq<char>, nat)>, x: (Seq<char>, nat), k: int)
    requires
        sorted_desc(s),
        1 <= k <= s.len(),
        ranks_above(x, s[k - 1]),
    ensures
        insert_desc(s, x).take(k) == insert_desc(s.take(k), x).take(k),
    decreases k,
{
    let t = s.take(k);
    if ranks_above(x, s.first()) {
        assert(t.first() == s.first());
        assert(insert_desc(s, x).take(k) =~= seq![x] + s.take(k - 1));
        assert((seq![x] + t).take(k) =~= seq![x] + s.take(k - 1));
    } else {
        assert(k >= 2) by {
            if k == 1 {
                assert(ranks_above(x, s[0]));
            }
        }
        let s1 = s.drop_first();
        assert(sorted_desc(s1)) by {
            assert forall|i: int, j: int| 0 <= i < j < s1.len() implies !ranks_above(
                s1[j],
                s1[i],
            ) by {
                assert(s1[j] == s[j + 1] && s1[i] == s[i + 1]);
            }
        }
        assert(s1[k - 2] == s[k - 1]);
        lemma_insert_take_within(s1, x, k - 1);
        lemma_insert_desc_len(s1, x);
        lemma_insert_desc_len(s1.take(k - 1), x);
        assert(t.first() == s.first());
        assert(t.drop_first() =~= s1.take(k - 1));
        assert(insert_desc(s, x).take(k) =~= seq![s.first()] + insert_desc(s1, x).take(k - 1));
        assert(insert_desc(t, x).take(k) =~= seq![s.first()] + insert_desc(
            s1.take(k - 1),
            x,
        ).take(k - 1));
    }
}

/// When the `k`-th entry outranks `x`, the insertion happens past the
/// `k`-prefix, which is unchanged.
pub proof fn lemma_insert_take_beyond(s: Seq<(Seq<char>, nat)>, x: (Seq<char>, nat), k: int)
    requires
        sorted_desc(s),
        1 <= k <= s.len(),
        ranks_above(s[k - 1], x),
    ensures
        insert_desc(s, x).take(k) == s.take(k),
    decreases k,
{
    if ranks_above(x, s.first()) {
        if k == 1 {
            lemma_ranks_above_asym(s[0], x);
        } else {
            lemma_ranks_above_total(s[k - 1], s[0]);
            if s[k - 1] == s[0] {
                lemma_ranks_above_asym(s[0], x);
            } else {
                assert(!ranks_above(s[k - 1], s[0]));
                lemma_ranks_above_trans(x, s[0], s[k - 1]);
                lemma_ranks_above_asym(s[k - 1], x);
            }
        }
        assert(false);
    } else {
        let s1 = s.drop_first();
        if k == 1 {
            assert(insert_desc(s, x).take(1) =~= s.take(1));
        } else {
            assert(sorted_desc(s1)) by {
                assert forall|i: int, j: int| 0 <= i < j < s1.len() implies !ranks_above(
                    s1[j],
                    s1[i],
                ) by {
                    assert(s1[j] == s[j + 1] && s1[i] == s[i + 1]);
                }
            }
            assert(s1[k - 2] == s[k - 1]);
            lemma_insert_take_beyond(s1, x, k - 1);
            lemma_insert_desc_len(s1, x);
            assert(insert_desc(s, x).take(k) =~= seq![s.first()] + insert_desc(s1, x).take(k - 1));
            assert(s.take(k) =~= seq![s.first()] + s1.take(k - 1));
        }
    }
}

} // verus!
