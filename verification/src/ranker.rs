//! The top-K chatter ranker.
//!
//! Given the per-user message counts, `top_k` returns the `k` users with
//! the most messages, descending, without sorting the whole mapping: it
//! keeps a bounded, sorted selection of at most `k` entries and lets each
//! further entry either displace the selection's minimum or pass by.  Its
//! contract states that the outcome is nevertheless exactly the full
//! descending sort of the mapping, truncated to `k`.

use vstd::prelude::*;
use vstd::string::StrSliceExecFns;

use crate::order::insert_desc;
use crate::order::lemma_insert_desc_at;
use crate::order::lemma_insert_desc_len;
use crate::order::lemma_insert_take_beyond;
use crate::order::lemma_insert_take_within;
use crate::order::lemma_ranks_above_total;
use crate::order::lemma_sort_desc_props;
use crate::order::lex_lt;
use crate::order::ranks_above;
use crate::order::sort_desc;
use crate::order::spec_top_k;

verus! {

/// One row of the ranking: a username and how many messages it sent.
#[derive(Clone, Debug)]
pub struct TopChatter {
    pub username: String,
    pub message_count: usize,
}

/// The ranked entry a `TopChatter` stands for.
pub open spec fn chatter_view(t: TopChatter) -> (Seq<char>, nat) {
    (t.username@, t.message_count as nat)
}

pub open spec fn chatter_views(s: Seq<TopChatter>) -> Seq<(Seq<char>, nat)> {
    s.map_values(|t: TopChatter| chatter_view(t))
}

/// The ranked entry a count-table row stands for.
pub open spec fn entry_view(e: (String, usize)) -> (Seq<char>, nat) {
    (e.0@, e.1 as nat)
}

pub open spec fn entry_views(s: Seq<(String, usize)>) -> Seq<(Seq<char>, nat)> {
    s.map_values(|e: (String, usize)| entry_view(e))
}

/// No username occurs twice.
pub open spec fn distinct_names(s: Seq<(Seq<char>, nat)>) -> bool {
    forall|i: int, j: int| 0 <= i < j < s.len() ==> s[i].0 != s[j].0
}

/// Restricting `lex_lt` to equal prefixes: the comparison is decided by
/// what follows them.
proof fn lemma_lex_lt_skip(a: Seq<char>, b: Seq<char>, i: int)
    requires
        0 <= i <= a.len(),
        i <= b.len(),
        forall|j: int| 0 <= j < i ==> a[j] == b[j],
    ensures
        lex_lt(a, b) == lex_lt(a.skip(i), b.skip(i)),
    decreases i,
{
    if i == 0 {
        assert(a.skip(0) =~= a);
        assert(b.skip(0) =~= b);
    } else {
        assert(a[0] == b[0]);
        lemma_lex_lt_skip(a.drop_first(), b.drop_first(), i - 1);
        assert(a.drop_first().skip(i - 1) =~= a.skip(i));
        assert(b.drop_first().skip(i - 1) =~= b.skip(i));
    }
}

/// True when `a` orders lexicographically before `b`.
fn lex_less(a: &String, b: &String) -> (r: bool)
    ensures
        r == lex_lt(a@, b@),
{
    let a_str = a.as_str();
    let b_str = b.as_str();
    let a_len = a_str.unicode_len();
    let b_len = b_str.unicode_len();
    let mut i: usize = 0;
    while i < a_len && i < b_len
        invariant
            i <= a_len,
            i <= b_len,
            a_len == a@.len(),
            b_len == b@.len(),
            a_str@ == a@,
            b_str@ == b@,
            forall|j: int| 0 <= j < i ==> a@[j] == b@[j],
        decreases a_len - i,
    {
        let ca = a_str.get_char(i);
        let cb = b_str.get_char(i);
        if ca != cb {
            proof {
                lemma_lex_lt_skip(a@, b@, i as int);
                assert(a@.skip(i as int)[0] == a@[i as int]);
                assert(b@.skip(i as int)[0] == b@[i as int]);
            }
            return ca < cb;
        }
        i = i + 1;
    }
    proof {
        lemma_lex_lt_skip(a@, b@, i as int);
        if i == a_len && i < b_len {
            assert(a@.skip(i as int).len() == 0);
            assert(b@.skip(i as int).len() > 0);
        }
    }
    a_len < b_len
}

/// True when `a` is ranked strictly above `b`.
fn chatter_outranks(a: &TopChatter, b: &TopChatter) -> (r: bool)
    ensures
        r == ranks_above(chatter_view(*a), chatter_view(*b)),
{
    if a.message_count > b.message_count {
        true
    } else if a.message_count == b.message_count {
        lex_less(&a.username, &b.username)
    } else {
        false
    }
}

/// Inserts `t` into a descending-sorted selection, keeping the order.
fn insert_chatter(sel: &mut Vec<TopChatter>, t: TopChatter)
    ensures
        chatter_views(final(sel)@) == insert_desc(chatter_views(old(sel)@), chatter_view(t)),
{
    let ghost views = chatter_views(sel@);
    let mut p: usize = 0;
    while p < sel.len() && !chatter_outranks(&t, &sel[p])
        invariant
            p <= sel.len(),
            views == chatter_views(sel@),
            forall|j: int| 0 <= j < p ==> !ranks_above(chatter_view(t), views[j]),
        decreases sel.len() - p,
    {
        p = p + 1;
    }
    proof {
        lemma_insert_desc_at(views, chatter_view(t), p as int);
    }
    sel.insert(p, t);
    proof {
        assert(chatter_views(sel@) =~= views.take(p as int) + seq![chatter_view(t)] + views.skip(
            p as int,
        ));
    }
}

/// The `k` users with the most messages, most first; ties order by
/// username.  The result is exactly the full descending sort of the count
/// table, truncated to `k`.
pub fn top_k(entries: &Vec<(String, usize)>, k: usize) -> (r: Vec<TopChatter>)
    requires
        distinct_names(entry_views(entries@)),
    ensures
        chatter_views(r@) == spec_top_k(entry_views(entries@), k as int),
{
    let ghost all = entry_views(entries@);
    let mut sel: Vec<TopChatter> = Vec::new();
    if k == 0 {
        proof {
            lemma_sort_desc_props(all);
            assert(chatter_views(sel@) =~= spec_top_k(all, 0));
        }
        return sel;
    }
    let mut i: usize = 0;
    proof {
        assert(all.take(0) =~= Seq::<(Seq<char>, nat)>::empty());
        assert(chatter_views(sel@) =~= spec_top_k(all.take(0), k as int));
    }
    while i < entries.len()
        invariant
            i <= entries.len(),
            k >= 1,
            all == entry_views(entries@),
            all.len() == entries@.len(),
            distinct_names(all),
            chatter_views(sel@) == spec_top_k(all.take(i as int), k as int),
            sel@.len() == if k <= i {
                k as int
            } else {
                i as int
            },
        decreases entries.len() - i,
    {
        let x = TopChatter { username: entries[i].0.clone(), message_count: entries[i].1 };
        let ghost xv = chatter_view(x);
        let ghost s = all.take(i as int);
        let ghost s2 = all.take(i + 1);
        proof {
            assert(xv == all[i as int]);
            assert(s2.drop_last() =~= s);
            assert(s2.last() == all[i as int]);
            lemma_sort_desc_props(s);
            assert(sort_desc(s2) == insert_desc(sort_desc(s), xv));
        }
        if sel.len() < k {
            // The selection still has room: it is the whole sort so far.
            proof {
                assert(chatter_views(sel@) == sort_desc(s));
            }
            insert_chatter(&mut sel, x);
            proof {
                lemma_insert_desc_len(sort_desc(s), xv);
                if k as int <= i + 1 {
                    assert(sort_desc(s2).take(k as int) =~= sort_desc(s2));
                }
            }
        } else {
            let last_idx = sel.len() - 1;
            let ghost big = sort_desc(s);
            proof {
                assert(chatter_views(sel@) == big.take(k as int));
                assert(chatter_views(sel@)[k - 1] == big[k - 1]);
            }
            if chatter_outranks(&x, &sel[last_idx]) {
                proof {
                    lemma_insert_take_within(big, xv, k as int);
                }
                insert_chatter(&mut sel, x);
                sel.truncate(k);
                proof {
                    lemma_insert_desc_len(big.take(k as int), xv);
                    lemma_insert_desc_len(big, xv);
                    assert(chatter_views(sel@) =~= insert_desc(big.take(k as int), xv).take(
                        k as int,
                    ));
                    assert(sort_desc(s2).take(k as int) == chatter_views(sel@));
                }
            } else {
                proof {
                    let kth = big[k - 1];
                    lemma_ranks_above_total(kth, xv);
                    if kth == xv {
                        assert(s.contains(kth));
                        let m = choose|m: int| 0 <= m < s.len() && s[m] == kth;
                        assert(all[m] == kth);
                        assert(all[m].0 == all[i as int].0);
                        assert(false);
                    }
                    lemma_insert_take_beyond(big, xv, k as int);
                    assert(sort_desc(s2).take(k as int) == chatter_views(sel@));
                }
            }
        }
        i = i + 1;
    }
    proof {
        assert(all.take(entries@.len() as int) =~= all);
    }
    sel
}

} // verus!
