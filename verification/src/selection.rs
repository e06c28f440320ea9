//! Deterministic coin selection.
//!
//! Coins are sorted by amount, largest first, with a *stable* order on equal
//! amounts, and the selection is the shortest prefix of that order whose
//! amounts cover the target. The mathematical model is `sort_desc` (a stable
//! descending insertion sort) together with `greedy_count` /
//! `greedy_remaining` (the greedy walk); `select_coins` is proved to return
//! exactly that selection.

use vstd::prelude::*;

use crate::model::FestivusError;
use crate::model::FestivusUtxo;
use crate::model::SelectionResult;

verus! {

/// Sum of the coins' amounts, as an unbounded integer.
pub open spec fn sum_amounts(s: Seq<FestivusUtxo>) -> int
    decreases s.len(),
{
    if s.len() == 0 {
        0
    } else {
        s.first().amount_sat + sum_amounts(s.drop_first())
    }
}

/// Every coin carries a non-negative amount.
pub open spec fn nonnegative_amounts(s: Seq<FestivusUtxo>) -> bool {
    forall|i: int| 0 <= i < s.len() ==> (#[trigger] s[i]).amount_sat >= 0
}

/// Amounts never increase along the sequence.
pub open spec fn sorted_desc(s: Seq<FestivusUtxo>) -> bool {
    forall|i: int, j: int| 0 <= i < j < s.len() ==> s[i].amount_sat >= s[j].amount_sat
}

/// Insertion of `c` into a descending-sorted sequence: `c` goes after every
/// element of amount greater than or equal to its own, which keeps the
/// original relative order of equal amounts.
pub open spec fn insert_desc(s: Seq<FestivusUtxo>, c: FestivusUtxo) -> Seq<FestivusUtxo>
    decreases s.len(),
{
    if s.len() == 0 {
        seq![c]
    } else if s.first().amount_sat >= c.amount_sat {
        seq![s.first()] + insert_desc(s.drop_first(), c)
    } else {
        seq![c] + s
    }
}

/// Stable descending sort by amount: insertion sort from the left.
pub open spec fn sort_desc(s: Seq<FestivusUtxo>) -> Seq<FestivusUtxo>
    decreases s.len(),
{
    if s.len() == 0 {
        Seq::empty()
    } else {
        insert_desc(sort_desc(s.drop_last()), s.last())
    }
}

/// How many coins the greedy walk takes from `s` when `remaining` is still
/// to be covered: coins are taken from the front while the running remainder
/// stays positive.
pub open spec fn greedy_count(s: Seq<FestivusUtxo>, remaining: int) -> int
    decreases s.len(),
{
    if s.len() == 0 || remaining <= 0 {
        0
    } else {
        1 + greedy_count(s.drop_first(), remaining - s.first().amount_sat)
    }
}

/// The remainder left after the greedy walk over `s`.
pub open spec fn greedy_remaining(s: Seq<FestivusUtxo>, remaining: int) -> int
    decreases s.len(),
{
    if s.len() == 0 || remaining <= 0 {
        remaining
    } else {
        greedy_remaining(s.drop_first(), remaining - s.first().amount_sat)
    }
}

/// The selection: the greedy prefix of the stable-sorted coin sequence.
pub open spec fn spec_selected(coins: Seq<FestivusUtxo>, target: int) -> Seq<FestivusUtxo> {
    sort_desc(coins).take(greedy_count(sort_desc(coins), target))
}

/// The predicate "this coin's amount is exactly `a`", used to state
/// stability over `Seq::filter`.
pub open spec fn amount_filter(a: i64) -> spec_fn(FestivusUtxo) -> bool {
    |c: FestivusUtxo| c.amount_sat == a
}

// ---------- lemmas about sums ----------

proof fn lemma_sum_cons(x: FestivusUtxo, t: Seq<FestivusUtxo>)
    ensures
        sum_amounts(seq![x] + t) == x.amount_sat + sum_amounts(t),
{
    let u = seq![x] + t;
    assert(u.first() == x);
    assert(u.drop_first() =~= t);
}

proof fn lemma_sum_drop_last(s: Seq<FestivusUtxo>)
    requires
        s.len() > 0,
    ensures
        sum_amounts(s) == sum_amounts(s.drop_last()) + s.last().amount_sat,
    decreases s.len(),
{
    if s.len() == 1 {
        assert(s.drop_first() =~= Seq::empty());
        assert(s.drop_last() =~= Seq::empty());
    } else {
        lemma_sum_drop_last(s.drop_first());
        assert(s.drop_first().drop_last() =~= s.drop_last().drop_first());
        assert(s.drop_last().first() == s.first());
        assert(s.drop_first().last() == s.last());
    }
}

// ---------- lemmas about insert_desc and sort_desc ----------

proof fn lemma_insert_desc_len(s: Seq<FestivusUtxo>, c: FestivusUtxo)
    ensures
        insert_desc(s, c).len() == s.len() + 1,
    decreases s.len(),
{
    if s.len() > 0 && s.first().amount_sat >= c.amount_sat {
        lemma_insert_desc_len(s.drop_first(), c);
    }
}

/// Every element of the insertion result is either `c` or an element of `s`.
proof fn lemma_insert_desc_elements(s: Seq<FestivusUtxo>, c: FestivusUtxo)
    ensures
        forall|i: int|
            0 <= i < insert_desc(s, c).len() ==> #[trigger] insert_desc(s, c)[i] == c
                || s.contains(insert_desc(s, c)[i]),
    decreases s.len(),
{
    if s.len() > 0 && s.first().amount_sat >= c.amount_sat {
        lemma_insert_desc_elements(s.drop_first(), c);
        let r = insert_desc(s, c);
        let rt = insert_desc(s.drop_first(), c);
        assert forall|i: int| 0 <= i < r.len() implies #[trigger] r[i] == c || s.contains(r[i]) by {
            if i == 0 {
                assert(s.contains(s.first())) by { assert(s[0] == s.first()); }
            } else {
                assert(r[i] == rt[i - 1]);
                if rt[i - 1] != c {
                    let j = choose|j: int| 0 <= j < s.drop_first().len() && s.drop_first()[j] == rt[i - 1];
                    assert(s[j + 1] == rt[i - 1]);
                }
            }
        }
    }
}

proof fn lemma_insert_desc_sorted(s: Seq<FestivusUtxo>, c: FestivusUtxo)
    requires
        sorted_desc(s),
    ensures
        sorted_desc(insert_desc(s, c)),
    decreases s.len(),
{
    if s.len() == 0 {
    } else if s.first().amount_sat >= c.amount_sat {
        assert(sorted_desc(s.drop_first())) by {
            assert(forall|i: int, j: int|
                0 <= i < j < s.drop_first().len() ==> s.drop_first()[i] == s[i + 1]
                    && s.drop_first()[j] == s[j + 1]);
        }
        lemma_insert_desc_sorted(s.drop_first(), c);
        lemma_insert_desc_elements(s.drop_first(), c);
        let r = insert_desc(s, c);
        let rt = insert_desc(s.drop_first(), c);
        assert forall|i: int, j: int| 0 <= i < j < r.len() implies r[i].amount_sat
            >= r[j].amount_sat by {
            if i == 0 {
                assert(r[j] == rt[j - 1]);
                if rt[j - 1] == c {
                } else {
                    let k = choose|k: int|
                        0 <= k < s.drop_first().len() && s.drop_first()[k] == rt[j - 1];
                    assert(s[k + 1] == rt[j - 1]);
                    assert(s[0].amount_sat >= s[k + 1].amount_sat);
                }
            } else {
                assert(r[i] == rt[i - 1] && r[j] == rt[j - 1]);
            }
        }
    } else {
        let r = insert_desc(s, c);
        assert forall|i: int, j: int| 0 <= i < j < r.len() implies r[i].amount_sat
            >= r[j].amount_sat by {
            if i == 0 {
                assert(r[j] == s[j - 1]);
                if j - 1 > 0 {
                    assert(s[0].amount_sat >= s[j - 1].amount_sat);
                }
            } else {
                assert(r[i] == s[i - 1] && r[j] == s[j - 1]);
            }
        }
    }
}

proof fn lemma_insert_desc_sum(s: Seq<FestivusUtxo>, c: FestivusUtxo)
    ensures
        sum_amounts(insert_desc(s, c)) == sum_amounts(s) + c.amount_sat,
    decreases s.len(),
{
    if s.len() == 0 {
        lemma_sum_cons(c, Seq::empty());
        assert(seq![c] + Seq::<FestivusUtxo>::empty() =~= seq![c]);
    } else if s.first().amount_sat >= c.amount_sat {
        lemma_insert_desc_sum(s.drop_first(), c);
        lemma_sum_cons(s.first(), insert_desc(s.drop_first(), c));
        lemma_sum_cons(s.first(), s.drop_first());
        assert(seq![s.first()] + s.drop_first() =~= s);
    } else {
        lemma_sum_cons(c, s);
    }
}

proof fn lemma_insert_desc_nonneg(s: Seq<FestivusUtxo>, c: FestivusUtxo)
    requires
        nonnegative_amounts(s),
        c.amount_sat >= 0,
    ensures
        nonnegative_amounts(insert_desc(s, c)),
{
    lemma_insert_desc_elements(s, c);
    let r = insert_desc(s, c);
    assert forall|i: int| 0 <= i < r.len() implies (#[trigger] r[i]).amount_sat >= 0 by {
        if r[i] != c {
            let j = choose|j: int| 0 <= j < s.len() && s[j] == r[i];
            assert(s[j].amount_sat >= 0);
        }
    }
}

pub proof fn lemma_sort_desc_len(s: Seq<FestivusUtxo>)
    ensures
        sort_desc(s).len() == s.len(),
    decreases s.len(),
{
    if s.len() > 0 {
        lemma_sort_desc_len(s.drop_last());
        lemma_insert_desc_len(sort_desc(s.drop_last()), s.last());
    }
}

/// Law: the selection order is sorted, largest amount first.
pub proof fn lemma_sort_desc_sorted(s: Seq<FestivusUtxo>)
    ensures
        sorted_desc(sort_desc(s)),
    decreases s.len(),
{
    if s.len() > 0 {
        lemma_sort_desc_sorted(s.drop_last());
        lemma_insert_desc_sorted(sort_desc(s.drop_last()), s.last());
    }
}

/// Sorting does not change the total amount.
pub proof fn lemma_sort_desc_sum(s: Seq<FestivusUtxo>)
    ensures
        sum_amounts(sort_desc(s)) == sum_amounts(s),
    decreases s.len(),
{
    if s.len() > 0 {
        lemma_sort_desc_sum(s.drop_last());
        lemma_insert_desc_sum(sort_desc(s.drop_last()), s.last());
        lemma_sum_drop_last(s);
    }
}

pub proof fn lemma_sort_desc_nonneg(s: Seq<FestivusUtxo>)
    requires
        nonnegative_amounts(s),
    ensures
        nonnegative_amounts(sort_desc(s)),
    decreases s.len(),
{
    if s.len() > 0 {
        assert(nonnegative_amounts(s.drop_last())) by {
            assert(forall|i: int| 0 <= i < s.drop_last().len() ==> s.drop_last()[i] == s[i]);
        }
        lemma_sort_desc_nonneg(s.drop_last());
        assert(s.last().amount_sat >= 0);
        lemma_insert_desc_nonneg(sort_desc(s.drop_last()), s.last());
    }
}

// ---------- lemmas about the greedy walk ----------

pub proof fn lemma_greedy_count_le_len(s: Seq<FestivusUtxo>, remaining: int)
    ensures
        0 <= greedy_count(s, remaining) <= s.len(),
    decreases s.len(),
{
    if s.len() > 0 && remaining > 0 {
        lemma_greedy_count_le_len(s.drop_first(), remaining - s.first().amount_sat);
    }
}

/// The remainder the greedy walk reports is the target minus the sum of the
/// coins it took.
proof fn lemma_greedy_remaining_sum(s: Seq<FestivusUtxo>, remaining: int)
    ensures
        greedy_remaining(s, remaining) == remaining - sum_amounts(
            s.take(greedy_count(s, remaining)),
        ),
    decreases s.len(),
{
    if s.len() == 0 || remaining <= 0 {
        assert(s.take(0) =~= Seq::empty());
    } else {
        let t = s.drop_first();
        let r2 = remaining - s.first().amount_sat;
        lemma_greedy_remaining_sum(t, r2);
        lemma_greedy_count_le_len(t, r2);
        let k2 = greedy_count(t, r2);
        assert(s.take(1 + k2) =~= seq![s.first()] + t.take(k2));
        lemma_sum_cons(s.first(), t.take(k2));
    }
}

/// The greedy walk ends short exactly when the coins cannot cover the target.
proof fn lemma_greedy_shortfall(s: Seq<FestivusUtxo>, remaining: int)
    requires
        nonnegative_amounts(s),
    ensures
        greedy_remaining(s, remaining) > 0 <==> remaining - sum_amounts(s) > 0,
        greedy_remaining(s, remaining) <= remaining,
    decreases s.len(),
{
    if s.len() == 0 || remaining <= 0 {
        if s.len() > 0 {
            lemma_sum_nonneg(s);
        }
    } else {
        let t = s.drop_first();
        assert(nonnegative_amounts(t)) by {
            assert(forall|i: int| 0 <= i < t.len() ==> t[i] == s[i + 1]);
        }
        lemma_greedy_shortfall(t, remaining - s.first().amount_sat);
    }
}

proof fn lemma_sum_nonneg(s: Seq<FestivusUtxo>)
    requires
        nonnegative_amounts(s),
    ensures
        sum_amounts(s) >= 0,
    decreases s.len(),
{
    if s.len() > 0 {
        assert(s.first().amount_sat >= 0) by { assert(s[0] == s.first()); }
        assert(nonnegative_amounts(s.drop_first())) by {
            assert(forall|i: int|
                0 <= i < s.drop_first().len() ==> s.drop_first()[i] == s[i + 1]);
        }
        lemma_sum_nonneg(s.drop_first());
    }
}

/// Minimality of the greedy prefix: the walk only took a coin while the
/// remainder was still positive, so without its last coin the selection
/// falls short of the target.
proof fn lemma_greedy_minimal(s: Seq<FestivusUtxo>, remaining: int)
    ensures
        greedy_count(s, remaining) > 0 ==> remaining - sum_amounts(
            s.take(greedy_count(s, remaining) - 1),
        ) > 0,
    decreases s.len(),
{
    if s.len() > 0 && remaining > 0 {
        let t = s.drop_first();
        let r2 = remaining - s.first().amount_sat;
        lemma_greedy_minimal(t, r2);
        let k2 = greedy_count(t, r2);
        lemma_greedy_count_le_len(t, r2);
        if k2 == 0 {
            assert(s.take(0) =~= Seq::empty());
        } else {
            assert(s.take(k2) =~= seq![s.first()] + t.take(k2 - 1));
            lemma_sum_cons(s.first(), t.take(k2 - 1));
        }
    }
}

// ---------- the insertion position ----------

/// Where `p` is the first position whose amount is below `c`'s, inserting at
/// `p` realizes `insert_desc`.
proof fn lemma_insert_desc_at(s: Seq<FestivusUtxo>, c: FestivusUtxo, p: int)
    requires
        0 <= p <= s.len(),
        forall|i: int| 0 <= i < p ==> (#[trigger] s[i]).amount_sat >= c.amount_sat,
        p < s.len() ==> s[p].amount_sat < c.amount_sat,
    ensures
        insert_desc(s, c) == s.insert(p, c),
    decreases s.len(),
{
    if p == 0 {
        if s.len() == 0 {
            assert(insert_desc(s, c) =~= s.insert(0, c));
        } else {
            assert(s[0] == s.first());
            assert(seq![c] + s =~= s.insert(0, c));
        }
    } else {
        assert(s[0] == s.first());
        let t = s.drop_first();
        assert(forall|i: int| 0 <= i < p - 1 ==> (#[trigger] t[i]).amount_sat >= c.amount_sat)
            by {
            assert(forall|i: int| 0 <= i < t.len() ==> t[i] == s[i + 1]);
        }
        assert(p - 1 < t.len() ==> t[p - 1].amount_sat < c.amount_sat) by {
            assert(forall|i: int| 0 <= i < t.len() ==> t[i] == s[i + 1]);
        }
        lemma_insert_desc_at(t, c, p - 1);
        assert(seq![s.first()] + t.insert(p - 1, c) =~= s.insert(p, c));
    }
}

// ---------- stability: equal amounts keep their input order ----------

proof fn lemma_filter_empty(pred: spec_fn(FestivusUtxo) -> bool)
    ensures
        Seq::<FestivusUtxo>::empty().filter(pred) == Seq::<FestivusUtxo>::empty(),
{
    reveal(Seq::filter);
}

proof fn lemma_filter_singleton(x: FestivusUtxo, pred: spec_fn(FestivusUtxo) -> bool)
    ensures
        seq![x].filter(pred) == if pred(x) {
            seq![x]
        } else {
            Seq::<FestivusUtxo>::empty()
        },
{
    reveal(Seq::filter);
    assert(seq![x].drop_last() =~= Seq::<FestivusUtxo>::empty());
    lemma_filter_empty(pred);
    assert(Seq::<FestivusUtxo>::empty().push(x) =~= seq![x]);
}

proof fn lemma_filter_none_match(s: Seq<FestivusUtxo>, a: i64)
    requires
        forall|i: int| 0 <= i < s.len() ==> (#[trigger] s[i]).amount_sat != a,
    ensures
        s.filter(amount_filter(a)) == Seq::<FestivusUtxo>::empty(),
    decreases s.len(),
{
    reveal(Seq::filter);
    if s.len() > 0 {
        assert(forall|i: int|
            0 <= i < s.drop_last().len() ==> s.drop_last()[i] == s[i]);
        lemma_filter_none_match(s.drop_last(), a);
        assert(!amount_filter(a)(s.last()));
    }
}

/// Inserting `c` appends it to the equal-amount subsequence and leaves every
/// other amount's subsequence untouched.
proof fn lemma_insert_desc_filter(s: Seq<FestivusUtxo>, c: FestivusUtxo, a: i64)
    requires
        sorted_desc(s),
    ensures
        insert_desc(s, c).filter(amount_filter(a)) == if c.amount_sat == a {
            s.filter(amount_filter(a)).push(c)
        } else {
            s.filter(amount_filter(a))
        },
    decreases s.len(),
{
    let pred = amount_filter(a);
    if s.len() == 0 {
        lemma_filter_singleton(c, pred);
        lemma_filter_empty(pred);
        if c.amount_sat == a {
            assert(Seq::<FestivusUtxo>::empty().push(c) =~= seq![c]);
        }
    } else if s.first().amount_sat >= c.amount_sat {
        let t = s.drop_first();
        assert(sorted_desc(t)) by {
            assert(forall|i: int| 0 <= i < t.len() ==> t[i] == s[i + 1]);
        }
        lemma_insert_desc_filter(t, c, a);
        Seq::filter_distributes_over_add(seq![s.first()], insert_desc(t, c), pred);
        assert(seq![s.first()] + t =~= s);
        Seq::filter_distributes_over_add(seq![s.first()], t, pred);
        lemma_filter_singleton(s.first(), pred);
        if c.amount_sat == a {
            assert(seq![s.first()].filter(pred) + t.filter(pred).push(c) =~= (seq![
                s.first(),
            ].filter(pred) + t.filter(pred)).push(c));
        }
    } else {
        Seq::filter_distributes_over_add(seq![c], s, pred);
        lemma_filter_singleton(c, pred);
        if c.amount_sat == a {
            assert(forall|i: int| 0 <= i < s.len() ==> (#[trigger] s[i]).amount_sat != a) by {
                assert(forall|i: int|
                    0 < i < s.len() ==> s[0].amount_sat >= (#[trigger] s[i]).amount_sat);
                assert(s[0] == s.first());
            }
            lemma_filter_none_match(s, a);
            assert(seq![c] + Seq::<FestivusUtxo>::empty() =~= Seq::<
                FestivusUtxo,
            >::empty().push(c));
        } else {
            assert(Seq::<FestivusUtxo>::empty() + s.filter(pred) =~= s.filter(pred));
        }
    }
}

/// Law: sorting is stable. For every amount `a`, the coins of amount `a`
/// appear in `sort_desc(s)` exactly as they appear in `s`.
pub proof fn lemma_sort_desc_stable(s: Seq<FestivusUtxo>, a: i64)
    ensures
        sort_desc(s).filter(amount_filter(a)) == s.filter(amount_filter(a)),
    decreases s.len(),
{
    if s.len() == 0 {
    } else {
        let dl = s.drop_last();
        lemma_sort_desc_stable(dl, a);
        lemma_sort_desc_sorted(dl);
        lemma_insert_desc_filter(sort_desc(dl), s.last(), a);
        reveal(Seq::filter);
    }
}

/// Law: the selection is stable. For every amount `a`, the selected coins of
/// amount `a` are an initial run of the input's coins of amount `a`, in the
/// input's order.
pub proof fn lemma_selection_stable(coins: Seq<FestivusUtxo>, target: int, a: i64)
    ensures
        spec_selected(coins, target).filter(amount_filter(a)).is_prefix_of(
            coins.filter(amount_filter(a)),
        ),
{
    let pred = amount_filter(a);
    let ss = sort_desc(coins);
    let k = greedy_count(ss, target);
    lemma_greedy_count_le_len(ss, target);
    assert(ss =~= ss.take(k) + ss.skip(k));
    Seq::filter_distributes_over_add(ss.take(k), ss.skip(k), pred);
    lemma_sort_desc_stable(coins, a);
    let fsel = ss.take(k).filter(pred);
    let fall = coins.filter(pred);
    assert(fall =~= fsel + ss.skip(k).filter(pred));
    assert(fsel =~= fall.subrange(0, fsel.len() as int));
}

/// Law: on success the selection covers the target, and it is minimal in the
/// greedy sense: without its last coin it would fall short.
pub proof fn lemma_selection_covers(coins: Seq<FestivusUtxo>, target: int)
    requires
        nonnegative_amounts(coins),
        sum_amounts(coins) >= target,
    ensures
        sum_amounts(spec_selected(coins, target)) >= target,
        spec_selected(coins, target).len() > 0 ==> sum_amounts(
            spec_selected(coins, target).drop_last(),
        ) < target,
{
    let ss = sort_desc(coins);
    let k = greedy_count(ss, target);
    lemma_sort_desc_nonneg(coins);
    lemma_sort_desc_sum(coins);
    lemma_greedy_count_le_len(ss, target);
    lemma_greedy_remaining_sum(ss, target);
    lemma_greedy_shortfall(ss, target);
    lemma_greedy_minimal(ss, target);
    if k > 0 {
        assert(ss.take(k).drop_last() =~= ss.take(k - 1));
    }
}

// ---------- the selector ----------

/// Picks the coins that fund the target amount.
///
/// The coins are sorted by amount, largest first and stable on equal
/// amounts, and the walk takes coins from the front while the target is not
/// yet covered. Fails with `NotEnoughBitcoin` exactly when the coins' total
/// falls short of the target; no other failure exists.
pub fn select_coins(coins: Vec<FestivusUtxo>, target: i64) -> (r: Result<
    SelectionResult,
    FestivusError,
>)
    requires
        target >= 0,
        nonnegative_amounts(coins@),
    ensures
        r is Ok <==> sum_amounts(coins@) >= target,
        r matches Ok(sel) ==> {
            &&& sel.coins@ == spec_selected(coins@, target as int)
            &&& sel.remaining == greedy_remaining(sort_desc(coins@), target as int)
            &&& sel.remaining == target - sum_amounts(sel.coins@)
            &&& sel.remaining <= 0
        },
        r matches Err(e) ==> e == FestivusError::NotEnoughBitcoin && sum_amounts(coins@)
            < target,
{
    let ghost orig = coins@;
    let mut rest = coins;
    let mut sorted: Vec<FestivusUtxo> = Vec::new();

    while rest.len() > 0
        invariant
            rest@.len() <= orig.len(),
            rest@ =~= orig.skip(orig.len() - rest@.len()),
            sorted@ == sort_desc(orig.take(orig.len() - rest@.len())),
            nonnegative_amounts(orig),
        decreases rest@.len(),
    {
        let ghost j = orig.len() - rest@.len();
        proof {
            assert(j + 1 <= orig.len());
            assert(rest@[0] == orig.skip(j)[0]);
            assert(orig.skip(j)[0] == orig[j]);
        }
        let c = rest.remove(0);
        assert(c == orig[j]);

        let mut p: usize = 0;
        while p < sorted.len() && sorted[p].amount_sat >= c.amount_sat
            invariant
                p <= sorted@.len(),
                forall|i: int| 0 <= i < p ==> (#[trigger] sorted@[i]).amount_sat
                    >= c.amount_sat,
            decreases sorted@.len() - p,
        {
            p = p + 1;
        }

        proof {
            lemma_sort_desc_sorted(orig.take(j));
            lemma_insert_desc_at(sorted@, c, p as int);
            assert(orig.take(j + 1).drop_last() =~= orig.take(j));
            assert(orig.take(j + 1).last() == orig[j]);
            assert(rest@ =~= orig.skip(j + 1));
        }
        sorted.insert(p, c);
    }
    assert(orig.take(orig.len() as int) =~= orig);
    proof {
        lemma_sort_desc_nonneg(orig);
        lemma_sort_desc_len(orig);
        lemma_sort_desc_sum(orig);
    }

    let ghost t = target as int;
    proof {
        assert(sorted@.skip(0) =~= sorted@);
    }
    let mut remaining: i64 = target;
    let mut k: usize = 0;
    let mut i: usize = 0;
    while i < sorted.len()
        invariant
            i <= sorted@.len(),
            k <= i,
            nonnegative_amounts(sorted@),
            remaining <= target,
            greedy_count(sorted@, t) == k + if remaining > 0 {
                greedy_count(sorted@.skip(i as int), remaining as int)
            } else {
                0
            },
            greedy_remaining(sorted@, t) == if remaining > 0 {
                greedy_remaining(sorted@.skip(i as int), remaining as int)
            } else {
                remaining as int
            },
        decreases sorted@.len() - i,
    {
        if remaining > 0 {
            proof {
                let suf = sorted@.skip(i as int);
                let r0 = remaining as int;
                assert(suf.first() == sorted@[i as int]);
                assert(suf.drop_first() =~= sorted@.skip(i + 1));
                assert(greedy_count(suf, r0) == 1 + greedy_count(
                    sorted@.skip(i + 1),
                    r0 - sorted@[i as int].amount_sat,
                ));
                assert(greedy_remaining(suf, r0) == greedy_remaining(
                    sorted@.skip(i + 1),
                    r0 - sorted@[i as int].amount_sat,
                ));
            }
            remaining = remaining - sorted[i].amount_sat;
            k = k + 1;
        }
        i = i + 1;
    }
    assert(sorted@.skip(sorted@.len() as int) =~= Seq::empty());

    proof {
        lemma_greedy_shortfall(sorted@, t);
        lemma_greedy_remaining_sum(sorted@, t);
        lemma_greedy_count_le_len(sorted@, t);
    }

    if remaining > 0 {
        return Err(FestivusError::NotEnoughBitcoin);
    }

    let mut selected = sorted;
    selected.truncate(k);
    Ok(SelectionResult { coins: selected, remaining })
}

} // verus!
