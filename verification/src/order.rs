use vstd::prelude::*;
use vstd::seq_lib::*;
use crate::date::{digit_value, has_date_shape, is_valid_date_text, month_of, day_of};
use crate::task::{Task, NO_DUE_DATE_KEY};
use crate::text::{
    lex_less, lemma_lex_irreflexive, lemma_lex_less_witness, lemma_lex_total, lemma_lex_transitive,
    text_less,
};

verus! {

broadcast use vstd::string::group_string_axioms;

// ---------------------------------------------------------------------------
// The order of tasks
// ---------------------------------------------------------------------------

/// The date by which a task is ordered: its due date, or `9999-12-31` when it
/// has none.
pub open spec fn due_key(t: Task) -> Seq<char> {
    match t.due_date {
        Some(d) => d@,
        None => NO_DUE_DATE_KEY@,
    }
}

/// `a` comes strictly before `b`: open tasks before done ones, then by due
/// date, then by creation time, each compared as text.
pub open spec fn task_before(a: Task, b: Task) -> bool {
    ||| (!a.done && b.done)
    ||| (a.done == b.done && lex_less(due_key(a), due_key(b)))
    ||| (a.done == b.done && due_key(a) == due_key(b) && lex_less(a.created_at@, b.created_at@))
}

/// `a` and `b` agree on everything the order looks at.
pub open spec fn same_rank(a: Task, b: Task) -> bool {
    &&& a.done == b.done
    &&& due_key(a) == due_key(b)
    &&& a.created_at@ == b.created_at@
}

/// No task of `s` comes before one that stands in front of it.
pub open spec fn is_ordered(s: Seq<Task>) -> bool {
    forall|i: int, j: int| 0 <= i < j < s.len() ==> !task_before(#[trigger] s[j], #[trigger] s[i])
}

/// Tasks of the same rank as `t`.
pub open spec fn rank_pred(t: Task) -> spec_fn(Task) -> bool {
    |y: Task| same_rank(y, t)
}

/// The tasks of `s` that have the rank of `t`, in their order in `s`.
pub open spec fn rank_class(s: Seq<Task>, t: Task) -> Seq<Task> {
    s.filter(rank_pred(t))
}

/// No task comes before itself.
pub proof fn lemma_before_irreflexive(a: Task)
    ensures
        !task_before(a, a),
{
    lemma_lex_irreflexive(due_key(a));
    lemma_lex_irreflexive(a.created_at@);
}

/// Coming before is transitive.
pub proof fn lemma_before_transitive(a: Task, b: Task, c: Task)
    requires
        task_before(a, b),
        task_before(b, c),
    ensures
        task_before(a, c),
{
    if a.done == b.done && b.done == c.done {
        if lex_less(due_key(a), due_key(b)) && lex_less(due_key(b), due_key(c)) {
            lemma_lex_transitive(due_key(a), due_key(b), due_key(c));
        }
        if due_key(a) == due_key(b) && due_key(b) == due_key(c) {
            lemma_lex_irreflexive(due_key(a));
            lemma_lex_transitive(a.created_at@, b.created_at@, c.created_at@);
        }
    }
}

/// Of two tasks, one comes before the other or they have the same rank, and
/// never both come before each other.
pub proof fn lemma_before_total(a: Task, b: Task)
    ensures
        task_before(a, b) || task_before(b, a) || same_rank(a, b),
        !(task_before(a, b) && task_before(b, a)),
        same_rank(a, b) ==> !task_before(a, b),
{
    lemma_lex_total(due_key(a), due_key(b));
    lemma_lex_total(a.created_at@, b.created_at@);
    lemma_lex_irreflexive(due_key(a));
    lemma_lex_irreflexive(a.created_at@);
}

/// "Not before" is transitive: it is the order's "at most".
pub proof fn lemma_not_before_transitive(a: Task, b: Task, c: Task)
    requires
        !task_before(b, a),
        !task_before(c, b),
    ensures
        !task_before(c, a),
{
    lemma_before_total(a, b);
    lemma_before_total(b, c);
    lemma_before_total(a, c);
    if task_before(c, a) {
        if task_before(a, b) {
            lemma_before_transitive(c, a, b);
            if task_before(b, c) {
                lemma_before_transitive(c, b, c);
                lemma_before_irreflexive(c);
            }
        } else if task_before(b, c) {
            lemma_before_transitive(b, c, a);
        }
    }
}

/// No valid due date comes after the stand-in for "no due date", so an
/// open task without a due date never comes before an open task with one,
/// nor a done one before a done one.
pub proof fn lemma_no_due_date_sorts_last(d: Seq<char>)
    requires
        is_valid_date_text(d),
    ensures
        !lex_less(NO_DUE_DATE_KEY@, d),
{
    reveal_strlit("9999-12-31");
    let k = NO_DUE_DATE_KEY@;
    assert(has_date_shape(d));
    assert forall|i: int| 0 <= i < 10 && i != 4 && i != 7 implies (d[i] as int) <= 57 by {}
    assert(month_of(d) <= 12);
    assert(d[5] == '1' ==> (d[6] as int) <= 50);
    assert(digit_value(d[5]) <= 1);
    assert(d[5] == '1' && d[6] == '2' ==> day_of(d) <= 31);
    if lex_less(k, d) {
        let i = lemma_lex_less_witness(k, d);
        assert(k[0] == '9' && k[1] == '9' && k[2] == '9' && k[3] == '9' && k[4] == '-');
        assert(k[5] == '1' && k[6] == '2' && k[7] == '-' && k[8] == '3' && k[9] == '1');
        if i >= 6 {
            assert(d[5] == k[5]);
        }
        if i >= 8 {
            assert(d[6] == k[6]);
        }
        if i >= 9 {
            assert(d[8] == k[8]);
        }
    }
}

/// The order key of a task: its due date, or `9999-12-31`.
pub fn due_date_key(task: &Task) -> (key: &str)
    ensures
        key@ == due_key(*task),
{
    match &task.due_date {
        Some(d) => d.as_str(),
        None => NO_DUE_DATE_KEY,
    }
}

/// Whether `a` comes strictly before `b`.
pub fn comes_before(a: &Task, b: &Task) -> (r: bool)
    ensures
        r == task_before(*a, *b),
{
    if a.done != b.done {
        return !a.done;
    }
    let ka = due_date_key(a);
    let kb = due_date_key(b);
    if text_less(ka, kb) {
        return true;
    }
    if text_less(kb, ka) {
        return false;
    }
    proof {
        lemma_lex_total(ka@, kb@);
    }
    text_less(a.created_at.as_str(), b.created_at.as_str())
}

// ---------------------------------------------------------------------------
// Sorting
// ---------------------------------------------------------------------------

/// The rank class of `t` among `seq![x] + s`.
proof fn lemma_rank_class_prepend(s: Seq<Task>, x: Task, t: Task)
    ensures
        rank_class(seq![x] + s, t) == (if same_rank(x, t) {
            seq![x]
        } else {
            Seq::empty()
        }) + rank_class(s, t),
{
    s.lemma_filter_prepend(x, rank_pred(t));
}

/// In an ordered sequence a task is the first of its rank class when it is
/// the first task.
proof fn lemma_class_head(s: Seq<Task>)
    requires
        s.len() > 0,
    ensures
        rank_class(s, s[0]).len() > 0,
        rank_class(s, s[0])[0] == s[0],
        forall|t: Task| #[trigger]
            rank_class(s.drop_first(), t) == if same_rank(s[0], t) {
                rank_class(s, t).drop_first()
            } else {
                rank_class(s, t)
            },
{
    assert(s =~= seq![s[0]] + s.drop_first());
    lemma_rank_class_prepend(s.drop_first(), s[0], s[0]);
    assert forall|t: Task| #[trigger]
        rank_class(s.drop_first(), t) == if same_rank(s[0], t) {
            rank_class(s, t).drop_first()
        } else {
            rank_class(s, t)
        } by {
        lemma_rank_class_prepend(s.drop_first(), s[0], t);
        if same_rank(s[0], t) {
            assert((seq![s[0]] + rank_class(s.drop_first(), t)).drop_first() =~= rank_class(
                s.drop_first(),
                t,
            ));
        } else {
            assert(Seq::<Task>::empty() + rank_class(s.drop_first(), t) =~= rank_class(
                s.drop_first(),
                t,
            ));
        }
    }
}

/// Every task of `s` is in its own rank class.
proof fn lemma_in_own_class(s: Seq<Task>, k: int)
    requires
        0 <= k < s.len(),
    ensures
        rank_class(s, s[k]).contains(s[k]),
{
    s.lemma_filter_contains(rank_pred(s[k]), k);
}

/// A task that has a rank class in an ordered sequence does not come before
/// the sequence's first task.
proof fn lemma_class_not_before_head(s: Seq<Task>, x: Task)
    requires
        is_ordered(s),
        s.len() > 0,
        rank_class(s, x).len() > 0,
    ensures
        !task_before(x, s[0]),
{
    let c = rank_class(s, x);
    s.lemma_filter_pred(rank_pred(x), 0);
    let y = c[0];
    s.lemma_filter_contains_rev(rank_pred(x), y);
    assert(s.filter(rank_pred(x)).contains(y));
    let k = choose|k: int| 0 <= k < s.len() && s[k] == y;
    if k > 0 {
        assert(!task_before(s[k], s[0]));
    } else {
        lemma_before_irreflexive(s[0]);
    }
}

/// Two ordered sequences with the same rank classes are equal: the order
/// together with the order within each rank class fixes the sequence.
pub proof fn lemma_ordered_unique(a: Seq<Task>, b: Seq<Task>)
    requires
        is_ordered(a),
        is_ordered(b),
        forall|t: Task| #[trigger] rank_class(a, t) == rank_class(b, t),
    ensures
        a == b,
    decreases a.len(),
{
    if a.len() == 0 || b.len() == 0 {
        if a.len() > 0 {
            lemma_in_own_class(a, 0);
            assert(rank_class(b, a[0]) == rank_class(a, a[0]));
            b.lemma_filter_len(rank_pred(a[0]));
        }
        if b.len() > 0 {
            lemma_in_own_class(b, 0);
            assert(rank_class(a, b[0]) == rank_class(b, b[0]));
            a.lemma_filter_len(rank_pred(b[0]));
        }
        assert(a =~= b);
    } else {
        let x = a[0];
        let y = b[0];
        lemma_class_head(a);
        lemma_class_head(b);
        assert(rank_class(b, x) == rank_class(a, x));
        assert(rank_class(a, y) == rank_class(b, y));
        lemma_class_not_before_head(b, x);
        lemma_class_not_before_head(a, y);
        lemma_before_total(x, y);
        assert(same_rank(x, y));
        assert(rank_pred(x) =~= rank_pred(y));
        assert(rank_class(b, x) == rank_class(b, y));
        assert(x == y);
        let a1 = a.drop_first();
        let b1 = b.drop_first();
        assert forall|i: int, j: int| 0 <= i < j < a1.len() implies !task_before(
            #[trigger] a1[j],
            #[trigger] a1[i],
        ) by {
            assert(a1[i] == a[i + 1] && a1[j] == a[j + 1]);
        }
        assert forall|i: int, j: int| 0 <= i < j < b1.len() implies !task_before(
            #[trigger] b1[j],
            #[trigger] b1[i],
        ) by {
            assert(b1[i] == b[i + 1] && b1[j] == b[j + 1]);
        }
        assert forall|t: Task| #[trigger] rank_class(a1, t) == rank_class(b1, t) by {
            assert(rank_class(a, t) == rank_class(b, t));
        }
        lemma_ordered_unique(a1, b1);
        assert(a =~= seq![x] + a1);
        assert(b =~= seq![y] + b1);
    }
}

/// Putting `x` after every task that it does not come before, and in front
/// of the tasks that it comes before, keeps `s` ordered and adds `x` at the
/// end of its rank class.
proof fn lemma_insert_after_equals(s: Seq<Task>, p: int, x: Task)
    requires
        is_ordered(s),
        0 <= p <= s.len(),
        forall|k: int| 0 <= k < p ==> !task_before(x, #[trigger] s[k]),
        forall|k: int| p <= k < s.len() ==> task_before(x, #[trigger] s[k]),
    ensures
        is_ordered(s.insert(p, x)),
        s.insert(p, x).to_multiset() == s.to_multiset().insert(x),
        forall|t: Task| #[trigger]
            rank_class(s.insert(p, x), t) == rank_class(s, t) + (if same_rank(x, t) {
                seq![x]
            } else {
                Seq::empty()
            }),
{
    let r = s.insert(p, x);
    assert forall|i: int, j: int| 0 <= i < j < r.len() implies !task_before(
        #[trigger] r[j],
        #[trigger] r[i],
    ) by {
        if j < p {
            assert(r[i] == s[i] && r[j] == s[j]);
        } else if j == p {
            assert(r[i] == s[i]);
        } else if i == p {
            assert(r[j] == s[j - 1]);
            lemma_before_total(x, s[j - 1]);
        } else if i < p {
            assert(r[i] == s[i] && r[j] == s[j - 1]);
        } else {
            assert(r[i] == s[i - 1] && r[j] == s[j - 1]);
        }
    }
    to_multiset_insert(s, p, x);
    assert forall|t: Task| #[trigger]
        rank_class(r, t) == rank_class(s, t) + (if same_rank(x, t) {
            seq![x]
        } else {
            Seq::empty()
        }) by {
        let pred = rank_pred(t);
        let s0 = s.subrange(0, p);
        let s1 = s.subrange(p, s.len() as int);
        assert(s =~= s0 + s1);
        assert(r =~= s0 + (seq![x] + s1));
        Seq::filter_distributes_over_add(s0, s1, pred);
        Seq::filter_distributes_over_add(s0, seq![x] + s1, pred);
        lemma_rank_class_prepend(s1, x, t);
        if same_rank(x, t) {
            assert forall|k: int| 0 <= k < s1.len() implies !#[trigger] pred(s1[k]) by {
                assert(s1[k] == s[p + k]);
                lemma_before_total(x, s[p + k]);
            }
            s1.lemma_all_neg_filter_empty(pred);
            assert(s1.filter(pred) =~= Seq::<Task>::empty());
            assert(rank_class(r, t) =~= s0.filter(pred) + seq![x]);
            assert(rank_class(s, t) =~= s0.filter(pred));
        } else {
            assert(rank_class(r, t) =~= s0.filter(pred) + s1.filter(pred));
        }
    }
}

/// Swaps two elements of a slice (`<[T]>::swap`).
#[verifier::external_body]
fn swap_in_slice<T>(items: &mut [T], i: usize, j: usize)
    requires
        i < old(items)@.len(),
        j < old(items)@.len(),
    ensures
        final(items)@ == old(items)@.update(i as int, old(items)@[j as int]).update(
            j as int,
            old(items)@[i as int],
        ),
{
    items.swap(i, j);
}

/// Orders the tasks: open ones first, then by due date (tasks without one
/// last), then by creation time. The sort is stable: tasks of the same rank
/// keep their order, so the result is the one ordered arrangement with the
/// same tasks in each rank class, and an ordered list is left as it is.
pub fn sort_tasks(tasks: &mut [Task])
    ensures
        is_ordered(final(tasks)@),
        final(tasks)@.to_multiset() == old(tasks)@.to_multiset(),
        forall|t: Task| #[trigger] rank_class(final(tasks)@, t) == rank_class(old(tasks)@, t),
        is_ordered(old(tasks)@) ==> final(tasks)@ == old(tasks)@,
{
    let ghost given = tasks@;
    let n = tasks.len();
    let mut i: usize = 0;
    assert(tasks@.subrange(0, 0) =~= Seq::<Task>::empty());
    assert(given.subrange(0, 0) =~= Seq::<Task>::empty());
    assert(tasks@.subrange(0, n as int) =~= tasks@);
    assert(given.subrange(0, n as int) =~= given);
    while i < n
        invariant
            n == tasks@.len(),
            n == given.len(),
            i <= n,
            is_ordered(tasks@.subrange(0, i as int)),
            tasks@.subrange(i as int, n as int) == given.subrange(i as int, n as int),
            tasks@.subrange(0, i as int).to_multiset() == given.subrange(
                0,
                i as int,
            ).to_multiset(),
            forall|t: Task| #[trigger]
                rank_class(tasks@.subrange(0, i as int), t) == rank_class(
                    given.subrange(0, i as int),
                    t,
                ),
            is_ordered(given) ==> tasks@ == given,
        decreases n - i,
    {
        let ghost sorted = tasks@.subrange(0, i as int);
        let ghost x = tasks@[i as int];
        assert(tasks@.subrange(i as int, n as int)[0] == x);
        assert(given.subrange(i as int, n as int)[0] == given[i as int]);
        assert forall|k: int| i < k < n implies tasks@[k] == given[k] by {
            assert(tasks@.subrange(i as int, n as int)[k - i] == tasks@[k]);
            assert(given.subrange(i as int, n as int)[k - i] == given[k]);
        }
        assert(tasks@.subrange(i + 1, n as int) =~= given.subrange(i + 1, n as int));
        assert(tasks@.subrange(0, i + 1) =~= sorted.insert(i as int, x));
        let mut j: usize = i;
        while j > 0 && comes_before(&tasks[j], &tasks[j - 1])
            invariant
                n == tasks@.len(),
                n == given.len(),
                j <= i < n,
                sorted.len() == i,
                is_ordered(sorted),
                tasks@.subrange(0, i + 1) == sorted.insert(j as int, x),
                tasks@.subrange(i + 1, n as int) == given.subrange(i + 1, n as int),
                forall|k: int| j <= k < i ==> task_before(x, #[trigger] sorted[k]),
                is_ordered(given) ==> tasks@ == given && j == i && sorted
                    == given.subrange(0, i as int),
            decreases j,
        {
            assert(tasks@[j as int] == tasks@.subrange(0, i + 1)[j as int]);
            assert(tasks@[j - 1] == tasks@.subrange(0, i + 1)[j - 1]);
            assert(tasks@[j as int] == x);
            assert(tasks@[j - 1] == sorted[j - 1]);
            proof {
                if is_ordered(given) {
                    assert(!task_before(given[j as int], given[j - 1]));
                }
            }
            let ghost before_swap = tasks@;
            swap_in_slice(tasks, j - 1, j);
            assert forall|k: int| 0 <= k < i + 1 implies tasks@[k] == sorted.insert(j - 1, x)[k] by {
                assert(before_swap[k] == before_swap.subrange(0, i + 1)[k]);
                if k != j && k != j - 1 {
                    assert(before_swap[k] == sorted.insert(j as int, x)[k]);
                }
            }
            assert(tasks@.subrange(0, i + 1) =~= sorted.insert(j - 1, x));
            assert(tasks@.subrange(i + 1, n as int) =~= before_swap.subrange(i + 1, n as int));
            j -= 1;
        }
        proof {
            if j > 0 {
                assert(tasks@[j as int] == tasks@.subrange(0, i + 1)[j as int]);
                assert(tasks@[j - 1] == tasks@.subrange(0, i + 1)[j - 1]);
                assert(!task_before(x, sorted[j - 1]));
                assert forall|k: int| 0 <= k < j implies !task_before(x, #[trigger] sorted[k]) by {
                    if k < j - 1 {
                        lemma_not_before_transitive(sorted[k], sorted[j - 1], x);
                    }
                }
            }
            lemma_insert_after_equals(sorted, j as int, x);
            let done_part = given.subrange(0, i as int);
            assert(given.subrange(0, i + 1) =~= done_part.push(x));
            to_multiset_build(done_part, x);
            assert forall|t: Task| #[trigger]
                rank_class(tasks@.subrange(0, i + 1), t) == rank_class(
                    given.subrange(0, i + 1),
                    t,
                ) by {
                done_part.lemma_filter_push(x, rank_pred(t));
                assert(rank_class(done_part.push(x), t) =~= rank_class(done_part, t) + (if same_rank(
                    x,
                    t,
                ) {
                    seq![x]
                } else {
                    Seq::empty()
                }));
            }
            assert(tasks@.subrange(i + 1, n as int) =~= given.subrange(i + 1, n as int));
            if is_ordered(given) {
                assert(tasks@ =~= given);
            }
        }
        i += 1;
    }
    assert(tasks@.subrange(0, n as int) =~= tasks@);
    assert(given.subrange(0, n as int) =~= given);
}

} // verus!
