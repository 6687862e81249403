use vstd::prelude::*;
use crate::model::Answer;
use crate::model::AnswerV;
use crate::model::Question;
use crate::model::QuestionV;
use crate::model::TestSnapshot;
use crate::model::answers_view;
use crate::model::group_view;
use crate::model::snapshot_view;

verus! {

/// The order of the platform's sort keys: an absent key comes before every
/// present one, present keys are ordered by value.
pub open spec fn key_le(a: Option<u32>, b: Option<u32>) -> bool {
    match a {
        Option::None => true,
        Option::Some(x) => match b {
            Option::None => false,
            Option::Some(y) => x <= y,
        },
    }
}

/// `x` inserted into `s` after every element whose key is not above `x`'s,
/// so that equal keys keep their first-come order.
pub open spec fn insert_sorted(s: Seq<AnswerV>, x: AnswerV) -> Seq<AnswerV>
    decreases s.len(),
{
    if s.len() == 0 {
        seq![x]
    } else if key_le(s[0].sort, x.sort) {
        seq![s[0]] + insert_sorted(s.drop_first(), x)
    } else {
        seq![x] + s
    }
}

/// The stable ascending-by-sort-key ordering of `s`.
pub open spec fn sort_by_key(s: Seq<AnswerV>) -> Seq<AnswerV>
    decreases s.len(),
{
    if s.len() == 0 {
        Seq::<AnswerV>::empty()
    } else {
        insert_sorted(sort_by_key(s.drop_last()), s.last())
    }
}

/// Ascending by sort key.
pub open spec fn sorted_by_key(s: Seq<AnswerV>) -> bool {
    forall|i: int, j: int| 0 <= i < j < s.len() ==> key_le(s[i].sort, s[j].sort)
}

/// Inserting at the first position whose key is above `x`'s is what
/// `insert_sorted` does.
proof fn lemma_insert_sorted_at(s: Seq<AnswerV>, x: AnswerV, p: int)
    requires
        0 <= p <= s.len(),
        forall|j: int| 0 <= j < p ==> key_le(#[trigger] s[j].sort, x.sort),
        p < s.len() ==> !key_le(s[p].sort, x.sort),
    ensures
        insert_sorted(s, x) == s.take(p) + seq![x] + s.skip(p),
    decreases p,
{
    if p == 0 {
        if s.len() == 0 {
            assert(insert_sorted(s, x) =~= s.take(0) + seq![x] + s.skip(0));
        } else {
            assert(insert_sorted(s, x) =~= s.take(0) + seq![x] + s.skip(0));
        }
    } else {
        assert(key_le(s[0].sort, x.sort));
        let t = s.drop_first();
        assert(forall|j: int| 0 <= j < p - 1 ==> key_le(#[trigger] t[j].sort, x.sort));
        lemma_insert_sorted_at(t, x, p - 1);
        assert(seq![s[0]] + (t.take(p - 1) + seq![x] + t.skip(p - 1)) =~= s.take(p) + seq![x]
            + s.skip(p));
    }
}

/// Every element of `insert_sorted(s, x)` is `x` or one of `s`.
proof fn lemma_insert_sorted_elems(s: Seq<AnswerV>, x: AnswerV, k: int)
    requires
        0 <= k < insert_sorted(s, x).len(),
    ensures
        insert_sorted(s, x).len() == s.len() + 1,
        insert_sorted(s, x)[k] == x || s.contains(insert_sorted(s, x)[k]),
    decreases s.len(),
{
    lemma_insert_sorted_len(s, x);
    if s.len() == 0 {
    } else if key_le(s[0].sort, x.sort) {
        if k == 0 {
            assert(s.contains(s[0]));
        } else {
            lemma_insert_sorted_elems(s.drop_first(), x, k - 1);
            let e = insert_sorted(s, x)[k];
            if s.drop_first().contains(e) {
                let j = choose|j: int|
                    0 <= j < s.drop_first().len() && s.drop_first()[j] == e;
                assert(s[j + 1] == e);
                assert(s.contains(e));
            }
        }
    }
}

proof fn lemma_insert_sorted_len(s: Seq<AnswerV>, x: AnswerV)
    ensures
        insert_sorted(s, x).len() == s.len() + 1,
    decreases s.len(),
{
    if s.len() > 0 && key_le(s[0].sort, x.sort) {
        lemma_insert_sorted_len(s.drop_first(), x);
    }
}

/// Inserting into an ascending sequence keeps it ascending.
proof fn lemma_insert_sorted_preserves(s: Seq<AnswerV>, x: AnswerV)
    requires
        sorted_by_key(s),
    ensures
        sorted_by_key(insert_sorted(s, x)),
    decreases s.len(),
{
    lemma_insert_sorted_len(s, x);
    if s.len() == 0 {
    } else if key_le(s[0].sort, x.sort) {
        let t = s.drop_first();
        assert forall|i: int, j: int| 0 <= i < j < t.len() implies key_le(
            t[i].sort,
            t[j].sort,
        ) by {
            assert(t[i] == s[i + 1]);
            assert(t[j] == s[j + 1]);
        }
        assert(sorted_by_key(t));
        lemma_insert_sorted_preserves(t, x);
        let r = insert_sorted(s, x);
        let rt = insert_sorted(t, x);
        assert(r =~= seq![s[0]] + rt);
        assert forall|i: int, j: int| 0 <= i < j < r.len() implies key_le(
            r[i].sort,
            r[j].sort,
        ) by {
            if i == 0 {
                lemma_insert_sorted_elems(t, x, j - 1);
                if t.contains(rt[j - 1]) {
                    let m = choose|m: int| 0 <= m < t.len() && t[m] == rt[j - 1];
                    assert(s[m + 1] == rt[j - 1]);
                    assert(key_le(s[0].sort, s[m + 1].sort));
                }
            }
        }
    } else {
        let r = insert_sorted(s, x);
        assert(r =~= seq![x] + s);
        assert forall|i: int, j: int| 0 <= i < j < r.len() implies key_le(
            r[i].sort,
            r[j].sort,
        ) by {
            if i == 0 {
                assert(!key_le(s[0].sort, x.sort));
                assert(key_le(x.sort, s[0].sort));
                if j > 1 {
                    assert(key_le(s[0].sort, s[j - 1].sort));
                }
            }
        }
    }
}

/// What `sort_by_key` returns is ascending by sort key.
pub proof fn lemma_sort_by_key_sorted(s: Seq<AnswerV>)
    ensures
        sorted_by_key(sort_by_key(s)),
    decreases s.len(),
{
    if s.len() > 0 {
        lemma_sort_by_key_sorted(s.drop_last());
        lemma_insert_sorted_preserves(sort_by_key(s.drop_last()), s.last());
    }
}

/// Where `insert_sorted` puts the new element: after every leading element
/// whose key is not above the new one's.
pub open spec fn insert_pos(s: Seq<AnswerV>, x: AnswerV) -> int
    decreases s.len(),
{
    if s.len() == 0 {
        0
    } else if key_le(s[0].sort, x.sort) {
        1 + insert_pos(s.drop_first(), x)
    } else {
        0
    }
}

proof fn lemma_insert_sorted_is_insert(s: Seq<AnswerV>, x: AnswerV)
    ensures
        0 <= insert_pos(s, x) <= s.len(),
        insert_sorted(s, x) == s.insert(insert_pos(s, x), x),
    decreases s.len(),
{
    if s.len() == 0 {
        assert(insert_sorted(s, x) =~= s.insert(0, x));
    } else if key_le(s[0].sort, x.sort) {
        lemma_insert_sorted_is_insert(s.drop_first(), x);
        let p = insert_pos(s.drop_first(), x);
        assert(seq![s[0]] + s.drop_first().insert(p, x) =~= s.insert(p + 1, x));
    } else {
        assert(seq![x] + s =~= s.insert(0, x));
    }
}

proof fn lemma_insert_sorted_multiset(s: Seq<AnswerV>, x: AnswerV)
    ensures
        insert_sorted(s, x).to_multiset() == s.to_multiset().insert(x),
{
    broadcast use vstd::seq_lib::group_to_multiset_ensures;

    lemma_insert_sorted_is_insert(s, x);
}

/// Sorting keeps exactly the options that were there: the result holds the
/// same answers, as a multiset.
pub proof fn lemma_sort_by_key_permutes(s: Seq<AnswerV>)
    ensures
        sort_by_key(s).to_multiset() == s.to_multiset(),
    decreases s.len(),
{
    broadcast use vstd::seq_lib::group_to_multiset_ensures;

    if s.len() > 0 {
        lemma_sort_by_key_permutes(s.drop_last());
        let t = sort_by_key(s.drop_last());
        let x = s.last();
        lemma_insert_sorted_multiset(t, x);
        assert(s =~= s.drop_last().push(x));
        assert(s.drop_last().push(x).to_multiset() =~= s.drop_last().to_multiset().insert(x));
    }
}

/// A sequence already ascending by sort key is its own ordering: sorting a
/// cached, already-sorted snapshot changes nothing.
pub proof fn lemma_sort_by_key_of_sorted(s: Seq<AnswerV>)
    requires
        sorted_by_key(s),
    ensures
        sort_by_key(s) == s,
    decreases s.len(),
{
    if s.len() > 0 {
        let t = s.drop_last();
        assert(sorted_by_key(t));
        lemma_sort_by_key_of_sorted(t);
        assert(forall|j: int| 0 <= j < t.len() ==> key_le(#[trigger] t[j].sort, s.last().sort));
        lemma_insert_sorted_at(t, s.last(), t.len() as int);
        assert(t.take(t.len() as int) + seq![s.last()] + t.skip(t.len() as int) =~= s);
    }
}

fn key_le_exec(a: &Option<u32>, b: &Option<u32>) -> (r: bool)
    ensures
        r == key_le(*a, *b),
{
    match a {
        Option::None => true,
        Option::Some(x) => match b {
            Option::None => false,
            Option::Some(y) => *x <= *y,
        },
    }
}

/// A copy of `v` ordered ascending by the platform sort key, equal keys
/// keeping their order.
pub fn sorted_answers(v: &Vec<Answer>) -> (r: Vec<Answer>)
    ensures
        answers_view(r@) == sort_by_key(answers_view(v@)),
{
    let ghost m = answers_view(v@);
    let mut out: Vec<Answer> = Vec::new();
    let mut i: usize = 0;
    while i < v.len()
        invariant
            i <= v.len(),
            m == answers_view(v@),
            answers_view(out@) == sort_by_key(m.take(i as int)),
        decreases v.len() - i,
    {
        let ghost prev = answers_view(out@);
        let x = v[i].clone();
        let mut p: usize = 0;
        while p < out.len() && key_le_exec(&out[p].sort, &x.sort)
            invariant
                p <= out.len(),
                answers_view(out@) == prev,
                forall|j: int| 0 <= j < p ==> key_le(#[trigger] out@[j]@.sort, x@.sort),
            decreases out.len() - p,
        {
            p += 1;
        }
        proof {
            assert(forall|j: int| 0 <= j < p ==> prev[j] == out@[j]@);
            assert(p < out@.len() ==> prev[p as int] == out@[p as int]@);
            lemma_insert_sorted_at(prev, x@, p as int);
        }
        out.insert(p, x);
        proof {
            assert(m.take(i + 1).drop_last() =~= m.take(i as int));
            assert(m.take(i + 1).last() == m[i as int]);
            assert(m[i as int] == v@[i as int]@);
            assert(answers_view(out@) =~= prev.take(p as int) + seq![x@] + prev.skip(p as int));
        }
        i += 1;
    }
    proof {
        assert(m.take(v@.len() as int) =~= m);
    }
    out
}

/// The ordering a question takes when a snapshot is installed in the
/// cache: its answers ascending by sort key, everything else unchanged.
pub open spec fn sorted_question_view(q: QuestionV) -> QuestionV {
    QuestionV { answers: sort_by_key(q.answers), ..q }
}

/// Every question of the snapshot with its answers ordered.
pub open spec fn sorted_snapshot_view(v: Seq<Seq<QuestionV>>) -> Seq<Seq<QuestionV>> {
    v.map_values(|g: Seq<QuestionV>| g.map_values(|q: QuestionV| sorted_question_view(q)))
}

fn sorted_question(q: &Question) -> (r: Question)
    ensures
        r@ == sorted_question_view(q@),
{
    let mut r = q.clone();
    r.answers = sorted_answers(&q.answers);
    proof {
        assert(r@ =~= sorted_question_view(q@));
    }
    r
}

/// A copy of the raw snapshot as the cache holds it: every question's
/// answer options ordered ascending by their platform sort key.
pub fn sorted_snapshot(s: &TestSnapshot) -> (r: TestSnapshot)
    ensures
        r@ == sorted_snapshot_view(s@),
{
    let mut groups: Vec<Vec<Question>> = Vec::new();
    let mut i: usize = 0;
    while i < s.questions.len()
        invariant
            i <= s.questions.len(),
            groups@.len() == i,
            forall|j: int| 0 <= j < i ==> #[trigger] group_view(groups@[j]@) == snapshot_view(
                s.questions@,
            )[j].map_values(|q: QuestionV| sorted_question_view(q)),
        decreases s.questions.len() - i,
    {
        let g = &s.questions[i];
        let mut ng: Vec<Question> = Vec::new();
        let mut k: usize = 0;
        while k < g.len()
            invariant
                k <= g.len(),
                ng@.len() == k,
                forall|j: int| 0 <= j < k ==> #[trigger] ng@[j]@ == sorted_question_view(
                    g@[j]@,
                ),
            decreases g.len() - k,
        {
            ng.push(sorted_question(&g[k]));
            k += 1;
        }
        proof {
            assert(group_view(ng@) =~= group_view(g@).map_values(
                |q: QuestionV| sorted_question_view(q),
            ));
            assert(group_view(g@) == snapshot_view(s.questions@)[i as int]);
        }
        groups.push(ng);
        i += 1;
    }
    let r = TestSnapshot { questions: groups };
    proof {
        assert(r@ =~= sorted_snapshot_view(s@));
    }
    r
}

} // verus!
