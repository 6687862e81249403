use vstd::prelude::*;
use crate::model::Question;
use crate::model::QuestionV;
use crate::model::TestSnapshot;
use crate::sorting::sorted_snapshot;
use crate::sorting::sorted_snapshot_view;

verus! {

/// The per-session snapshot cache: holds zero or one test snapshot.
///
/// A snapshot is installed already ordered; it is cleared unconditionally
/// the moment any answer submission could have changed the platform's
/// scoring state, and is never patched in place.
pub struct TestCache {
    snap: Option<TestSnapshot>,
}

impl View for TestCache {
    type V = Option<Seq<Seq<QuestionV>>>;

    closed spec fn view(&self) -> Option<Seq<Seq<QuestionV>>> {
        match self.snap {
            Some(s) => Some(s@),
            None => None,
        }
    }
}

impl TestCache {
    /// A fresh cache holds nothing.
    pub fn new() -> (c: Self)
        ensures
            c@ is None,
    {
        TestCache { snap: None }
    }

    /// Drops whatever snapshot is held.
    pub fn invalidate(&mut self)
        ensures
            final(self)@ is None,
    {
        self.snap = None;
    }

    /// Stores the freshly fetched snapshot, ordering every question's
    /// answer options by their sort key on the way in.
    pub fn install(&mut self, raw: &TestSnapshot)
        ensures
            final(self)@ == Some(sorted_snapshot_view(raw@)),
    {
        self.snap = Some(sorted_snapshot(raw));
    }

    /// The held snapshot, if any.
    pub fn peek(&self) -> (r: Option<&TestSnapshot>)
        ensures
            (match r {
                Some(s) => self@ == Some(s@),
                None => self@ is None,
            }),
    {
        match &self.snap {
            Some(s) => Some(s),
            None => None,
        }
    }
}

/// The first question with the given id within one group, scanning in
/// group order.
pub open spec fn find_in_group(g: Seq<QuestionV>, qid: u32) -> Option<QuestionV>
    decreases g.len(),
{
    if g.len() == 0 {
        None
    } else if g[0].id == qid {
        Some(g[0])
    } else {
        find_in_group(g.drop_first(), qid)
    }
}

/// The first question with the given id in the snapshot, scanning the
/// groups in order and each group in order.
pub open spec fn find_question(snap: Seq<Seq<QuestionV>>, qid: u32) -> Option<QuestionV>
    decreases snap.len(),
{
    if snap.len() == 0 {
        None
    } else {
        match find_in_group(snap[0], qid) {
            Some(q) => Some(q),
            None => find_question(snap.drop_first(), qid),
        }
    }
}

/// Looks a question up by id in a snapshot, as [`find_question`] says.
pub fn find_question_exec(snap: &TestSnapshot, qid: u32) -> (r: Option<Question>)
    ensures
        (match r {
            Some(q) => find_question(snap@, qid) == Some(q@),
            None => find_question(snap@, qid) is None,
        }),
{
    let mut i: usize = 0;
    let n = snap.questions.len();
    proof {
        assert(snap@.skip(0) =~= snap@);
    }
    while i < n
        invariant
            i <= n,
            n == snap.questions@.len(),
            find_question(snap@, qid) == find_question(snap@.skip(i as int), qid),
        decreases n - i,
    {
        let g = &snap.questions[i];
        let ghost gv = crate::model::group_view(g@);
        proof {
            assert(snap@[i as int] == gv);
        }
        let mut j: usize = 0;
        let m = g.len();
        proof {
            assert(gv.skip(0) =~= gv);
        }
        while j < m
            invariant
                j <= m,
                m == g@.len(),
                i < n,
                n == snap.questions@.len(),
                gv == crate::model::group_view(g@),
                snap@[i as int] == gv,
                find_question(snap@, qid) == find_question(snap@.skip(i as int), qid),
                find_in_group(gv, qid) == find_in_group(gv.skip(j as int), qid),
            decreases m - j,
        {
            proof {
                assert(gv[j as int] == g@[j as int]@);
                assert(gv.skip(j as int)[0] == gv[j as int]);
            }
            if g[j].id == qid {
                let found = g[j].clone();
                proof {
                    assert(find_in_group(gv.skip(j as int), qid) == Some(gv[j as int]));
                    assert(snap@.skip(i as int)[0] == gv);
                    assert(find_question(snap@.skip(i as int), qid) == Some(gv[j as int]));
                }
                return Some(found);
            }
            proof {
                assert(gv.skip(j as int).drop_first() =~= gv.skip(j as int + 1));
            }
            j += 1;
        }
        proof {
            assert(gv.skip(m as int) =~= Seq::<QuestionV>::empty());
            assert(find_in_group(gv, qid) is None);
            assert(snap@.skip(i as int)[0] == snap@[i as int]);
            assert(snap@.skip(i as int).drop_first() =~= snap@.skip(i as int + 1));
        }
        i += 1;
    }
    proof {
        assert(snap@.skip(n as int) =~= Seq::<Seq<QuestionV>>::empty());
    }
    None
}

} // verus!
