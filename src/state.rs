use vstd::prelude::*;
use crate::text::views;
use std::collections::VecDeque;

verus! {

/// The crawl state seen as values: the frontier in order, the URLs ever
/// enqueued, the addresses found, and the depth limit.
pub struct CrawlModel {
    pub frontier: Seq<(Seq<char>, nat)>,
    pub visited: Set<Seq<char>>,
    pub emails: Set<Seq<char>>,
    pub max_depth: nat,
}

/// `EnqueueIfUnseen` on the model: an unseen URL joins both the visited set
/// and the tail of the frontier, and `true` is returned; a seen one changes
/// nothing.
pub open spec fn enqueue_step(m: CrawlModel, u: Seq<char>, d: nat) -> (CrawlModel, bool) {
    if m.visited.contains(u) {
        (m, false)
    } else {
        (CrawlModel { frontier: m.frontier.push((u, d)), visited: m.visited.insert(u), ..m }, true)
    }
}

/// `RecordEmailIfNew` on the model: a new address is stored and `true` is
/// returned; a known one changes nothing.
pub open spec fn record_step(m: CrawlModel, e: Seq<char>) -> (CrawlModel, bool) {
    if m.emails.contains(e) {
        (m, false)
    } else {
        (CrawlModel { emails: m.emails.insert(e), ..m }, true)
    }
}

/// `TryDequeue` on a model with a non-empty frontier: the head leaves it.
pub open spec fn dequeue_step(m: CrawlModel) -> CrawlModel {
    CrawlModel { frontier: m.frontier.drop_first(), ..m }
}

/// Recording `es` one after another: the final model and what each call returned.
pub open spec fn record_run(m: CrawlModel, es: Seq<Seq<char>>) -> (CrawlModel, Seq<bool>)
    decreases es.len(),
{
    if es.len() == 0 {
        (m, Seq::empty())
    } else {
        let (m1, f1) = record_run(m, es.drop_last());
        let (m2, r) = record_step(m1, es.last());
        (m2, f1.push(r))
    }
}

/// The elements of `es` whose flag is set, in order.
pub open spec fn flagged(es: Seq<Seq<char>>, flags: Seq<bool>) -> Seq<Seq<char>>
    decreases es.len(),
{
    if es.len() == 0 || flags.len() == 0 {
        Seq::empty()
    } else {
        let prev = flagged(es.drop_last(), flags.drop_last());
        if flags.last() {
            prev.push(es.last())
        } else {
            prev
        }
    }
}

/// Enqueuing every URL of `us` at depth `d`, one after another.
pub open spec fn enqueue_run(m: CrawlModel, us: Seq<Seq<char>>, d: nat) -> CrawlModel
    decreases us.len(),
{
    if us.len() == 0 {
        m
    } else {
        enqueue_step(enqueue_run(m, us.drop_last(), d), us.last(), d).0
    }
}

/// Enqueuing one URL twice puts it on the frontier at most once: whatever the
/// depth of the second call, that call returns `false` and changes nothing.
pub proof fn lemma_enqueue_at_most_once(m: CrawlModel, u: Seq<char>, d1: nat, d2: nat)
    ensures
        !enqueue_step(enqueue_step(m, u, d1).0, u, d2).1,
        enqueue_step(enqueue_step(m, u, d1).0, u, d2).0 == enqueue_step(m, u, d1).0,
        enqueue_step(enqueue_step(m, u, d1).0, u, d2).0.frontier.len() <= m.frontier.len() + 1,
{
}

/// Over a run of recordings, a call returns `true` exactly when its address
/// was neither stored before the run nor passed to an earlier call of the run;
/// so from an empty store each distinct address gets `true` exactly once.
pub proof fn lemma_record_true_once(m: CrawlModel, es: Seq<Seq<char>>)
    ensures
        record_run(m, es).1.len() == es.len(),
        forall|i: int|
            0 <= i < es.len() ==> #[trigger] record_run(m, es).1[i] == (!m.emails.contains(es[i])
                && forall|j: int| 0 <= j < i ==> es[j] != es[i]),
        forall|x: Seq<char>|
            #[trigger] record_run(m, es).0.emails.contains(x) == (m.emails.contains(x)
                || es.contains(x)),
    decreases es.len(),
{
    if es.len() > 0 {
        let p = es.drop_last();
        let x = es.last();
        lemma_record_true_once(m, p);
        let (m1, f1) = record_run(m, p);
        let (m2, f2) = record_run(m, es);
        assert(p.contains(x) == exists|j: int| 0 <= j < es.len() - 1 && es[j] == x) by {
            if p.contains(x) {
                let j = choose|j: int| 0 <= j < p.len() && p[j] == x;
                assert(es[j] == x);
            }
            if exists|j: int| 0 <= j < es.len() - 1 && es[j] == x {
                let j = choose|j: int| 0 <= j < es.len() - 1 && es[j] == x;
                assert(p[j] == x);
            }
        }
        assert forall|i: int| 0 <= i < es.len() implies #[trigger] f2[i] == (!m.emails.contains(
            es[i],
        ) && forall|j: int| 0 <= j < i ==> es[j] != es[i]) by {
            if i < es.len() - 1 {
                assert(f2[i] == f1[i]);
                assert(p[i] == es[i]);
                assert forall|j: int| 0 <= j < i implies p[j] == es[j] by {}
            } else {
                assert(es[i] == x);
            }
        }
        assert forall|y: Seq<char>| #[trigger] m2.emails.contains(y) == (m.emails.contains(y)
            || es.contains(y)) by {
            if es.contains(y) && y != x {
                let j = choose|j: int| 0 <= j < es.len() && es[j] == y;
                assert(p[j] == y);
            }
            if p.contains(y) {
                let j = choose|j: int| 0 <= j < p.len() && p[j] == y;
                assert(es[j] == y);
            }
            if y == x {
                assert(es[es.len() - 1] == y);
            }
        }
    }
}

/// The addresses stored after a run of recordings depend only on which
/// addresses were recorded, not on their order or repetition.
pub proof fn lemma_record_order_irrelevant(m: CrawlModel, es1: Seq<Seq<char>>, es2: Seq<Seq<char>>)
    requires
        forall|x: Seq<char>| es1.contains(x) == es2.contains(x),
    ensures
        record_run(m, es1).0.emails == record_run(m, es2).0.emails,
{
    lemma_record_true_once(m, es1);
    lemma_record_true_once(m, es2);
    assert(record_run(m, es1).0.emails =~= record_run(m, es2).0.emails);
}

/// Recording addresses touches neither the frontier, the visited set nor the
/// depth limit.
pub proof fn lemma_record_run_keeps_frontier(m: CrawlModel, es: Seq<Seq<char>>)
    ensures
        record_run(m, es).0.frontier == m.frontier,
        record_run(m, es).0.visited == m.visited,
        record_run(m, es).0.max_depth == m.max_depth,
    decreases es.len(),
{
    if es.len() > 0 {
        lemma_record_run_keeps_frontier(m, es.drop_last());
    }
}

/// The state shared by all workers of a crawl. Its collections change only
/// through `try_dequeue`, `enqueue_if_unseen` and `record_email_if_new`.
pub struct CrawlState {
    frontier: VecDeque<(String, usize)>,
    visited: Vec<String>,
    emails: Vec<String>,
    max_depth: usize,
}

impl View for CrawlState {
    type V = CrawlModel;

    closed spec fn view(&self) -> CrawlModel {
        CrawlModel {
            frontier: self.frontier@.map_values(|e: (String, usize)| (e.0@, e.1 as nat)),
            visited: views(self.visited@).to_set(),
            emails: views(self.emails@).to_set(),
            max_depth: self.max_depth as nat,
        }
    }
}

/// Whether some string of `v` has the characters `s`.
fn contains_string(v: &Vec<String>, s: &String) -> (r: bool)
    ensures
        r == views(v@).contains(s@),
{
    let mut i: usize = 0;
    while i < v.len()
        invariant
            i <= v@.len(),
            forall|k: int| 0 <= k < i ==> views(v@)[k] != s@,
        decreases v@.len() - i,
    {
        if v[i] == *s {
            assert(views(v@)[i as int] == s@);
            return true;
        }
        i = i + 1;
    }
    false
}

impl CrawlState {
    /// Every URL on the frontier has been marked visited, and each address is
    /// stored once.
    pub closed spec fn wf(&self) -> bool {
        &&& forall|i: int| 0 <= i < self@.frontier.len() ==> self@.visited.contains(
            #[trigger] self@.frontier[i].0,
        )
        &&& views(self.emails@).no_duplicates()
    }

    /// A crawl whose frontier holds `seed` at depth 0, already marked visited.
    pub fn new(seed: &str, max_depth: usize) -> (r: CrawlState)
        ensures
            r.wf(),
            r@ == (CrawlModel {
                frontier: seq![(seed@, 0nat)],
                visited: set![seed@],
                emails: Set::empty(),
                max_depth: max_depth as nat,
            }),
    {
        let mut frontier: VecDeque<(String, usize)> = VecDeque::new();
        frontier.push_back((seed.to_string(), 0));
        let mut visited: Vec<String> = Vec::new();
        visited.push(seed.to_string());
        let r = CrawlState { frontier, visited, emails: Vec::new(), max_depth };
        assert(r@.frontier =~= seq![(seed@, 0nat)]);
        assert(views(r.visited@) =~= seq![seed@]);
        proof {
            Seq::<Seq<char>>::empty().lemma_push_to_set_commute(seed@);
            assert(Seq::<Seq<char>>::empty().push(seed@) =~= seq![seed@]);
            assert(Seq::<Seq<char>>::empty().to_set() =~= Set::empty());
        }
        assert(r@.visited =~= set![seed@]);
        assert(r@.emails =~= Set::empty());
        r
    }

    /// The deepest link level that is followed.
    pub fn max_depth(&self) -> (r: usize)
        ensures
            r == self@.max_depth,
    {
        self.max_depth
    }

    /// Removes and returns the head of the frontier, if there is one.
    pub fn try_dequeue(&mut self) -> (r: Option<(String, usize)>)
        requires
            old(self).wf(),
        ensures
            final(self).wf(),
            match r {
                Some(e) => {
                    &&& old(self)@.frontier.len() > 0
                    &&& old(self)@.frontier[0] == (e.0@, e.1 as nat)
                    &&& final(self)@ == dequeue_step(old(self)@)
                },
                None => {
                    &&& old(self)@.frontier.len() == 0
                    &&& final(self)@ == old(self)@
                },
            },
    {
        let r = self.frontier.pop_front();
        proof {
            if r is Some {
                assert(self@.frontier =~= old(self)@.frontier.drop_first());
                assert(self@.frontier.len() == old(self)@.frontier.len() - 1);
                assert forall|i: int| 0 <= i < self@.frontier.len() implies self@.visited.contains(
                    #[trigger] self@.frontier[i].0,
                ) by {
                    assert(self@.frontier[i] == old(self)@.frontier[i + 1]);
                }
            }
        }
        r
    }

    /// Marks `url` visited and appends it to the frontier at `depth`, unless it
    /// was visited already; says whether it was appended.
    pub fn enqueue_if_unseen(&mut self, url: String, depth: usize) -> (r: bool)
        requires
            old(self).wf(),
        ensures
            final(self).wf(),
            (final(self)@, r) == enqueue_step(old(self)@, url@, depth as nat),
    {
        if contains_string(&self.visited, &url) {
            proof {
                assert(views(self.visited@).to_set().contains(url@));
            }
            return false;
        }
        let ghost old_model = self@;
        self.visited.push(url.clone());
        self.frontier.push_back((url, depth));
        proof {
            assert(views(self.visited@) =~= views(old(self).visited@).push(url@));
            views(old(self).visited@).lemma_push_to_set_commute(url@);
            assert(self@.visited =~= old_model.visited.insert(url@));
            assert(self@.frontier =~= old_model.frontier.push((url@, depth as nat)));
            assert(!old_model.visited.contains(url@));
            assert forall|i: int| 0 <= i < self@.frontier.len() implies self@.visited.contains(
                #[trigger] self@.frontier[i].0,
            ) by {
                if i < old_model.frontier.len() {
                    assert(self@.frontier[i] == old_model.frontier[i]);
                }
            }
        }
        true
    }

    /// Stores `email` unless it is stored already; says whether it was new.
    pub fn record_email_if_new(&mut self, email: String) -> (r: bool)
        requires
            old(self).wf(),
        ensures
            final(self).wf(),
            (final(self)@, r) == record_step(old(self)@, email@),
    {
        if contains_string(&self.emails, &email) {
            proof {
                assert(views(self.emails@).to_set().contains(email@));
            }
            return false;
        }
        let ghost old_model = self@;
        self.emails.push(email);
        proof {
            assert(views(self.emails@) =~= views(old(self).emails@).push(email@));
            views(old(self).emails@).lemma_push_to_set_commute(email@);
            assert(self@.emails =~= old_model.emails.insert(email@));
            assert(self@.frontier =~= old_model.frontier);
            assert(self@.visited =~= old_model.visited);
        }
        true
    }

    /// The addresses found so far, each once.
    pub fn found_emails(&self) -> (r: Vec<String>)
        requires
            self.wf(),
        ensures
            views(r@).to_set() == self@.emails,
            views(r@).no_duplicates(),
    {
        self.emails.clone()
    }
}

} // verus!
