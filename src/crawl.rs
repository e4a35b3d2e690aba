use vstd::prelude::*;
use crate::email::{accepted_spec, candidate_matches, emails_in_text, lowercase, lowercase_spec};
use crate::links::{anchor_hrefs_of, extract_links, has_suffix, links_spec};
use crate::state::{
    dequeue_step, enqueue_run, flagged, lemma_record_run_keeps_frontier, record_run, CrawlModel,
    CrawlState,
};
use crate::text::{chars_of, views};

verus! {

/// What a worker does next.
#[derive(Debug)]
pub enum WorkerStep {
    /// Leave the loop: the deadline has passed or the frontier was empty.
    Stop,
    /// An entry deeper than the limit was taken off the frontier and dropped.
    Skip,
    /// Fetch `url`, found at link depth `depth`.
    Fetch { url: String, depth: usize },
}

/// How a newly found address is reported.
#[derive(Debug, Clone, Copy, PartialEq, Eq, Structural)]
pub enum Report {
    /// Printed and highlighted: it belongs to the target domain.
    Highlighted,
    /// Printed plainly.
    Plain,
    /// Not printed.
    Hidden,
}

/// The address ends with the target domain, ignoring case.
pub open spec fn matches_domain_spec(email: Seq<char>, domain: Seq<char>) -> bool {
    has_suffix(lowercase_spec(email), lowercase_spec(domain))
}

/// How an address is reported: highlighted where it matches the domain,
/// hidden in strict mode where it does not, plain otherwise.
pub open spec fn report_spec(email: Seq<char>, domain: Seq<char>, strict: bool) -> Report {
    if matches_domain_spec(email, domain) {
        Report::Highlighted
    } else if strict {
        Report::Hidden
    } else {
        Report::Plain
    }
}

/// What handling a fetched page does to the crawl, and the addresses it
/// reports as new: every address found in the body is recorded; where the
/// page lies above the depth limit its links are enqueued one level deeper.
pub open spec fn page_step(m: CrawlModel, url: Seq<char>, depth: nat, body: Seq<char>) -> (
    CrawlModel,
    Seq<Seq<char>>,
) {
    let found = accepted_spec(candidate_matches(body));
    let run = record_run(m, found);
    let after = if depth < m.max_depth {
        enqueue_run(run.0, links_spec(url, anchor_hrefs_of(body)), depth + 1)
    } else {
        run.0
    };
    (after, flagged(found, run.1))
}

/// A page fetched at or beyond the depth limit adds nothing to the frontier
/// or to the visited set, whatever links it holds.
pub proof fn lemma_no_links_at_limit(m: CrawlModel, url: Seq<char>, depth: nat, body: Seq<char>)
    requires
        depth >= m.max_depth,
    ensures
        page_step(m, url, depth, body).0.frontier == m.frontier,
        page_step(m, url, depth, body).0.visited == m.visited,
{
    lemma_record_run_keeps_frontier(m, accepted_spec(candidate_matches(body)));
}

/// Whether `s` ends with `p`.
fn ends_with_chars(s: &Vec<char>, p: &Vec<char>) -> (r: bool)
    ensures
        r == has_suffix(s@, p@),
{
    if p.len() > s.len() {
        return false;
    }
    let n: usize = s.len();
    let off: usize = n - p.len();
    let mut i: usize = 0;
    while i < p.len()
        invariant
            n == s@.len(),
            p@.len() <= s@.len(),
            off == s@.len() - p@.len(),
            i <= p@.len(),
            forall|k: int| 0 <= k < i ==> s@[off + k] == p@[k],
        decreases p@.len() - i,
    {
        if s[off + i] != p[i] {
            assert(s@.subrange(off as int, s@.len() as int)[i as int] != p@[i as int]);
            return false;
        }
        i = i + 1;
    }
    assert(s@.subrange(off as int, s@.len() as int) =~= p@);
    true
}

/// Whether `email` ends with `domain`, ignoring case.
pub fn email_matches_domain(email: &str, domain: &str) -> (r: bool)
    ensures
        r == matches_domain_spec(email@, domain@),
{
    let e = lowercase(email);
    let d = lowercase(domain);
    let ev = chars_of(e.as_str());
    let dv = chars_of(d.as_str());
    ends_with_chars(&ev, &dv)
}

/// How a newly found `email` is reported for the target `domain`.
pub fn report_for(email: &str, domain: &str, strict: bool) -> (r: Report)
    ensures
        r == report_spec(email@, domain@, strict),
{
    if email_matches_domain(email, domain) {
        Report::Highlighted
    } else if strict {
        Report::Hidden
    } else {
        Report::Plain
    }
}

/// One turn of a worker's loop up to the fetch: stop once `timed_out`; else
/// take the head of the frontier, stopping where there is none, dropping it
/// where it lies beyond the depth limit, and otherwise asking for its fetch.
///
/// An empty frontier stops the worker at once, even while other workers are
/// still fetching pages whose links would refill it; a crawl can therefore end
/// early when pages are slow to arrive.
pub fn next_step(state: &mut CrawlState, timed_out: bool) -> (r: WorkerStep)
    requires
        old(state).wf(),
    ensures
        final(state).wf(),
        timed_out ==> r is Stop && final(state)@ == old(state)@,
        !timed_out && old(state)@.frontier.len() == 0 ==> r is Stop && final(state)@ == old(
            state,
        )@,
        !timed_out && old(state)@.frontier.len() > 0 ==> final(state)@ == dequeue_step(
            old(state)@,
        ),
        !timed_out && old(state)@.frontier.len() > 0 && old(state)@.frontier[0].1 > old(
            state,
        )@.max_depth ==> r is Skip,
        !timed_out && old(state)@.frontier.len() > 0 && old(state)@.frontier[0].1 <= old(
            state,
        )@.max_depth ==> (r matches WorkerStep::Fetch { url, depth } && url@ == old(
            state,
        )@.frontier[0].0 && depth as nat == old(state)@.frontier[0].1),
{
    if timed_out {
        return WorkerStep::Stop;
    }
    match state.try_dequeue() {
        None => WorkerStep::Stop,
        Some(entry) => {
            if entry.1 > state.max_depth() {
                WorkerStep::Skip
            } else {
                WorkerStep::Fetch { url: entry.0, depth: entry.1 }
            }
        },
    }
}

/// Handles the body of the page at `url`, fetched at link depth `depth`:
/// records the addresses found in it, enqueues its links one level deeper
/// where `depth` is below the limit, and returns the addresses that were new.
pub fn handle_page(state: &mut CrawlState, url: &str, depth: usize, body: &str) -> (r: Vec<
    String,
>)
    requires
        old(state).wf(),
    ensures
        final(state).wf(),
        final(state)@ == page_step(old(state)@, url@, depth as nat, body@).0,
        views(r@) == page_step(old(state)@, url@, depth as nat, body@).1,
{
    let ghost m = state@;
    let found = emails_in_text(body);
    let ghost es = views(found@);
    let ghost mut flags: Seq<bool> = Seq::empty();
    let mut fresh: Vec<String> = Vec::new();
    let mut i: usize = 0;
    while i < found.len()
        invariant
            i <= found@.len(),
            es == views(found@),
            state.wf(),
            (state@, flags) == record_run(m, es.subrange(0, i as int)),
            views(fresh@) == flagged(es.subrange(0, i as int), flags),
            flags.len() == i,
            state@.max_depth == m.max_depth,
        decreases found@.len() - i,
    {
        let e = found[i].clone();
        let is_new = state.record_email_if_new(e);
        let ghost prefix = es.subrange(0, i + 1);
        assert(prefix.drop_last() =~= es.subrange(0, i as int));
        assert(prefix.last() == found@[i as int]@);
        let ghost old_flags = flags;
        let ghost old_fresh = views(fresh@);
        proof {
            flags = flags.push(is_new);
        }
        assert(flags.drop_last() =~= old_flags);
        if is_new {
            fresh.push(found[i].clone());
            assert(views(fresh@) =~= old_fresh.push(found@[i as int]@));
        } else {
            assert(views(fresh@) =~= old_fresh);
        }
        assert(views(fresh@) =~= flagged(prefix, flags));
        i = i + 1;
    }
    assert(es.subrange(0, found@.len() as int) =~= es);
    let ghost recorded = state@;
    if depth < state.max_depth() {
        let links = extract_links(body, url);
        let ghost us = views(links@);
        let d: usize = depth + 1;
        let mut j: usize = 0;
        while j < links.len()
            invariant
                j <= links@.len(),
                us == views(links@),
                state.wf(),
                state@ == enqueue_run(recorded, us.subrange(0, j as int), d as nat),
            decreases links@.len() - j,
        {
            state.enqueue_if_unseen(links[j].clone(), d);
            let ghost prefix = us.subrange(0, j + 1);
            assert(prefix.drop_last() =~= us.subrange(0, j as int));
            assert(prefix.last() == links@[j as int]@);
            j = j + 1;
        }
        assert(us.subrange(0, links@.len() as int) =~= us);
    }
    fresh
}

} // verus!
