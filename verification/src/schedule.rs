//! Ordered consumption of per-job results.
//!
//! Workers may finish jobs in any order, but each job streams its results
//! over its own channel, and the consumer drains those channels strictly
//! in original input order.  This module is that consumer's verified
//! core: given the per-job result sequences in input order, it renders
//! every successful thumbnail in exactly the flattened input order and
//! collects every failure, also in order, for the end-of-run report.

use vstd::prelude::*;
use crate::images::{Thumbnail, ThumbError};
use crate::render::Renderer;

verus! {

/// One per-source outcome, as delivered on a job's channel: the display
/// path together with the generated thumbnail or the failure.
pub struct JobResult {
    pub path: String,
    pub outcome: Result<Thumbnail, ThumbError>,
}

/// The successful results of a result sequence, in order.
pub open spec fn spec_oks(s: Seq<JobResult>) -> Seq<(Seq<char>, Thumbnail)>
    decreases s.len(),
{
    if s.len() == 0 {
        Seq::empty()
    } else {
        match s[0].outcome {
            Ok(t) => seq![(s[0].path@, t)] + spec_oks(s.drop_first()),
            Err(_) => spec_oks(s.drop_first()),
        }
    }
}

/// The failures of a result sequence, in order.
pub open spec fn spec_errs(s: Seq<JobResult>) -> Seq<(Seq<char>, ThumbError)>
    decreases s.len(),
{
    if s.len() == 0 {
        Seq::empty()
    } else {
        match s[0].outcome {
            Ok(_) => spec_errs(s.drop_first()),
            Err(e) => seq![(s[0].path@, e)] + spec_errs(s.drop_first()),
        }
    }
}

/// The per-job result sequences flattened into one sequence, preserving
/// job order and, within each job, result order.
pub open spec fn spec_flatten(s: Seq<Vec<JobResult>>) -> Seq<JobResult>
    decreases s.len(),
{
    if s.len() == 0 {
        Seq::empty()
    } else {
        s[0]@ + spec_flatten(s.drop_first())
    }
}

/// The view of a collected failure list.
pub open spec fn spec_failed_view(failed: Seq<(String, ThumbError)>) -> Seq<
    (Seq<char>, ThumbError),
> {
    failed.map_values(|p: (String, ThumbError)| (p.0@, p.1))
}

/// Every result is accounted for: each one is either rendered or
/// reported as a failure, so one source's failure never discards another
/// source's work.
pub proof fn lemma_results_partition(s: Seq<JobResult>)
    ensures
        spec_oks(s).len() + spec_errs(s).len() == s.len(),
    decreases s.len(),
{
    if s.len() > 0 {
        lemma_results_partition(s.drop_first());
    }
}

proof fn lemma_oks_errs_concat(a: Seq<JobResult>, b: Seq<JobResult>)
    ensures
        spec_oks(a + b) == spec_oks(a) + spec_oks(b),
        spec_errs(a + b) == spec_errs(a) + spec_errs(b),
    decreases a.len(),
{
    if a.len() == 0 {
        assert(a + b =~= b);
        assert(spec_oks(a) + spec_oks(b) =~= spec_oks(b));
        assert(spec_errs(a) + spec_errs(b) =~= spec_errs(b));
    } else {
        assert((a + b).len() > 0);
        assert((a + b)[0] == a[0]);
        assert((a + b).drop_first() =~= a.drop_first() + b);
        lemma_oks_errs_concat(a.drop_first(), b);
        match a[0].outcome {
            Ok(t) => {
                assert(spec_oks(a + b) =~= spec_oks(a) + spec_oks(b));
                assert(spec_errs(a + b) =~= spec_errs(a) + spec_errs(b));
            },
            Err(e) => {
                assert(spec_oks(a + b) =~= spec_oks(a) + spec_oks(b));
                assert(spec_errs(a + b) =~= spec_errs(a) + spec_errs(b));
            },
        }
    }
}

proof fn lemma_oks_errs_singleton(x: JobResult)
    ensures
        spec_oks(seq![x]) == match x.outcome {
            Ok(t) => seq![(x.path@, t)],
            Err(_) => Seq::<(Seq<char>, Thumbnail)>::empty(),
        },
        spec_errs(seq![x]) == match x.outcome {
            Ok(_) => Seq::<(Seq<char>, ThumbError)>::empty(),
            Err(e) => seq![(x.path@, e)],
        },
{
    assert(seq![x].len() == 1);
    assert(seq![x][0] == x);
    assert(seq![x].drop_first() =~= Seq::<JobResult>::empty());
    assert(spec_oks(Seq::<JobResult>::empty()) =~= Seq::<(Seq<char>, Thumbnail)>::empty());
    assert(spec_errs(Seq::<JobResult>::empty()) =~= Seq::<(Seq<char>, ThumbError)>::empty());
    match x.outcome {
        Ok(t) => {
            assert(spec_oks(seq![x]) =~= seq![(x.path@, t)]);
            assert(spec_errs(seq![x]) =~= Seq::<(Seq<char>, ThumbError)>::empty());
        },
        Err(e) => {
            assert(spec_oks(seq![x]) =~= Seq::<(Seq<char>, Thumbnail)>::empty());
            assert(spec_errs(seq![x]) =~= seq![(x.path@, e)]);
        },
    }
}

proof fn lemma_flatten_push(s: Seq<Vec<JobResult>>, v: Vec<JobResult>)
    ensures
        spec_flatten(s.push(v)) == spec_flatten(s) + v@,
    decreases s.len(),
{
    if s.len() == 0 {
        assert(s.push(v).len() == 1);
        assert(s.push(v)[0] == v);
        assert(s.push(v).drop_first() =~= Seq::<Vec<JobResult>>::empty());
        assert(spec_flatten(Seq::<Vec<JobResult>>::empty()) =~= Seq::<JobResult>::empty());
        assert(spec_flatten(s.push(v)) =~= spec_flatten(s) + v@);
    } else {
        assert(s.push(v)[0] == s[0]);
        assert(s.push(v).drop_first() =~= s.drop_first().push(v));
        lemma_flatten_push(s.drop_first(), v);
        assert(spec_flatten(s.push(v)) =~= spec_flatten(s) + v@);
    }
}

/// Consume one result: render a success at the next grid position, or
/// append a failure to the report list.
pub fn consume_result(
    renderer: &mut Renderer,
    failed: &mut Vec<(String, ThumbError)>,
    jr: JobResult,
) -> (rendered: bool)
    requires
        old(renderer).wf(),
    ensures
        final(renderer).wf(),
        final(renderer).history@ == old(renderer).history@ + spec_oks(seq![jr]),
        spec_failed_view(final(failed)@) == spec_failed_view(old(failed)@) + spec_errs(seq![jr]),
        final(renderer).term == old(renderer).term,
        final(renderer).args == old(renderer).args,
        rendered == jr.outcome is Ok,
{
    proof {
        lemma_oks_errs_singleton(jr);
    }
    match jr.outcome {
        Ok(t) => {
            renderer.render(jr.path.as_str(), &t);
            proof {
                assert(final(renderer).history@ =~= old(renderer).history@ + spec_oks(seq![jr]));
                assert(spec_failed_view(final(failed)@) =~= spec_failed_view(old(failed)@)
                    + spec_errs(seq![jr]));
            }
            true
        },
        Err(e) => {
            let ghost jrv = jr;
            failed.push((jr.path, e));
            proof {
                assert(final(renderer).history@ =~= old(renderer).history@ + spec_oks(seq![jrv]));
                assert(spec_failed_view(final(failed)@) =~= spec_failed_view(old(failed)@)
                    + spec_errs(seq![jrv]));
            }
            false
        },
    }
}

/// Drain the per-job result sequences in input order: every successful
/// thumbnail is rendered, in exactly the flattened input order, and every
/// failure is collected, in the same order, for the end-of-run report.
pub fn drain_jobs(renderer: &mut Renderer, jobs: Vec<Vec<JobResult>>) -> (failed: Vec<
    (String, ThumbError),
>)
    requires
        old(renderer).wf(),
    ensures
        final(renderer).wf(),
        final(renderer).history@ == old(renderer).history@ + spec_oks(spec_flatten(jobs@)),
        spec_failed_view(failed@) == spec_errs(spec_flatten(jobs@)),
        final(renderer).term == old(renderer).term,
        final(renderer).args == old(renderer).args,
{
    let ghost orig = jobs@;
    let mut jobs = jobs;
    let mut failed: Vec<(String, ThumbError)> = Vec::new();
    let ghost done: int = 0;
    proof {
        assert(orig.take(0) =~= Seq::<Vec<JobResult>>::empty());
        assert(spec_failed_view(failed@) =~= Seq::<(Seq<char>, ThumbError)>::empty());
    }
    while jobs.len() > 0
        invariant
            old(renderer).wf(),
            renderer.wf(),
            jobs@.len() <= orig.len(),
            jobs@ == orig.skip(orig.len() - jobs@.len()),
            renderer.history@ == old(renderer).history@ + spec_oks(
                spec_flatten(orig.take(orig.len() - jobs@.len())),
            ),
            spec_failed_view(failed@) == spec_errs(spec_flatten(orig.take(orig.len() - jobs@.len()))),
            renderer.term == old(renderer).term,
            renderer.args == old(renderer).args,
        decreases jobs@.len(),
    {
        let ghost k = orig.len() - jobs@.len();
        proof {
            assert(jobs@[0] == orig[k]);
            assert(orig.skip(k).remove(0) =~= orig.skip(k + 1));
        }
        let mut job = jobs.remove(0);
        let ghost jorig = job@;
        let ghost hist_base = renderer.history@;
        let ghost failed_base = failed@;
        proof {
            assert(jorig.take(0) =~= Seq::<JobResult>::empty());
            assert(hist_base + spec_oks(jorig.take(0)) =~= hist_base);
            assert(spec_failed_view(failed_base) + spec_errs(jorig.take(0)) =~= spec_failed_view(
                failed_base,
            ));
        }
        while job.len() > 0
            invariant
                old(renderer).wf(),
                renderer.wf(),
                job@.len() <= jorig.len(),
                job@ == jorig.skip(jorig.len() - job@.len()),
                renderer.history@ == hist_base + spec_oks(jorig.take(jorig.len() - job@.len())),
                spec_failed_view(failed@) == spec_failed_view(failed_base) + spec_errs(
                    jorig.take(jorig.len() - job@.len()),
                ),
                renderer.term == old(renderer).term,
                renderer.args == old(renderer).args,
            decreases job@.len(),
        {
            let ghost j = jorig.len() - job@.len();
            proof {
                assert(job@[0] == jorig[j]);
                assert(jorig.skip(j).remove(0) =~= jorig.skip(j + 1));
            }
            let jr = job.remove(0);
            let ghost jrv = jr;
            consume_result(renderer, &mut failed, jr);
            proof {
                assert(jorig.take(j + 1) =~= jorig.take(j).push(jrv));
                assert(jorig.take(j).push(jrv) =~= jorig.take(j) + seq![jrv]);
                lemma_oks_errs_concat(jorig.take(j), seq![jrv]);
                assert(renderer.history@ =~= hist_base + spec_oks(jorig.take(j + 1)));
                assert(spec_failed_view(failed@) =~= spec_failed_view(failed_base) + spec_errs(
                    jorig.take(j + 1),
                ));
            }
        }
        proof {
            assert(jorig.take(jorig.len() as int) =~= jorig);
            assert(orig.take(k + 1) =~= orig.take(k).push(orig[k]));
            lemma_flatten_push(orig.take(k), orig[k]);
            lemma_oks_errs_concat(spec_flatten(orig.take(k)), jorig);
            assert(spec_flatten(orig.take(k + 1)) =~= spec_flatten(orig.take(k)) + jorig);
            assert(renderer.history@ =~= old(renderer).history@ + spec_oks(
                spec_flatten(orig.take(k + 1)),
            ));
            assert(spec_failed_view(failed@) =~= spec_errs(spec_flatten(orig.take(k + 1))));
        }
    }
    proof {
        assert(orig.take(orig.len() as int) =~= orig);
    }
    failed
}

} // verus!
