//! The producer's tick: every monitored site whose tracking snippet has been
//! added becomes one job on the stream. Nothing is deduplicated against
//! jobs still pending from earlier ticks.

use vstd::prelude::*;
use crate::job::{fields_view, job_fields, spec_job_fields, WebsiteEvent};
use crate::stream::{lemma_filter_step, StreamLog};

verus! {

/// The policy for which sites get a job: those whose snippet has been added.
pub open spec fn is_eligible() -> spec_fn(WebsiteEvent) -> bool {
    |site: WebsiteEvent| site.is_snipp_added
}

/// The sites of the registry snapshot that get a job this tick.
pub open spec fn eligible_sites(sites: Seq<WebsiteEvent>) -> Seq<WebsiteEvent> {
    sites.filter(is_eligible())
}

/// The jobs of one tick, in registry order.
pub open spec fn tick_jobs(sites: Seq<WebsiteEvent>) -> Seq<Seq<(Seq<char>, Seq<char>)>> {
    eligible_sites(sites).map_values(|site: WebsiteEvent| spec_job_fields(site.url@, site.id@))
}

/// Job fields as name/value sequences.
pub open spec fn jobs_view(jobs: Seq<Vec<(String, String)>>) -> Seq<Seq<(Seq<char>, Seq<char>)>> {
    jobs.map_values(|f: Vec<(String, String)>| fields_view(f@))
}

/// The fields of every job that one producer tick appends for this registry
/// snapshot: one per site with its snippet added, in registry order.
pub fn jobs_for_tick(sites: &Vec<WebsiteEvent>) -> (r: Vec<Vec<(String, String)>>)
    ensures
        jobs_view(r@) == tick_jobs(sites@),
{
    let mut r: Vec<Vec<(String, String)>> = Vec::new();
    let mut i: usize = 0;
    while i < sites.len()
        invariant
            i <= sites.len(),
            jobs_view(r@) == eligible_sites(sites@.subrange(0, i as int)).map_values(
                |site: WebsiteEvent| spec_job_fields(site.url@, site.id@),
            ),
        decreases sites.len() - i,
    {
        proof {
            lemma_filter_step(sites@, is_eligible(), i as int);
        }
        let ghost prev = r@;
        if sites[i].is_snipp_added {
            let f = job_fields(&sites[i]);
            r.push(f);
            assert(jobs_view(r@) =~= jobs_view(prev).push(spec_job_fields(sites@[i as int].url@, sites@[i as int].id@)));
        }
        i = i + 1;
        assert(jobs_view(r@) =~= eligible_sites(sites@.subrange(0, i as int)).map_values(
            |site: WebsiteEvent| spec_job_fields(site.url@, site.id@),
        ));
    }
    assert(sites@.subrange(0, sites.len() as int) =~= sites@);
    r
}

impl StreamLog {
    /// One producer tick on this stream: appends a job for every site of the
    /// snapshot whose snippet has been added, whether or not an earlier job
    /// for it is still pending. Returns how many were appended.
    pub fn publish_tick(&mut self, sites: &Vec<WebsiteEvent>) -> (r: usize)
        requires
            old(self).wf(),
            old(self)@.entries.len() + sites.len() + 1 < u64::MAX,
        ensures
            final(self).wf(),
            final(self)@.entries == old(self)@.entries + tick_jobs(sites@),
            final(self)@.groups == old(self)@.groups,
            r == tick_jobs(sites@).len(),
            forall|i: int| 0 <= i < sites.len() && (#[trigger] sites@[i]).is_snipp_added ==>
                exists|k: int| old(self)@.entries.len() <= k < final(self)@.entries.len()
                    && final(self)@.entries[k] == spec_job_fields(sites@[i].url@, sites@[i].id@),
    {
        let ghost before = self@;
        let mut n: usize = 0;
        let mut i: usize = 0;
        while i < sites.len()
            invariant
                i <= sites.len(),
                self.wf(),
                self@.groups == before.groups,
                self@.entries == before.entries + tick_jobs(sites@.subrange(0, i as int)),
                n == tick_jobs(sites@.subrange(0, i as int)).len(),
                n <= i,
                before.entries.len() + sites.len() + 1 < u64::MAX,
            decreases sites.len() - i,
        {
            proof {
                lemma_filter_step(sites@, is_eligible(), i as int);
            }
            if sites[i].is_snipp_added {
                let _ = self.append(job_fields(&sites[i]));
                n = n + 1;
            }
            i = i + 1;
            assert(self@.entries =~= before.entries + tick_jobs(sites@.subrange(0, i as int)));
        }
        assert(sites@.subrange(0, sites.len() as int) =~= sites@);
        let ghost all = tick_jobs(sites@);
        assert forall|i: int| 0 <= i < sites.len() && (#[trigger] sites@[i]).is_snipp_added implies
            exists|k: int| before.entries.len() <= k < self@.entries.len()
                && self@.entries[k] == spec_job_fields(sites@[i].url@, sites@[i].id@) by {
            sites@.lemma_filter_contains(is_eligible(), i);
            let m = choose|m: int| 0 <= m < eligible_sites(sites@).len() && eligible_sites(sites@)[m] == sites@[i];
            assert(self@.entries[before.entries.len() + m] == all[m]);
        }
        n
    }
}

} // verus!
