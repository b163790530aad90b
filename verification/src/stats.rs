//! The final report's numbers, computed from the registry's `done`
//! collection: totals, a histogram per cache status, a histogram per HTTP
//! status code, and the first URI that ran into a captcha.

use vstd::prelude::*;
use crate::CacheStatus;
use crate::registry::Loader;
use crate::resource::ResourceView;

verus! {

/// Number of completed resources with the given cache status.
pub open spec fn count_cache(done: Seq<ResourceView>, st: CacheStatus) -> nat
    decreases done.len(),
{
    if done.len() == 0 {
        0
    } else {
        count_cache(done.drop_last(), st) + if done.last().cache_status == st {
            1nat
        } else {
            0nat
        }
    }
}

/// Number of completed resources with the given HTTP status code.
pub open spec fn count_http(done: Seq<ResourceView>, code: u16) -> nat
    decreases done.len(),
{
    if done.len() == 0 {
        0
    } else {
        count_http(done.drop_last(), code) + if done.last().http_status == code {
            1nat
        } else {
            0nat
        }
    }
}

/// A status never occurs more often than there are completed resources.
pub proof fn lemma_count_cache_le(done: Seq<ResourceView>, st: CacheStatus)
    ensures
        count_cache(done, st) <= done.len(),
    decreases done.len(),
{
    if done.len() > 0 {
        lemma_count_cache_le(done.drop_last(), st);
    }
}

/// A status code never occurs more often than there are completed resources.
pub proof fn lemma_count_http_le(done: Seq<ResourceView>, code: u16)
    ensures
        count_http(done, code) <= done.len(),
    decreases done.len(),
{
    if done.len() > 0 {
        lemma_count_http_le(done.drop_last(), code);
    }
}

/// The report's numbers for one run.
pub struct Stats {
    /// How many resources reached `done`.
    pub total: usize,
    /// Completed resources whose cache status was `Hit`.
    pub hit: usize,
    /// Completed resources whose cache status was `Miss`.
    pub miss: usize,
    /// Completed resources whose cache status was `Bypass`.
    pub bypass: usize,
    /// Completed resources whose cache status was `Unset`.
    pub unset: usize,
    /// Completed resources that failed at the transport layer.
    pub error: usize,
    /// Every HTTP status code that occurred, each exactly once, with its
    /// count; codes in order of first completion.
    pub http_statuses: Vec<(u16, usize)>,
    /// URI of the first completed resource that saw the captcha marker.
    pub captcha_uri: Option<String>,
}

/// Where `code` sits in the histogram built so far, if anywhere.
fn find_code(hist: &Vec<(u16, usize)>, code: u16) -> (r: Option<usize>)
    ensures
        match r {
            Some(k) => k < hist@.len() && hist@[k as int].0 == code,
            None => forall|t: int| 0 <= t < hist@.len() ==> hist@[t].0 != code,
        },
{
    let n = hist.len();
    let mut k: usize = 0;
    while k < n
        invariant
            n == hist@.len(),
            k <= n,
            forall|t: int| 0 <= t < k ==> hist@[t].0 != code,
        decreases n - k,
    {
        if hist[k].0 == code {
            return Some(k);
        }
        k = k + 1;
    }
    None
}

/// The URI of the first completed resource that saw the captcha marker, if
/// any did.
fn first_captcha(loader: &Loader) -> (r: Option<String>)
    ensures
        match r {
            Some(u) => exists|i: int|
                {
                    &&& 0 <= i < loader@.done.len()
                    &&& loader@.done[i].captcha
                    &&& u@ == loader@.done[i].uri
                    &&& forall|j: int| 0 <= j < i ==> !loader@.done[j].captcha
                },
            None => forall|i: int| 0 <= i < loader@.done.len() ==> !loader@.done[i].captcha,
        },
{
    let total = loader.length_done();
    let mut j: usize = 0;
    while j < total
        invariant
            total == loader@.done.len(),
            j <= total,
            forall|t: int| 0 <= t < j ==> !loader@.done[t].captcha,
        decreases total - j,
    {
        let r = loader.done_resource(j);
        if r.captcha {
            return Some(r.uri.clone());
        }
        j = j + 1;
    }
    None
}

impl Loader {
    /// Compute the report: the total, one count per cache status, the exact
    /// histogram of the HTTP status codes that occurred, and the first URI
    /// that ran into a captcha.
    pub fn stats(&self) -> (s: Stats)
        ensures
            s.total == self@.done.len(),
            s.hit == count_cache(self@.done, CacheStatus::Hit),
            s.miss == count_cache(self@.done, CacheStatus::Miss),
            s.bypass == count_cache(self@.done, CacheStatus::Bypass),
            s.unset == count_cache(self@.done, CacheStatus::Unset),
            s.error == count_cache(self@.done, CacheStatus::Error),
            forall|k1: int, k2: int|
                0 <= k1 < k2 < s.http_statuses@.len() ==> s.http_statuses@[k1].0
                    != s.http_statuses@[k2].0,
            forall|k: int|
                0 <= k < s.http_statuses@.len() ==> s.http_statuses@[k].1 == count_http(
                    self@.done,
                    s.http_statuses@[k].0,
                ) && s.http_statuses@[k].1 > 0,
            forall|i: int|
                0 <= i < self@.done.len() ==> exists|k: int|
                    0 <= k < s.http_statuses@.len() && (#[trigger] s.http_statuses@[k]).0 == (
                    #[trigger] self@.done[i]).http_status,
            match s.captcha_uri {
                Some(u) => exists|i: int|
                    {
                        &&& 0 <= i < self@.done.len()
                        &&& self@.done[i].captcha
                        &&& u@ == self@.done[i].uri
                        &&& forall|j: int| 0 <= j < i ==> !self@.done[j].captcha
                    },
                None => forall|i: int| 0 <= i < self@.done.len() ==> !self@.done[i].captcha,
            },
    {
        let ghost done = self@.done;
        let total = self.length_done();
        let mut hit: usize = 0;
        let mut miss: usize = 0;
        let mut bypass: usize = 0;
        let mut unset: usize = 0;
        let mut error: usize = 0;
        let mut http_statuses: Vec<(u16, usize)> = Vec::new();
        let mut i: usize = 0;
        while i < total
            invariant
                done == self@.done,
                total == done.len(),
                i <= total,
                hit == count_cache(done.take(i as int), CacheStatus::Hit),
                miss == count_cache(done.take(i as int), CacheStatus::Miss),
                bypass == count_cache(done.take(i as int), CacheStatus::Bypass),
                unset == count_cache(done.take(i as int), CacheStatus::Unset),
                error == count_cache(done.take(i as int), CacheStatus::Error),
                forall|k1: int, k2: int|
                    0 <= k1 < k2 < http_statuses@.len() ==> http_statuses@[k1].0
                        != http_statuses@[k2].0,
                forall|k: int|
                    0 <= k < http_statuses@.len() ==> http_statuses@[k].1 == count_http(
                        done.take(i as int),
                        http_statuses@[k].0,
                    ) && http_statuses@[k].1 > 0,
                forall|j: int|
                    0 <= j < i ==> exists|k: int|
                        0 <= k < http_statuses@.len() && (#[trigger] http_statuses@[k]).0 == (
                        #[trigger] done[j]).http_status,
            decreases total - i,
        {
            let ghost pre = done.take(i as int);
            let ghost cur = done.take(i + 1);
            proof {
                assert(cur.drop_last() =~= pre);
                assert(cur.last() == done[i as int]);
                lemma_count_cache_le(pre, CacheStatus::Hit);
                lemma_count_cache_le(pre, CacheStatus::Miss);
                lemma_count_cache_le(pre, CacheStatus::Bypass);
                lemma_count_cache_le(pre, CacheStatus::Unset);
                lemma_count_cache_le(pre, CacheStatus::Error);
            }
            let r = self.done_resource(i);
            match r.cache_status {
                CacheStatus::Hit => {
                    hit = hit + 1;
                },
                CacheStatus::Miss => {
                    miss = miss + 1;
                },
                CacheStatus::Bypass => {
                    bypass = bypass + 1;
                },
                CacheStatus::Unset => {
                    unset = unset + 1;
                },
                CacheStatus::Error => {
                    error = error + 1;
                },
            }
            let code = r.http_status;
            let ghost pre_hist = http_statuses@;
            match find_code(&http_statuses, code) {
                Some(k) => {
                    let ghost old_count = http_statuses@[k as int].1;
                    proof {
                        lemma_count_http_le(pre, code);
                    }
                    let count = http_statuses[k].1;
                    http_statuses[k] = (code, count + 1);
                    proof {
                        assert forall|t: int|
                            0 <= t < http_statuses@.len() implies http_statuses@[t].1
                            == count_http(cur, http_statuses@[t].0) && http_statuses@[t].1 > 0 by {
                            if t == k {
                                assert(http_statuses@[t] == (code, (old_count + 1) as usize));
                            } else {
                                assert(http_statuses@[t] == pre_hist[t]);
                                assert(http_statuses@[t].0 != code);
                            }
                        }
                        assert forall|j: int| 0 <= j < i + 1 implies exists|t: int|
                            0 <= t < http_statuses@.len() && (#[trigger] http_statuses@[t]).0 == (
                            #[trigger] done[j]).http_status by {
                            if j < i {
                                let t = choose|t: int|
                                    0 <= t < pre_hist.len() && pre_hist[t].0
                                        == done[j].http_status;
                                assert(http_statuses@[t].0 == done[j].http_status);
                            } else {
                                assert(http_statuses@[k as int].0 == done[j].http_status);
                            }
                        }
                    }
                },
                None => {
                    http_statuses.push((code, 1));
                    proof {
                        assert forall|t: int|
                            0 <= t < http_statuses@.len() implies http_statuses@[t].1
                            == count_http(cur, http_statuses@[t].0) && http_statuses@[t].1 > 0 by {
                            if t < pre_hist.len() {
                                assert(http_statuses@[t] == pre_hist[t]);
                                assert(http_statuses@[t].0 != code);
                            } else {
                                assert(http_statuses@[t] == (code, 1usize));
                                assert(count_http(pre, code) == 0) by {
                                    lemma_absent_count_http_zero(pre, code, pre_hist);
                                }
                            }
                        }
                        assert forall|j: int| 0 <= j < i + 1 implies exists|t: int|
                            0 <= t < http_statuses@.len() && (#[trigger] http_statuses@[t]).0 == (
                            #[trigger] done[j]).http_status by {
                            if j < i {
                                let t = choose|t: int|
                                    0 <= t < pre_hist.len() && pre_hist[t].0
                                        == done[j].http_status;
                                assert(http_statuses@[t].0 == done[j].http_status);
                            } else {
                                assert(http_statuses@[pre_hist.len() as int].0
                                    == done[j].http_status);
                            }
                        }
                    }
                },
            }
            i = i + 1;
        }
        proof {
            assert(done.take(total as int) =~= done);
        }
        let captcha_uri = first_captcha(self);
        Stats { total, hit, miss, bypass, unset, error, http_statuses, captcha_uri }
    }
}

/// A status code that occurs in a prefix has a histogram entry; with no
/// entry, its count in the prefix is zero.
proof fn lemma_absent_count_http_zero(pre: Seq<ResourceView>, code: u16, hist: Seq<(u16, usize)>)
    requires
        forall|j: int|
            0 <= j < pre.len() ==> exists|t: int|
                0 <= t < hist.len() && (#[trigger] hist[t]).0 == (#[trigger] pre[j]).http_status,
        forall|t: int| 0 <= t < hist.len() ==> (#[trigger] hist[t]).0 != code,
    ensures
        count_http(pre, code) == 0,
    decreases pre.len(),
{
    if pre.len() > 0 {
        assert(pre.drop_last() =~= pre.take(pre.len() - 1));
        assert forall|j: int| 0 <= j < pre.drop_last().len() implies exists|t: int|
            0 <= t < hist.len() && (#[trigger] hist[t]).0 == (#[trigger] pre.drop_last()[j]).http_status by {
            assert(pre.drop_last()[j] == pre[j]);
        }
        lemma_absent_count_http_zero(pre.drop_last(), code, hist);
        assert(pre.last().http_status != code);
    }
}

} // verus!
