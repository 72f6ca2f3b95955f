//! The push service: which channel configurations apply to a dispatch and
//! how a shared remote list is filtered for one publisher configuration.

use vstd::prelude::*;
use crate::config::{Config, GithubPushConfig};
use crate::publisher::{foreign_lines, foreign_lines_of};
use crate::text::{join, join_with, str_eq};

verus! {

/// The notification dispatcher: reads the push-channel and list-publisher
/// configurations and prepares each channel's work.
pub struct PushService {
    /// The run's configuration; immutable for the run.
    pub config: Config,
}

impl PushService {
    /// A dispatcher over the given configuration.
    pub fn new(config: Config) -> (r: Self)
        ensures
            r.config == config,
    {
        PushService { config }
    }

    /// The positions of every push-channel configuration with the given
    /// channel name, in order.
    pub fn push_targets(&self, push_name: &str) -> (r: Vec<usize>)
        ensures
            self.config.push is None ==> r@.len() == 0,
            self.config.push is Some ==> {
                let cfgs = self.config.push->0@;
                &&& forall|j: int|
                    0 <= j < r@.len() ==> (r@[j] as int) < cfgs.len() && cfgs[r@[j] as int]
                        .push_name@ == push_name@
                &&& forall|k: int|
                    0 <= k < cfgs.len() && cfgs[k].push_name@ == push_name@ ==> exists|j: int|
                        0 <= j < r@.len() && r@[j] == k
                &&& forall|j1: int, j2: int| 0 <= j1 < j2 < r@.len() ==> r@[j1] < r@[j2]
            },
    {
        let mut out: Vec<usize> = Vec::new();
        match &self.config.push {
            None => out,
            Some(cfgs) => {
                let mut i: usize = 0;
                while i < cfgs.len()
                    invariant
                        self.config.push is Some,
                        cfgs@ == self.config.push->0@,
                        0 <= i <= cfgs@.len(),
                        forall|j: int|
                            0 <= j < out@.len() ==> (out@[j] as int) < i && cfgs@[out@[j] as int]
                                .push_name@ == push_name@,
                        forall|k: int|
                            0 <= k < i && cfgs@[k].push_name@ == push_name@ ==> exists|j: int|
                                0 <= j < out@.len() && out@[j] == k,
                        forall|j1: int, j2: int| 0 <= j1 < j2 < out@.len() ==> out@[j1] < out@[j2],
                    decreases cfgs@.len() - i,
                {
                    if str_eq(cfgs[i].push_name.as_str(), push_name) {
                        let ghost prev = out@;
                        out.push(i);
                        proof {
                            assert(out@[out@.len() - 1] == i);
                            assert forall|k: int|
                                0 <= k < i && cfgs@[k].push_name@ == push_name@ implies exists|
                                j: int,
                            | 0 <= j < out@.len() && out@[j] == k by {
                                let j = choose|j: int| 0 <= j < prev.len() && prev[j] == k;
                                assert(out@[j] == k);
                            }
                        }
                    }
                    i += 1;
                }
                out
            },
        }
    }

    /// The positions of every list-publisher configuration bound to the
    /// given resolve group, in order.
    pub fn github_targets(&self, ddns_name: &str) -> (r: Vec<usize>)
        ensures
            self.config.github_push is None ==> r@.len() == 0,
            self.config.github_push is Some ==> {
                let cfgs = self.config.github_push->0@;
                &&& forall|j: int|
                    0 <= j < r@.len() ==> (r@[j] as int) < cfgs.len() && cfgs[r@[j] as int]
                        .ddns_push@ == ddns_name@
                &&& forall|k: int|
                    0 <= k < cfgs.len() && cfgs[k].ddns_push@ == ddns_name@ ==> exists|j: int|
                        0 <= j < r@.len() && r@[j] == k
                &&& forall|j1: int, j2: int| 0 <= j1 < j2 < r@.len() ==> r@[j1] < r@[j2]
            },
    {
        let mut out: Vec<usize> = Vec::new();
        match &self.config.github_push {
            None => out,
            Some(cfgs) => {
                let mut i: usize = 0;
                while i < cfgs.len()
                    invariant
                        self.config.github_push is Some,
                        cfgs@ == self.config.github_push->0@,
                        0 <= i <= cfgs@.len(),
                        forall|j: int|
                            0 <= j < out@.len() ==> (out@[j] as int) < i && cfgs@[out@[j] as int]
                                .ddns_push@ == ddns_name@,
                        forall|k: int|
                            0 <= k < i && cfgs@[k].ddns_push@ == ddns_name@ ==> exists|j: int|
                                0 <= j < out@.len() && out@[j] == k,
                        forall|j1: int, j2: int| 0 <= j1 < j2 < out@.len() ==> out@[j1] < out@[j2],
                    decreases cfgs@.len() - i,
                {
                    if str_eq(cfgs[i].ddns_push.as_str(), ddns_name) {
                        let ghost prev = out@;
                        out.push(i);
                        proof {
                            assert(out@[out@.len() - 1] == i);
                            assert forall|k: int|
                                0 <= k < i && cfgs@[k].ddns_push@ == ddns_name@ implies exists|
                                j: int,
                            | 0 <= j < out@.len() && out@[j] == k by {
                                let j = choose|j: int| 0 <= j < prev.len() && prev[j] == k;
                                assert(out@[j] == k);
                            }
                        }
                    }
                    i += 1;
                }
                out
            },
        }
    }

    /// The remote file's content with every line of this configuration's
    /// own tag removed: foreign lines survive byte for byte, in order,
    /// joined by newlines.
    pub fn filter_github_content(&self, content: &str, config: &GithubPushConfig) -> (r: String)
        ensures
            r@ == join_with(
                foreign_lines_of(content@, config.port@, config.remark@, config.remark6@),
                "\n"@,
            ),
    {
        let kept = foreign_lines(content, config);
        join(&kept, "\n")
    }
}

} // verus!
