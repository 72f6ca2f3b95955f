//! The decisions of one run: which hostnames are targeted, whether the
//! run only re-reads a previous result, what each address family's cycle
//! does, and when the traffic-shaping plugin is stopped, restarted and
//! finally started again.
//!
//! The surrounding process performs the steps in the fixed order — stop
//! plugin, per-family acquire/reconcile/notify, final start — and asks
//! these functions at each decision point.

use vstd::prelude::*;
use vstd::string::*;
use crate::candidates::IpFamily;
use crate::cfst::{arg_after, get_result_csv_path, parse_cf_command_for_file};
use crate::config::{is_unspecified, Resolve};
use crate::text::{copy_str, join, join_with, tokens, tokens_of};

verus! {

/// One target hostname: a subdomain joined to the apex domain.
pub open spec fn domain_of(sub: Seq<char>, apex: Seq<char>) -> Seq<char> {
    sub + "."@ + apex
}

/// The full hostname list of a resolve group: each subdomain token joined
/// to the apex domain.
pub open spec fn domains_of(subs: Seq<char>, apex: Seq<char>) -> Seq<Seq<char>> {
    tokens_of(subs).map_values(|t: Seq<char>| domain_of(t, apex))
}

/// Build the target hostnames of one run: every subdomain of the group
/// joined to its apex domain, or no hostnames at all when no account is
/// configured.
pub fn build_domains(hostname1: &str, hostname2: &str, add_ddns: &str) -> (r: Vec<String>)
    ensures
        !is_unspecified(add_ddns@) ==> r.deep_view() == domains_of(hostname2@, hostname1@),
        is_unspecified(add_ddns@) ==> r.deep_view() == Seq::<Seq<char>>::empty(),
{
    let mut out: Vec<String> = Vec::new();
    if !crate::config::names_account(add_ddns) {
        proof {
            assert(out.deep_view() =~= Seq::<Seq<char>>::empty());
        }
        return out;
    }
    let subs = tokens(hostname2);
    let ghost sv = subs.deep_view();
    let mut i: usize = 0;
    proof {
        assert(out.deep_view() =~= sv.take(0).map_values(|t: Seq<char>| domain_of(t, hostname1@)));
    }
    while i < subs.len()
        invariant
            sv == subs.deep_view(),
            sv == tokens_of(hostname2@),
            0 <= i <= sv.len(),
            out.deep_view() =~= sv.take(i as int).map_values(
                |t: Seq<char>| domain_of(t, hostname1@),
            ),
        decreases sv.len() - i,
    {
        let ghost prev = out.deep_view();
        let mut d = copy_str(subs[i].as_str());
        d.append(".");
        d.append(hostname1);
        proof {
            assert(d@ =~= domain_of(sv[i as int], hostname1@));
        }
        out.push(d);
        proof {
            assert(out.deep_view() =~= prev.push(domain_of(sv[i as int], hostname1@)));
            assert(out.deep_view() =~= sv.take(i + 1).map_values(
                |t: Seq<char>| domain_of(t, hostname1@),
            ));
        }
        i += 1;
    }
    proof {
        assert(sv.take(sv.len() as int) =~= sv);
        assert(out.deep_view() =~= domains_of(hostname2@, hostname1@));
    }
    out
}

/// Whether the run skips measurement entirely and only re-reads the
/// previous result file: both family quotas are zero.
pub fn force_read_mode(v4_num: u32, v6_num: u32) -> (r: bool)
    ensures
        r == (v4_num == 0 && v6_num == 0),
{
    v4_num == 0 && v6_num == 0
}

/// What one address family's cycle does within a run.
pub struct FamilyPlan {
    /// The family this plan is for.
    pub family: IpFamily,
    /// The family's configured quota.
    pub quota: u32,
    /// The family's configured candidate-list URL.
    pub url: String,
    /// The provider record type of the family.
    pub record_type: String,
    /// Whether the family is measured at all this run.
    pub active: bool,
    /// Whether a candidate list is downloaded into the prober's input file
    /// first.
    pub download: bool,
}

/// Decide one family's cycle: it is active when the run measures at all
/// and the family's quota is positive, and it downloads a candidate list
/// first exactly when it is active, a source URL is configured and the
/// prober's argument string designates an input file.
pub fn plan_family(resolve: &Resolve, family: IpFamily) -> (r: FamilyPlan)
    ensures
        r.family == family,
        r.quota == (if family == IpFamily::V4 {
            resolve.v4_num
        } else {
            resolve.v6_num
        }),
        r.url@ == (if family == IpFamily::V4 {
            resolve.v4_url@
        } else {
            resolve.v6_url@
        }),
        r.record_type@ == (if family == IpFamily::V4 {
            "A"@
        } else {
            "AAAA"@
        }),
        r.active == (!(resolve.v4_num == 0 && resolve.v6_num == 0) && r.quota > 0),
        r.download == (r.active && arg_after(tokens_of(resolve.cf_command@), "-f"@) is Some
            && r.url@.len() > 0),
{
    let quota: u32 = match family {
        IpFamily::V4 => resolve.v4_num,
        IpFamily::V6 => resolve.v6_num,
    };
    let url: String = match family {
        IpFamily::V4 => copy_str(resolve.v4_url.as_str()),
        IpFamily::V6 => copy_str(resolve.v6_url.as_str()),
    };
    let record_type: String = match family {
        IpFamily::V4 => copy_str("A"),
        IpFamily::V6 => copy_str("AAAA"),
    };
    let force = force_read_mode(resolve.v4_num, resolve.v6_num);
    let active = !force && quota > 0;
    let input_file = parse_cf_command_for_file(resolve.cf_command.as_str(), "-f");
    let download = active && input_file.is_some() && !url.as_str().is_empty();
    FamilyPlan { family, quota, url, record_type, active, download }
}

/// The prober input file of a run, when its argument string designates
/// one.
pub fn plan_input_file(resolve: &Resolve) -> (r: Option<String>)
    ensures
        r.deep_view() == arg_after(tokens_of(resolve.cf_command@), "-f"@),
{
    parse_cf_command_for_file(resolve.cf_command.as_str(), "-f")
}

/// The result-file path of a run.
pub fn plan_result_path(resolve: &Resolve) -> (r: String)
    ensures
        r@ == (match arg_after(tokens_of(resolve.cf_command@), "-o"@) {
            Some(p) => p,
            None => "result.csv"@,
        }),
{
    get_result_csv_path(resolve.cf_command.as_str())
}

/// The space-separated hostname line handed to the notification renderer.
pub fn hostnames_line(domains: &Vec<String>) -> (r: String)
    ensures
        r@ == join_with(domains.deep_view(), " "@),
{
    join(domains, " ")
}

/// The plugin lifecycle around the record-mutation window.
///
/// The controller moves Idle → Stopped → Running → Idle; with no managed
/// plugin it never transitions and every step is a no-op success.  The
/// final start must run on every exit path exactly when the stop step
/// succeeded, so the local service is never left stopped.  A run that
/// mutates no records pauses the plugin only when the configuration asks
/// for it explicitly.
pub struct PluginController {
    /// Whether this run manages a real plugin.
    pub managed: bool,
    /// Whether the stop step was attempted and succeeded.
    pub stopped: bool,
}

impl PluginController {
    /// Set up the controller for a configured plugin name.  An empty name
    /// or the unspecified sentinel means a no-op controller; a named
    /// plugin is managed when the run is expected to mutate records, or
    /// when the configuration explicitly asks for a pause even without
    /// mutation.
    pub fn new(clien: &str, mutation_expected: bool, pause_without_mutation: bool) -> (r: Self)
        ensures
            r.managed == (clien@.len() > 0 && !is_unspecified(clien@) && (mutation_expected
                || pause_without_mutation)),
            !r.stopped,
    {
        let named = !clien.is_empty() && crate::config::names_account(clien);
        let managed = named && (mutation_expected || pause_without_mutation);
        PluginController { managed, stopped: false }
    }

    /// Whether the stop step should be attempted at all.
    pub fn should_stop(&self) -> (r: bool)
        ensures
            r == self.managed,
    {
        self.managed
    }

    /// Record the stop step's outcome.  A failed stop is tolerated; the
    /// later restart and start steps are then skipped.
    pub fn note_stop_result(&mut self, success: bool)
        requires
            old(self).managed,
        ensures
            final(self).managed == old(self).managed,
            final(self).stopped == success,
    {
        self.stopped = success;
    }

    /// Whether the per-family restart step runs: only for a managed
    /// plugin whose stop step succeeded.
    pub fn should_restart(&self) -> (r: bool)
        ensures
            r == (self.managed && self.stopped),
    {
        self.managed && self.stopped
    }

    /// Whether the final start step runs: exactly when the stop step
    /// succeeded, on every termination path.
    pub fn should_start_finally(&self) -> (r: bool)
        ensures
            r == (self.managed && self.stopped),
    {
        self.managed && self.stopped
    }
}

/// Everything one push dispatch needs, for one family.
pub struct PushParams {
    /// The configured channel list.
    pub push_mod: String,
    /// The space-separated hostname line for the rendered text.
    pub hostnames: String,
    /// The IPv4 quota of the run.
    pub v4_num: u32,
    /// The IPv6 quota of the run.
    pub v6_num: u32,
    /// The family this dispatch reports on.
    pub family: IpFamily,
    /// The resolve group's name, which selects the list-publisher
    /// configurations.
    pub ddns_name: String,
    /// The family's fresh candidate addresses.
    pub ips: Vec<String>,
    /// The target hostnames of the run.
    pub domains: Vec<String>,
    /// The account reference of the run.
    pub add_ddns: String,
    /// The prober argument string the result-file path is derived from.
    pub csvfile: String,
}

/// Whether a family's dispatch fires at all: only with at least one fresh
/// address and a channel list that is neither empty nor disabled.
pub fn push_wanted(params: &PushParams) -> (r: bool)
    ensures
        r == (params.ips@.len() > 0 && params.push_mod@.len() > 0 && params.push_mod@
            != "unset"@),
{
    !self_is_empty(&params.ips) && crate::notify::push_configured(params.push_mod.as_str())
}

/// Whether a vector holds nothing.
fn self_is_empty(v: &Vec<String>) -> (r: bool)
    ensures
        r == (v@.len() == 0),
{
    v.len() == 0
}

/// The record-log lines for a result map: one `hostname=addr,addr` line
/// per hostname, in map order.
pub open spec fn informlog_of(mv: Seq<(Seq<char>, Seq<Seq<char>>)>) -> Seq<char>
    decreases mv.len(),
{
    if mv.len() == 0 {
        Seq::<char>::empty()
    } else {
        informlog_of(mv.drop_last()) + mv.last().0 + "="@ + join_with(mv.last().1, ","@) + "\n"@
    }
}

/// Every address of a result map, in map order.
pub open spec fn all_ips_of(mv: Seq<(Seq<char>, Seq<Seq<char>>)>) -> Seq<Seq<char>>
    decreases mv.len(),
{
    if mv.len() == 0 {
        Seq::<Seq<char>>::empty()
    } else {
        all_ips_of(mv.drop_last()) + mv.last().1
    }
}

/// Render the record log of one run: with a configured account, one
/// `hostname=addresses` line per hostname; without one, a single
/// `unspecified=` line holding every address, or nothing when there is
/// none.
pub fn generate_informlog_content(add_ddns: &str, map: &Vec<(String, Vec<String>)>) -> (r: String)
    ensures
        !is_unspecified(add_ddns@) ==> r@ == informlog_of(crate::reconcile::map_view(map@)),
        is_unspecified(add_ddns@) ==> r@ == ({
            let all = all_ips_of(crate::reconcile::map_view(map@));
            if all.len() > 0 {
                "unspecified="@ + join_with(all, ","@) + "\n"@
            } else {
                Seq::<char>::empty()
            }
        }),
{
    let ghost mv = crate::reconcile::map_view(map@);
    let mut out = String::new();
    if crate::config::names_account(add_ddns) {
        let mut i: usize = 0;
        proof {
            assert(out@ =~= informlog_of(mv.take(0)));
        }
        while i < map.len()
            invariant
                mv == crate::reconcile::map_view(map@),
                0 <= i <= mv.len(),
                out@ =~= informlog_of(mv.take(i as int)),
            decreases mv.len() - i,
        {
            proof {
                assert(mv.take(i + 1).drop_last() =~= mv.take(i as int));
                assert(mv.take(i + 1).last() == mv[i as int]);
            }
            out.append(map[i].0.as_str());
            out.append("=");
            let joined = join(&map[i].1, ",");
            out.append(joined.as_str());
            out.append("\n");
            proof {
                assert(mv[i as int].1 == map@[i as int].1.deep_view());
                assert(out@ =~= informlog_of(mv.take(i + 1)));
            }
            i += 1;
        }
        proof {
            assert(mv.take(mv.len() as int) =~= mv);
        }
        out
    } else {
        let mut all: Vec<String> = Vec::new();
        let mut i: usize = 0;
        proof {
            assert(all.deep_view() =~= all_ips_of(mv.take(0)));
        }
        while i < map.len()
            invariant
                mv == crate::reconcile::map_view(map@),
                0 <= i <= mv.len(),
                all.deep_view() =~= all_ips_of(mv.take(i as int)),
            decreases mv.len() - i,
        {
            proof {
                assert(mv.take(i + 1).drop_last() =~= mv.take(i as int));
                assert(mv.take(i + 1).last() == mv[i as int]);
            }
            let ghost prev = all.deep_view();
            let mut j: usize = 0;
            while j < map[i].1.len()
                invariant
                    mv == crate::reconcile::map_view(map@),
                    0 <= i < mv.len(),
                    0 <= j <= map@[i as int].1@.len(),
                    mv[i as int].1 == map@[i as int].1.deep_view(),
                    all.deep_view() =~= prev + mv[i as int].1.take(j as int),
                decreases map@[i as int].1@.len() - j,
            {
                let ghost before = all.deep_view();
                all.push(copy_str(map[i].1[j].as_str()));
                proof {
                    assert(all.deep_view() =~= before.push(mv[i as int].1[j as int]));
                    assert(all.deep_view() =~= prev + mv[i as int].1.take(j + 1));
                }
                j += 1;
            }
            proof {
                assert(mv[i as int].1.take(mv[i as int].1.len() as int) =~= mv[i as int].1);
                assert(all.deep_view() =~= all_ips_of(mv.take(i + 1)));
            }
            i += 1;
        }
        proof {
            assert(mv.take(mv.len() as int) =~= mv);
        }
        if all.len() > 0 {
            out.append("unspecified=");
            let joined = join(&all, ",");
            out.append(joined.as_str());
            out.append("\n");
            proof {
                assert(out@ =~= "unspecified="@ + join_with(all_ips_of(mv), ","@) + "\n"@);
            }
        }
        out
    }
}

} // verus!
