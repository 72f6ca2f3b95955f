//! The DNS reconciler's decisions: which existing records are stale, how
//! candidates are distributed over hostnames, and how creation outcomes are
//! folded into the per-run result map.
//!
//! The provider calls themselves happen outside; these functions pin down
//! exactly what is deleted, what is created, and what is recorded.

use vstd::prelude::*;
use crate::config::is_unspecified;
use crate::text::{copy_str, str_eq};

verus! {

/// One record as observed at the provider: its identifier and its address
/// content.
#[derive(Debug, PartialEq, Eq)]
pub struct DnsRecord {
    pub id: String,
    pub content: String,
}

/// How the provider answered one record-creation call.
#[derive(Clone, Copy, Debug, PartialEq, Eq, Structural)]
pub enum CreateOutcome {
    /// The record was created.
    Created,
    /// The provider reported the record as already existing: a no-op, not an
    /// error.
    AlreadyExists,
    /// Any other provider failure; the assignment is skipped, not retried.
    Failed,
}

/// The records of `existing` whose content is not among the desired
/// addresses, in their original order.
pub open spec fn stale_of(existing: Seq<DnsRecord>, desired: Seq<Seq<char>>) -> Seq<DnsRecord> {
    existing.filter(|rec: DnsRecord| !desired.contains(rec.content@))
}

/// Membership in the stale set: a record is stale exactly when it exists
/// and its content is not desired.
pub proof fn lemma_stale_membership(existing: Seq<DnsRecord>, desired: Seq<Seq<char>>, rec: DnsRecord)
    ensures
        stale_of(existing, desired).contains(rec) <==> (existing.contains(rec)
            && !desired.contains(rec.content@)),
    decreases existing.len(),
{
    reveal(Seq::filter);
    if existing.len() == 0 {
        assert(!existing.contains(rec));
    } else {
        let shorter = existing.drop_last();
        let last = existing.last();
        lemma_stale_membership(shorter, desired, rec);
        assert(existing.contains(rec) <==> (shorter.contains(rec) || rec == last)) by {
            if existing.contains(rec) {
                let w = choose|w: int| 0 <= w < existing.len() && existing[w] == rec;
                if w < existing.len() - 1 {
                    assert(shorter[w] == rec);
                    assert(shorter.contains(rec));
                }
            }
            if shorter.contains(rec) {
                let w = choose|w: int| 0 <= w < shorter.len() && shorter[w] == rec;
                assert(existing[w] == rec);
                assert(existing.contains(rec));
            }
            if rec == last {
                assert(existing[existing.len() - 1] == rec);
                assert(existing.contains(rec));
            }
        }
        let whole = stale_of(existing, desired);
        let part = stale_of(shorter, desired);
        if !desired.contains(last.content@) {
            assert(whole == part.push(last));
            assert(whole.contains(rec) <==> (part.contains(rec) || rec == last)) by {
                if whole.contains(rec) {
                    let w = choose|w: int| 0 <= w < whole.len() && whole[w] == rec;
                    if w < whole.len() - 1 {
                        assert(part[w] == rec);
                        assert(part.contains(rec));
                    }
                }
                if part.contains(rec) {
                    let w = choose|w: int| 0 <= w < part.len() && part[w] == rec;
                    assert(whole[w] == rec);
                    assert(whole.contains(rec));
                }
                if rec == last {
                    assert(whole[whole.len() - 1] == rec);
                    assert(whole.contains(rec));
                }
            }
        } else {
            assert(whole == part);
        }
    }
}

/// Select the stale records: those existing records whose address is not in
/// the desired candidate set.  Deleting exactly these makes the provider's
/// state authoritative for the new set.
pub fn compute_stale(existing: &Vec<DnsRecord>, desired: &Vec<String>) -> (r: Vec<DnsRecord>)
    ensures
        r@ == stale_of(existing@, desired.deep_view()),
{
    let ghost des = desired.deep_view();
    let mut out: Vec<DnsRecord> = Vec::new();
    let mut i: usize = 0;
    proof {
        reveal(Seq::filter);
        assert(out@ =~= stale_of(existing@.take(0), des));
    }
    while i < existing.len()
        invariant
            des == desired.deep_view(),
            0 <= i <= existing@.len(),
            out@ =~= stale_of(existing@.take(i as int), des),
        decreases existing@.len() - i,
    {
        proof {
            reveal(Seq::filter);
            assert(existing@.take(i + 1).drop_last() =~= existing@.take(i as int));
            assert(existing@.take(i + 1).last() == existing@[i as int]);
        }
        if !contains_string(desired, existing[i].content.as_str()) {
            let rec = DnsRecord {
                id: existing[i].id.clone(),
                content: existing[i].content.clone(),
            };
            assert(rec == existing@[i as int]);
            out.push(rec);
        }
        i += 1;
    }
    proof {
        assert(existing@.take(existing@.len() as int) =~= existing@);
    }
    out
}

/// Whether some string in `v` has the same characters as `s`.
pub fn contains_string(v: &Vec<String>, s: &str) -> (r: bool)
    ensures
        r == v.deep_view().contains(s@),
{
    let mut i: usize = 0;
    while i < v.len()
        invariant
            0 <= i <= v@.len(),
            forall|j: int| 0 <= j < i ==> v.deep_view()[j] != s@,
        decreases v@.len() - i,
    {
        if str_eq(v[i].as_str(), s) {
            assert(v.deep_view()[i as int] == s@);
            return true;
        }
        i += 1;
    }
    false
}

/// The round-robin assignment of ranked candidates over hostnames:
/// candidate `i` goes to hostname `i mod D`.
pub open spec fn assignments_of(ips: Seq<Seq<char>>, domains: Seq<Seq<char>>) -> Seq<
    (Seq<char>, Seq<char>),
>
    recommends
        domains.len() > 0,
{
    Seq::new(ips.len(), |i: int| (domains[i % (domains.len() as int)], ips[i]))
}

/// The assignment used when no account is configured: every candidate is
/// paired with an empty hostname.
pub open spec fn blank_assignments(ips: Seq<Seq<char>>) -> Seq<(Seq<char>, Seq<char>)> {
    Seq::new(ips.len(), |i: int| (Seq::<char>::empty(), ips[i]))
}

/// The hostname–address pairs of an assignment list.
pub open spec fn pair_view(m: Seq<(String, String)>) -> Seq<(Seq<char>, Seq<char>)> {
    m.map_values(|e: (String, String)| (e.0@, e.1@))
}

/// Round-robin distribution: for any candidate count and any non-empty
/// hostname list, assignment `i` pairs hostname `i mod D` with candidate
/// `i`, and every candidate is assigned.
pub proof fn lemma_round_robin(ips: Seq<Seq<char>>, domains: Seq<Seq<char>>)
    requires
        domains.len() > 0,
    ensures
        assignments_of(ips, domains).len() == ips.len(),
        forall|i: int| 0 <= i < ips.len() ==> #[trigger] assignments_of(ips, domains)[i].0
            == domains[i % (domains.len() as int)],
        forall|i: int| 0 <= i < ips.len() ==> #[trigger] assignments_of(ips, domains)[i].1
            == ips[i],
{
}

/// Distribute the candidates over the hostnames round-robin by rank order.
/// With no account configured, or no hostnames, every candidate is paired
/// with an empty hostname instead.
pub fn create_domain_ip_mapping(ips: &Vec<String>, domains: &Vec<String>, add_ddns: &str) -> (r:
    Vec<(String, String)>)
    ensures
        !is_unspecified(add_ddns@) && domains@.len() > 0 ==> pair_view(r@) == assignments_of(
            ips.deep_view(),
            domains.deep_view(),
        ),
        is_unspecified(add_ddns@) || domains@.len() == 0 ==> pair_view(r@) == blank_assignments(
            ips.deep_view(),
        ),
{
    let mut out: Vec<(String, String)> = Vec::new();
    let mut i: usize = 0;
    if str_eq(add_ddns, "unspecified") || domains.len() == 0 {
        while i < ips.len()
            invariant
                0 <= i <= ips@.len(),
                pair_view(out@) =~= blank_assignments(ips.deep_view().take(i as int)),
            decreases ips@.len() - i,
        {
            let ghost prev = pair_view(out@);
            out.push((String::new(), ips[i].clone()));
            proof {
                assert(pair_view(out@) =~= prev.push((Seq::<char>::empty(), ips.deep_view()[
                    i as int
                ])));
                assert(pair_view(out@) =~= blank_assignments(ips.deep_view().take(i + 1)));
            }
            i += 1;
        }
        proof {
            assert(ips.deep_view().take(ips@.len() as int) =~= ips.deep_view());
            assert(pair_view(out@) =~= blank_assignments(ips.deep_view()));
        }
    } else {
        let dcount: usize = domains.len();
        while i < ips.len()
            invariant
                dcount == domains@.len(),
                dcount > 0,
                0 <= i <= ips@.len(),
                pair_view(out@) =~= assignments_of(
                    ips.deep_view().take(i as int),
                    domains.deep_view(),
                ),
            decreases ips@.len() - i,
        {
            let d = i % dcount;
            let ghost prev = pair_view(out@);
            out.push((domains[d].clone(), ips[i].clone()));
            proof {
                assert(pair_view(out@) =~= prev.push((
                    domains.deep_view()[d as int],
                    ips.deep_view()[i as int],
                )));
                assert(pair_view(out@) =~= assignments_of(
                    ips.deep_view().take(i + 1),
                    domains.deep_view(),
                ));
            }
            i += 1;
        }
        proof {
            assert(ips.deep_view().take(ips@.len() as int) =~= ips.deep_view());
            assert(pair_view(out@) =~= assignments_of(ips.deep_view(), domains.deep_view()));
        }
    }
    out
}

/// The authoritative diff: a record whose address is both existing and
/// desired is not deleted; one only existing is deleted; every desired
/// address appears in the create list.  (Creating an address the provider
/// already holds is answered with its duplicate report, which
/// `note_creation` turns into a no-op.)
pub proof fn lemma_authoritative_diff(
    existing: Seq<DnsRecord>,
    desired: Seq<Seq<char>>,
    domains: Seq<Seq<char>>,
)
    requires
        domains.len() > 0,
    ensures
        forall|i: int| 0 <= i < existing.len() && desired.contains(#[trigger] existing[i].content@)
            ==> !stale_of(existing, desired).contains(existing[i]),
        forall|i: int| 0 <= i < existing.len() && !desired.contains(
            #[trigger] existing[i].content@,
        ) ==> stale_of(existing, desired).contains(existing[i]),
        forall|i: int| 0 <= i < desired.len() ==> #[trigger] assignments_of(desired, domains)[i].1
            == desired[i],
{
    assert forall|i: int| 0 <= i < existing.len() && desired.contains(
        #[trigger] existing[i].content@,
    ) implies !stale_of(existing, desired).contains(existing[i]) by {
        lemma_stale_membership(existing, desired, existing[i]);
    }
    assert forall|i: int| 0 <= i < existing.len() && !desired.contains(
        #[trigger] existing[i].content@,
    ) implies stale_of(existing, desired).contains(existing[i]) by {
        lemma_stale_membership(existing, desired, existing[i]);
    }
}

/// The hostname → addresses view of the result map.
pub open spec fn map_view(m: Seq<(String, Vec<String>)>) -> Seq<(Seq<char>, Seq<Seq<char>>)> {
    m.map_values(|e: (String, Vec<String>)| (e.0@, e.1.deep_view()))
}

/// A fresh copy of a vector of strings.
pub fn clone_strings(v: &Vec<String>) -> (r: Vec<String>)
    ensures
        r.deep_view() == v.deep_view(),
{
    let mut out: Vec<String> = Vec::new();
    let mut i: usize = 0;
    while i < v.len()
        invariant
            0 <= i <= v@.len(),
            out.deep_view() =~= v.deep_view().take(i as int),
        decreases v@.len() - i,
    {
        let ghost prev = out.deep_view();
        out.push(v[i].clone());
        proof {
            assert(out.deep_view() =~= prev.push(v.deep_view()[i as int]));
            assert(out.deep_view() =~= v.deep_view().take(i + 1));
        }
        i += 1;
    }
    proof {
        assert(v.deep_view().take(v@.len() as int) =~= v.deep_view());
    }
    out
}

/// Fold one creation outcome into the result map.  Only a successful
/// creation is recorded: the address is appended under its hostname, a new
/// entry being opened for a first success.  A duplicate report or a failure
/// leaves the map untouched, so an "already exists" answer never appears in
/// the result.
pub fn note_creation(
    map: Vec<(String, Vec<String>)>,
    domain: &str,
    ip: &str,
    outcome: CreateOutcome,
) -> (r: Vec<(String, Vec<String>)>)
    ensures
        outcome != CreateOutcome::Created ==> map_view(r@) == map_view(map@),
        outcome == CreateOutcome::Created && (forall|k: int|
            0 <= k < map@.len() ==> map_view(map@)[k].0 != domain@) ==> map_view(r@)
            =~= map_view(map@).push((domain@, seq![ip@])),
        outcome == CreateOutcome::Created ==> forall|k: int|
            0 <= k < map@.len() && map_view(map@)[k].0 == domain@ && (forall|j: int|
                0 <= j < k ==> map_view(map@)[j].0 != domain@) ==> map_view(r@) =~= map_view(
                map@,
            ).update(k, (domain@, map_view(map@)[k].1.push(ip@))),
{
    if outcome != CreateOutcome::Created {
        return map;
    }
    let ghost mv = map_view(map@);
    let mut out: Vec<(String, Vec<String>)> = Vec::new();
    let mut found = false;
    let ghost mut k0: int = 0int;
    let mut i: usize = 0;
    while i < map.len()
        invariant
            mv == map_view(map@),
            0 <= i <= map@.len(),
            !found ==> map_view(out@) =~= mv.take(i as int),
            !found ==> forall|j: int| 0 <= j < i ==> mv[j].0 != domain@,
            found ==> 0 <= k0 < i && mv[k0].0 == domain@ && (forall|j: int|
                0 <= j < k0 ==> mv[j].0 != domain@),
            found ==> map_view(out@) =~= mv.take(i as int).update(
                k0,
                (domain@, mv[k0].1.push(ip@)),
            ),
        decreases map@.len() - i,
    {
        let ghost prev = map_view(out@);
        let key = &map[i].0;
        let val = &map[i].1;
        if !found && str_eq(key.as_str(), domain) {
            let mut new_val = clone_strings(val);
            let ghost base_val = new_val.deep_view();
            new_val.push(copy_str(ip));
            proof {
                assert(new_val.deep_view() =~= base_val.push(ip@));
                assert(mv[i as int].1 == map@[i as int].1.deep_view());
            }
            let ghost nv = new_val.deep_view();
            out.push((copy_str(key.as_str()), new_val));
            found = true;
            proof {
                k0 = i as int;
                assert(map_view(out@) =~= prev.push((domain@, nv)));
                assert(nv =~= mv[k0].1.push(ip@));
                assert(map_view(out@) =~= mv.take(i + 1).update(
                    k0,
                    (domain@, mv[k0].1.push(ip@)),
                ));
            }
        } else {
            let cloned = clone_strings(val);
            let ghost cv = cloned.deep_view();
            out.push((copy_str(key.as_str()), cloned));
            proof {
                assert(mv[i as int].1 == map@[i as int].1.deep_view());
                assert(map_view(out@) =~= prev.push((mv[i as int].0, cv)));
                assert(map_view(out@) =~= prev.push(mv[i as int]));
                if found {
                    assert(map_view(out@) =~= mv.take(i + 1).update(
                        k0,
                        (domain@, mv[k0].1.push(ip@)),
                    ));
                } else {
                    assert(map_view(out@) =~= mv.take(i + 1));
                }
            }
        }
        i += 1;
    }
    proof {
        assert(mv.take(map@.len() as int) =~= mv);
    }
    if !found {
        let mut new_val: Vec<String> = Vec::new();
        new_val.push(copy_str(ip));
        proof {
            assert(new_val.deep_view() =~= seq![ip@]);
        }
        let ghost nv = new_val.deep_view();
        let ghost prev = map_view(out@);
        out.push((copy_str(domain), new_val));
        proof {
            assert(map_view(out@) =~= prev.push((domain@, nv)));
            assert(map_view(out@) =~= prev.push((domain@, seq![ip@])));
        }
    }
    out
}

} // verus!
