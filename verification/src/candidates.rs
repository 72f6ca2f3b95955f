//! Acquiring per-family candidate addresses: the family heuristic, the
//! filter over a downloaded plain-text list, and the reader for the
//! prober's result file.

use vstd::prelude::*;
use vstd::string::*;
use crate::text::{
    contains_char, copy_str, lines, lines_of, split_at_char, split_char, trim, trim_of,
};

verus! {

/// An address family; records of family `V4` have type `A`, records of
/// family `V6` have type `AAAA`.
#[derive(Clone, Copy, Debug, PartialEq, Eq, Structural)]
pub enum IpFamily {
    V4,
    V6,
}

/// The family an address text is taken to belong to: anything containing a
/// dot counts as IPv4, everything else as IPv6.
pub open spec fn family_of(addr: Seq<char>) -> IpFamily {
    if addr.contains('.') {
        IpFamily::V4
    } else {
        IpFamily::V6
    }
}

/// Classify one address text by the family heuristic.
pub fn classify_address(addr: &str) -> (r: IpFamily)
    ensures
        r == family_of(addr@),
{
    if contains_char(addr, '.') {
        IpFamily::V4
    } else {
        IpFamily::V6
    }
}

/// The provider record type for a family.
pub fn record_type_for(family: IpFamily) -> (r: &'static str)
    ensures
        family == IpFamily::V4 ==> r@ == "A"@,
        family == IpFamily::V6 ==> r@ == "AAAA"@,
{
    match family {
        IpFamily::V4 => "A",
        IpFamily::V6 => "AAAA",
    }
}

/// Every line of `ls` trimmed of surrounding whitespace.
pub open spec fn trimmed_of(ls: Seq<Seq<char>>) -> Seq<Seq<char>> {
    ls.map_values(|l: Seq<char>| trim_of(l))
}

/// A downloaded line is kept when, after trimming, it is non-empty and its
/// family heuristic matches the requested family.
pub open spec fn family_keep(l: Seq<char>, family: IpFamily) -> bool {
    l.len() > 0 && family_of(l) == family
}

/// The trimmed, non-empty lines of a download that match `family`.
pub open spec fn family_lines_of(ls: Seq<Seq<char>>, family: IpFamily) -> Seq<Seq<char>> {
    trimmed_of(ls).filter(|l: Seq<char>| family_keep(l, family))
}

/// The candidate list a downloaded body yields for one family and quota:
/// matching lines in download order, truncated to the quota.
pub open spec fn downloaded_candidates(text: Seq<char>, family: IpFamily, quota: u32) -> Seq<
    Seq<char>,
> {
    let kept = family_lines_of(lines_of(text), family);
    if kept.len() <= quota {
        kept
    } else {
        kept.take(quota as int)
    }
}

/// Filter a downloaded candidate list body down to the lines that belong to
/// `family`, truncated to `quota`.
pub fn filter_download_lines(text: &str, family: IpFamily, quota: u32) -> (r: Vec<String>)
    ensures
        r.deep_view() == downloaded_candidates(text@, family, quota),
{
    let ls = lines(text);
    let ghost lv = ls.deep_view();
    let mut out: Vec<String> = Vec::new();
    let mut i: usize = 0;
    proof {
        assert(trimmed_of(lv.take(0)) =~= Seq::<Seq<char>>::empty());
        assert(out.deep_view() =~= family_lines_of(lv.take(0), family));
    }
    while i < ls.len()
        invariant
            lv == ls.deep_view(),
            0 <= i <= lv.len(),
            out.deep_view() =~= family_lines_of(lv.take(i as int), family),
        decreases lv.len() - i,
    {
        let ghost prev_out = out.deep_view();
        let t = trim(ls[i].as_str());
        proof {
            reveal(Seq::filter);
            assert(trimmed_of(lv.take(i + 1)) =~= trimmed_of(lv.take(i as int)).push(
                trim_of(lv[i as int]),
            ));
            assert(trimmed_of(lv.take(i + 1)).drop_last() =~= trimmed_of(lv.take(i as int)));
        }
        if !t.as_str().is_empty() {
            let fam = classify_address(t.as_str());
            if fam == family {
                out.push(t);
                proof {
                    assert(out.deep_view() =~= prev_out.push(trim_of(lv[i as int])));
                }
            }
        }
        i += 1;
    }
    proof {
        assert(lv.take(lv.len() as int) =~= lv);
    }
    let quota_usize = quota as usize;
    if out.len() > quota_usize {
        let ghost full = out.deep_view();
        out.truncate(quota_usize);
        proof {
            assert(out.deep_view() =~= full.take(quota as int));
        }
    }
    out
}

/// The comma-separated fields of one result-file line.
pub open spec fn csv_fields(line: Seq<char>) -> Seq<Seq<char>> {
    split_at_char(line, ',')
}

/// The data lines of a result file: everything after the header line.
pub open spec fn csv_data_lines(text: Seq<char>) -> Seq<Seq<char>> {
    let ls = lines_of(text);
    if ls.len() <= 1 {
        Seq::<Seq<char>>::empty()
    } else {
        ls.skip(1)
    }
}

/// The first comma-separated field of a line: the address column.
pub open spec fn row_address(line: Seq<char>) -> Seq<char> {
    csv_fields(line)[0]
}

/// The address column of every data line.
pub open spec fn addresses_of(ls: Seq<Seq<char>>) -> Seq<Seq<char>> {
    ls.map_values(|l: Seq<char>| row_address(l))
}

/// Whether an address is kept for the requested family; `None` keeps every
/// address.
pub open spec fn address_keep(addr: Seq<char>, family: Option<IpFamily>) -> bool {
    match family {
        None => true,
        Some(f) => family_of(addr) == f,
    }
}

/// The addresses a result file yields for one family: the address column of
/// each data line, filtered by the family heuristic.
pub open spec fn result_addresses(text: Seq<char>, family: Option<IpFamily>) -> Seq<Seq<char>> {
    addresses_of(csv_data_lines(text)).filter(|a: Seq<char>| address_keep(a, family))
}

/// The candidate list a result file yields: its addresses for the family,
/// truncated to `num` when `num` is non-zero and untouched when `num` is
/// zero.
pub open spec fn result_candidates(text: Seq<char>, family: Option<IpFamily>, num: u32) -> Seq<
    Seq<char>,
> {
    let addrs = result_addresses(text, family);
    if num == 0 || addrs.len() <= num {
        addrs
    } else {
        addrs.take(num as int)
    }
}

/// A zero quota is the passthrough mode: the whole prior result file is
/// read for the family, with no truncation.
pub proof fn lemma_zero_quota_reads_all(text: Seq<char>, family: Option<IpFamily>)
    ensures
        result_candidates(text, family, 0) == result_addresses(text, family),
{
}

/// Read the addresses of the requested family out of a result-file body,
/// skipping the header line.  A zero `num` reads every matching row.
pub fn read_ips_from_csv(text: &str, family: Option<IpFamily>, num: u32) -> (r: Vec<String>)
    ensures
        r.deep_view() == result_candidates(text@, family, num),
{
    let ls = lines(text);
    let mut out: Vec<String> = Vec::new();
    let ghost dv = csv_data_lines(text@);
    if ls.len() <= 1 {
        proof {
            assert(addresses_of(dv) =~= Seq::<Seq<char>>::empty());
            reveal(Seq::filter);
        }
        return out;
    }
    let n: usize = ls.len();
    let mut i: usize = 1;
    proof {
        assert(dv =~= ls.deep_view().skip(1));
        assert(addresses_of(dv.take(0)) =~= Seq::<Seq<char>>::empty());
        reveal(Seq::filter);
    }
    while i < n
        invariant
            n == ls@.len(),
            n > 1,
            dv == csv_data_lines(text@),
            dv =~= ls.deep_view().skip(1),
            1 <= i <= n,
            out.deep_view() =~= addresses_of(dv.take(i - 1)).filter(
                |a: Seq<char>| address_keep(a, family),
            ),
        decreases n - i,
    {
        let ghost prev_out = out.deep_view();
        let fields = split_char(ls[i].as_str(), ',');
        proof {
            assert(dv[i - 1] == ls.deep_view()[i as int]);
            assert(addresses_of(dv.take(i as int)) =~= addresses_of(dv.take(i - 1)).push(
                row_address(dv[i - 1]),
            ));
            assert(addresses_of(dv.take(i as int)).drop_last() =~= addresses_of(dv.take(i - 1)));
            reveal(Seq::filter);
            crate::text::lemma_split_at_char_nonempty(ls.deep_view()[i as int], ',');
        }
        let addr = copy_str(fields[0].as_str());
        assert(addr@ == row_address(dv[i - 1]));
        let keep: bool = match family {
            None => true,
            Some(f) => classify_address(addr.as_str()) == f,
        };
        if keep {
            out.push(addr);
            proof {
                assert(out.deep_view() =~= prev_out.push(row_address(dv[i - 1])));
            }
        }
        i += 1;
    }
    proof {
        assert(dv.take(n - 1) =~= dv);
    }
    if num > 0 {
        let num_usize = num as usize;
        if out.len() > num_usize {
            let ghost full = out.deep_view();
            out.truncate(num_usize);
            proof {
                assert(out.deep_view() =~= full.take(num as int));
            }
        }
    }
    out
}

} // verus!
