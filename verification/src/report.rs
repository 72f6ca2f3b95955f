//! Rendering the notification text for one address family from the
//! prober's result rows: the addresses, the hostnames matched to them, the
//! latency column, the non-blank speed column, and the datacenter column.

use vstd::prelude::*;
use vstd::string::*;
use crate::candidates::{csv_fields, csv_data_lines, IpFamily};
use crate::text::{
    copy_str, join_with, lines, lines_of, nonempty_pieces, split_char, tokens, tokens_of, trim,
    trim_of,
};

verus! {

/// The first `count` data lines of a result file.
pub open spec fn taken_data_lines(text: Seq<char>, count: nat) -> Seq<Seq<char>> {
    let dl = csv_data_lines(text);
    if dl.len() <= count {
        dl
    } else {
        dl.take(count as int)
    }
}

/// The comma-separated fields of every line.
pub open spec fn fields_of(ls: Seq<Seq<char>>) -> Seq<Seq<Seq<char>>> {
    ls.map_values(|l: Seq<char>| csv_fields(l))
}

/// Only the rows wide enough to carry the expected columns.
pub open spec fn wide_rows(rows: Seq<Seq<Seq<char>>>) -> Seq<Seq<Seq<char>>> {
    rows.filter(|f: Seq<Seq<char>>| f.len() >= 7)
}

/// The rows the report is rendered from: the first `count` data lines,
/// split into fields, with narrow rows dropped.
pub open spec fn report_rows_of(text: Seq<char>, count: nat) -> Seq<Seq<Seq<char>>> {
    wide_rows(fields_of(taken_data_lines(text, count)))
}

/// Parse the first `count` data lines of a result file into their fields,
/// keeping only rows with at least seven columns.
pub fn parse_report_rows(text: &str, count: u32) -> (r: Vec<Vec<String>>)
    ensures
        r.deep_view() == report_rows_of(text@, count as nat),
        forall|i: int| 0 <= i < r.deep_view().len() ==> r.deep_view()[i].len() >= 7,
{
    let ls = lines(text);
    let mut taken: Vec<String> = Vec::new();
    let ghost tdl = taken_data_lines(text@, count as nat);
    if ls.len() <= 1 {
        proof {
            reveal(Seq::filter);
            assert(tdl =~= Seq::<Seq<char>>::empty());
            assert(fields_of(tdl) =~= Seq::<Seq<Seq<char>>>::empty());
        }
        let out: Vec<Vec<String>> = Vec::new();
        proof {
            assert(out.deep_view() =~= report_rows_of(text@, count as nat));
        }
        return out;
    }
    let n: usize = ls.len();
    let mut i: usize = 1;
    let count_usize = count as usize;
    proof {
        assert(csv_data_lines(text@) =~= ls.deep_view().skip(1));
    }
    while i < n && taken.len() < count_usize
        invariant
            n == ls@.len(),
            n > 1,
            count_usize == count,
            csv_data_lines(text@) =~= ls.deep_view().skip(1),
            1 <= i <= n,
            taken@.len() == i - 1 || taken@.len() == count_usize,
            taken@.len() <= count_usize,
            taken@.len() <= i - 1,
            taken.deep_view() =~= csv_data_lines(text@).take(taken@.len() as int),
            taken@.len() < count_usize ==> taken@.len() == i - 1,
        decreases n - i,
    {
        let ghost prev = taken.deep_view();
        taken.push(copy_str(ls[i].as_str()));
        proof {
            assert(taken.deep_view() =~= prev.push(ls.deep_view()[i as int]));
            assert(csv_data_lines(text@)[i - 1] == ls.deep_view()[i as int]);
            assert(taken.deep_view() =~= csv_data_lines(text@).take(taken@.len() as int));
        }
        i += 1;
    }
    proof {
        let dl = csv_data_lines(text@);
        if taken@.len() == count_usize {
            if dl.len() <= count as nat {
                assert(taken@.len() <= i - 1 <= dl.len());
                assert(taken.deep_view() =~= tdl);
            } else {
                assert(taken.deep_view() =~= tdl);
            }
        } else {
            assert(i == n);
            assert(taken@.len() == n - 1);
            assert(dl.len() == n - 1);
            assert(dl.take(dl.len() as int) =~= dl);
            assert(taken.deep_view() =~= tdl);
        }
    }
    let mut out: Vec<Vec<String>> = Vec::new();
    let mut j: usize = 0;
    let ghost tv = taken.deep_view();
    proof {
        reveal(Seq::filter);
        assert(fields_of(tv.take(0)) =~= Seq::<Seq<Seq<char>>>::empty());
        assert(out.deep_view() =~= wide_rows(fields_of(tv.take(0))));
    }
    while j < taken.len()
        invariant
            tv == taken.deep_view(),
            tv == taken_data_lines(text@, count as nat),
            0 <= j <= tv.len(),
            out.deep_view() =~= wide_rows(fields_of(tv.take(j as int))),
            forall|x: int| 0 <= x < out.deep_view().len() ==> out.deep_view()[x].len() >= 7,
        decreases tv.len() - j,
    {
        let ghost prev = out.deep_view();
        let fields = split_char(taken[j].as_str(), ',');
        proof {
            reveal(Seq::filter);
            assert(fields_of(tv.take(j + 1)) =~= fields_of(tv.take(j as int)).push(
                csv_fields(tv[j as int]),
            ));
            assert(fields_of(tv.take(j + 1)).drop_last() =~= fields_of(tv.take(j as int)));
            assert(fields.deep_view() == csv_fields(tv[j as int]));
        }
        if fields.len() >= 7 {
            out.push(fields);
            proof {
                assert(out.deep_view() =~= prev.push(csv_fields(tv[j as int])));
            }
        }
        j += 1;
    }
    proof {
        assert(tv.take(tv.len() as int) =~= tv);
    }
    out
}

/// Each line followed by a newline.
pub open spec fn cat_lines(ls: Seq<Seq<char>>) -> Seq<char>
    decreases ls.len(),
{
    if ls.len() == 0 {
        Seq::<char>::empty()
    } else {
        cat_lines(ls.drop_last()) + ls.last() + "\n"@
    }
}

/// The address column of the report rows.
pub open spec fn report_addresses(rows: Seq<Seq<Seq<char>>>) -> Seq<Seq<char>> {
    rows.map_values(|f: Seq<Seq<char>>| f[0])
}

/// The latency column, each cell suffixed with its unit.
pub open spec fn report_latencies(rows: Seq<Seq<Seq<char>>>) -> Seq<Seq<char>> {
    rows.map_values(|f: Seq<Seq<char>>| f[4] + " ms"@)
}

/// The trimmed speed column.
pub open spec fn speed_cells(rows: Seq<Seq<Seq<char>>>) -> Seq<Seq<char>> {
    rows.map_values(|f: Seq<Seq<char>>| trim_of(f[5]))
}

/// The non-blank speed cells, each suffixed with its unit.
pub open spec fn report_speeds(rows: Seq<Seq<Seq<char>>>) -> Seq<Seq<char>> {
    nonempty_pieces(speed_cells(rows)).map_values(|v: Seq<char>| v + " MB/s"@)
}

/// The datacenter column.
pub open spec fn report_datacenters(rows: Seq<Seq<Seq<char>>>) -> Seq<Seq<char>> {
    rows.map_values(|f: Seq<Seq<char>>| f[6])
}

/// The family heading of the report.
pub open spec fn family_label(family: IpFamily) -> Seq<char> {
    match family {
        IpFamily::V4 => "IPv4"@,
        IpFamily::V6 => "IPv6"@,
    }
}

/// The notification text for one family: the address list, the hostnames
/// truncated to the address count, the latencies, the non-blank speeds and
/// the datacenters, under their headings.
pub open spec fn report_text(
    rows: Seq<Seq<Seq<char>>>,
    doms: Seq<Seq<char>>,
    family: IpFamily,
) -> Seq<char> {
    let addrs = report_addresses(rows);
    let shown_doms = if doms.len() <= addrs.len() {
        doms
    } else {
        doms.take(addrs.len() as int)
    };
    family_label(family) + " addresses:\n"@ + cat_lines(addrs)
        + "-------------------\nhostnames:\n"@ + cat_lines(shown_doms)
        + "-------------------\naverage latency:\n"@ + cat_lines(report_latencies(rows))
        + "-------------------\ndownload speed:\n"@ + cat_lines(report_speeds(rows))
        + "-------------------\ndatacenters:\n"@ + cat_lines(report_datacenters(rows))
}

/// Append every line of `ls`, each followed by a newline.
fn append_lines(out: &mut String, ls: &Vec<String>)
    ensures
        final(out)@ == old(out)@ + cat_lines(ls.deep_view()),
{
    let mut i: usize = 0;
    let ghost base = out@;
    proof {
        assert(cat_lines(ls.deep_view().take(0)) =~= Seq::<char>::empty());
        assert(out@ =~= base + cat_lines(ls.deep_view().take(0)));
    }
    while i < ls.len()
        invariant
            0 <= i <= ls@.len(),
            out@ =~= base + cat_lines(ls.deep_view().take(i as int)),
        decreases ls@.len() - i,
    {
        proof {
            assert(ls.deep_view().take(i + 1).drop_last() =~= ls.deep_view().take(i as int));
            assert(ls.deep_view().take(i + 1).last() == ls.deep_view()[i as int]);
        }
        out.append(ls[i].as_str());
        out.append("\n");
        i += 1;
    }
    proof {
        assert(ls.deep_view().take(ls@.len() as int) =~= ls.deep_view());
    }
}

/// Render the notification text for one family from its parsed report rows
/// and the space-separated hostname list.
#[verifier::rlimit(60)]
pub fn render_report(rows: &Vec<Vec<String>>, hostnames: &str, family: IpFamily) -> (r: String)
    requires
        forall|i: int| 0 <= i < rows.deep_view().len() ==> rows.deep_view()[i].len() >= 7,
    ensures
        r@ == report_text(rows.deep_view(), tokens_of(hostnames@), family),
{
    let ghost rv = rows.deep_view();
    let doms = tokens(hostnames);
    let mut addrs: Vec<String> = Vec::new();
    let mut lats: Vec<String> = Vec::new();
    let mut speeds: Vec<String> = Vec::new();
    let mut dcs: Vec<String> = Vec::new();
    let mut i: usize = 0;
    proof {
        reveal(Seq::filter);
        assert(addrs.deep_view() =~= report_addresses(rv.take(0)));
        assert(lats.deep_view() =~= report_latencies(rv.take(0)));
        assert(speed_cells(rv.take(0)) =~= Seq::<Seq<char>>::empty());
        assert(speeds.deep_view() =~= report_speeds(rv.take(0)));
        assert(dcs.deep_view() =~= report_datacenters(rv.take(0)));
    }
    while i < rows.len()
        invariant
            rv == rows.deep_view(),
            forall|x: int| 0 <= x < rv.len() ==> rv[x].len() >= 7,
            0 <= i <= rv.len(),
            addrs.deep_view() =~= report_addresses(rv.take(i as int)),
            lats.deep_view() =~= report_latencies(rv.take(i as int)),
            speeds.deep_view() =~= report_speeds(rv.take(i as int)),
            dcs.deep_view() =~= report_datacenters(rv.take(i as int)),
        decreases rv.len() - i,
    {
        let ghost pa = addrs.deep_view();
        let ghost pl = lats.deep_view();
        let ghost ps = speeds.deep_view();
        let ghost pd = dcs.deep_view();
        let row = &rows[i];
        proof {
            assert(rv.take(i + 1) =~= rv.take(i as int).push(rv[i as int]));
            assert(report_addresses(rv.take(i + 1)) =~= report_addresses(rv.take(i as int)).push(
                rv[i as int][0],
            ));
            assert(report_latencies(rv.take(i + 1)) =~= report_latencies(rv.take(i as int)).push(
                rv[i as int][4] + " ms"@,
            ));
            assert(report_datacenters(rv.take(i + 1)) =~= report_datacenters(
                rv.take(i as int),
            ).push(rv[i as int][6]));
            assert(speed_cells(rv.take(i + 1)) =~= speed_cells(rv.take(i as int)).push(
                trim_of(rv[i as int][5]),
            ));
            assert(speed_cells(rv.take(i + 1)).drop_last() =~= speed_cells(rv.take(i as int)));
            reveal(Seq::filter);
        }
        addrs.push(copy_str(row[0].as_str()));
        proof {
            assert(addrs.deep_view() =~= pa.push(rv[i as int][0]));
        }
        let mut lat = copy_str(row[4].as_str());
        lat.append(" ms");
        lats.push(lat);
        proof {
            assert(lats.deep_view() =~= pl.push(rv[i as int][4] + " ms"@));
        }
        let cell = trim(row[5].as_str());
        if !cell.as_str().is_empty() {
            let mut sp = cell;
            sp.append(" MB/s");
            speeds.push(sp);
            proof {
                assert(nonempty_pieces(speed_cells(rv.take(i + 1))) =~= nonempty_pieces(
                    speed_cells(rv.take(i as int)),
                ).push(trim_of(rv[i as int][5])));
                assert(speeds.deep_view() =~= ps.push(trim_of(rv[i as int][5]) + " MB/s"@));
                assert(speeds.deep_view() =~= report_speeds(rv.take(i + 1)));
            }
        } else {
            proof {
                assert(nonempty_pieces(speed_cells(rv.take(i + 1))) == nonempty_pieces(
                    speed_cells(rv.take(i as int)),
                ));
                assert(speeds.deep_view() =~= report_speeds(rv.take(i + 1)));
            }
        }
        dcs.push(copy_str(row[6].as_str()));
        proof {
            assert(dcs.deep_view() =~= pd.push(rv[i as int][6]));
        }
        i += 1;
    }
    proof {
        assert(rv.take(rv.len() as int) =~= rv);
    }
    let shown_doms = if doms.len() <= addrs.len() {
        doms
    } else {
        let mut d = doms;
        let ghost dv = d.deep_view();
        let alen = addrs.len();
        d.truncate(alen);
        proof {
            assert(d.deep_view() =~= dv.take(alen as int));
        }
        d
    };
    let mut out = String::new();
    match family {
        IpFamily::V4 => out.append("IPv4"),
        IpFamily::V6 => out.append("IPv6"),
    }
    out.append(" addresses:\n");
    append_lines(&mut out, &addrs);
    out.append("-------------------\nhostnames:\n");
    append_lines(&mut out, &shown_doms);
    out.append("-------------------\naverage latency:\n");
    append_lines(&mut out, &lats);
    out.append("-------------------\ndownload speed:\n");
    append_lines(&mut out, &speeds);
    out.append("-------------------\ndatacenters:\n");
    append_lines(&mut out, &dcs);
    proof {
        assert(out@ =~= report_text(rv, tokens_of(hostnames@), family));
    }
    out
}

/// The fixed notice used when the result file holds no data rows.
pub fn empty_result_notice() -> (r: String)
    ensures
        r@ == "no measurement rows in the result file\n"@,
{
    crate::text::copy_str("no measurement rows in the result file\n")
}

/// The notification text for one family's dispatch: the explanatory
/// notice when the result file holds no data rows at all, and the
/// rendered report otherwise.
pub fn report_message(text: &str, count: u32, hostnames: &str, family: IpFamily) -> (r: String)
    ensures
        lines_of(text@).len() <= 1 ==> r@ == "no measurement rows in the result file\n"@,
        lines_of(text@).len() > 1 ==> r@ == report_text(
            report_rows_of(text@, count as nat),
            tokens_of(hostnames@),
            family,
        ),
{
    let ls = lines(text);
    if ls.len() <= 1 {
        empty_result_notice()
    } else {
        let rows = parse_report_rows(text, count);
        render_report(&rows, hostnames, family)
    }
}

} // verus!
