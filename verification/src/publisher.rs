//! The list publisher: rendering address entries, deduplicating them,
//! filtering a shared remote file down to the lines owned by one
//! configuration, and assembling the updated file body.
//!
//! A line belongs to a configuration exactly when it carries that
//! configuration's (family, port, remark) tag; every other line is foreign
//! and must survive a publish cycle unchanged.

use vstd::prelude::*;
use vstd::string::*;
use crate::candidates::{family_of, IpFamily};
use crate::config::GithubPushConfig;
use crate::text::{
    contains_char, contains_sub, copy_str, ends_with, has_substring, join, join_with, matches_at,
    push_char, trim, trim_of,
};
use crate::reconcile::contains_string;

verus! {

/// The tag an IPv4 line of this configuration ends with.
pub open spec fn v4_tag_of(port: Seq<char>, remark: Seq<char>) -> Seq<char> {
    ":"@ + port + "#"@ + remark
}

/// The tag an IPv6 line of this configuration contains.
pub open spec fn v6_tag_of(port: Seq<char>, remark6: Seq<char>) -> Seq<char> {
    "]:"@ + port + "#"@ + remark6
}

/// The published line for one address under a configuration.
pub open spec fn entry_line_of(
    ip: Seq<char>,
    port: Seq<char>,
    remark: Seq<char>,
    remark6: Seq<char>,
) -> Seq<char> {
    if family_of(ip) == IpFamily::V4 {
        if remark.len() > 0 {
            ip + v4_tag_of(port, remark)
        } else {
            ip
        }
    } else {
        if remark6.len() > 0 {
            "["@ + ip + v6_tag_of(port, remark6)
        } else {
            "["@ + ip + "]"@
        }
    }
}

/// Render the published line for one address: `addr:port#remark` for IPv4
/// with a remark, `[addr]:port#remark6` for IPv6 with a remark, the bare
/// (bracketed) address otherwise.
pub fn render_entry(ip: &str, cfg: &GithubPushConfig) -> (r: String)
    ensures
        r@ == entry_line_of(ip@, cfg.port@, cfg.remark@, cfg.remark6@),
{
    let mut out = String::new();
    if contains_char(ip, '.') {
        out.append(ip);
        if !cfg.remark.as_str().is_empty() {
            out.append(":");
            out.append(cfg.port.as_str());
            out.append("#");
            out.append(cfg.remark.as_str());
        }
    } else {
        out.append("[");
        out.append(ip);
        if !cfg.remark6.as_str().is_empty() {
            out.append("]:");
            out.append(cfg.port.as_str());
            out.append("#");
            out.append(cfg.remark6.as_str());
        } else {
            out.append("]");
        }
    }
    proof {
        assert(out@ =~= entry_line_of(ip@, cfg.port@, cfg.remark@, cfg.remark6@));
    }
    out
}

/// The rendered lines for a hostname–address assignment list.
pub open spec fn entry_lines_of(
    pairs: Seq<(Seq<char>, Seq<char>)>,
    port: Seq<char>,
    remark: Seq<char>,
    remark6: Seq<char>,
) -> Seq<Seq<char>> {
    pairs.map_values(|e: (Seq<char>, Seq<char>)| entry_line_of(e.1, port, remark, remark6))
}

/// Render every assignment into its published line.
pub fn render_entries(mapping: &Vec<(String, String)>, cfg: &GithubPushConfig) -> (r: Vec<String>)
    ensures
        r.deep_view() == entry_lines_of(
            crate::reconcile::pair_view(mapping@),
            cfg.port@,
            cfg.remark@,
            cfg.remark6@,
        ),
{
    let ghost pv = crate::reconcile::pair_view(mapping@);
    let mut out: Vec<String> = Vec::new();
    let mut i: usize = 0;
    proof {
        assert(out.deep_view() =~= entry_lines_of(pv.take(0), cfg.port@, cfg.remark@, cfg.remark6@));
    }
    while i < mapping.len()
        invariant
            pv == crate::reconcile::pair_view(mapping@),
            0 <= i <= mapping@.len(),
            out.deep_view() =~= entry_lines_of(pv.take(i as int), cfg.port@, cfg.remark@, cfg.remark6@),
        decreases mapping@.len() - i,
    {
        let ghost prev = out.deep_view();
        let line = render_entry(mapping[i].1.as_str(), cfg);
        out.push(line);
        proof {
            assert(out.deep_view() =~= prev.push(entry_line_of(pv[i as int].1, cfg.port@, cfg.remark@, cfg.remark6@)));
            assert(out.deep_view() =~= entry_lines_of(pv.take(i + 1), cfg.port@, cfg.remark@, cfg.remark6@));
        }
        i += 1;
    }
    proof {
        assert(pv.take(pv.len() as int) =~= pv);
    }
    out
}

/// The distinct lines of `ls`, keeping the first occurrence of each.
pub open spec fn dedup_of(ls: Seq<Seq<char>>) -> Seq<Seq<char>>
    decreases ls.len(),
{
    if ls.len() == 0 {
        ls
    } else {
        let prev = dedup_of(ls.drop_last());
        if prev.contains(ls.last()) {
            prev
        } else {
            prev.push(ls.last())
        }
    }
}

/// Drop duplicate and empty lines, keeping first occurrences in order.
pub fn dedup_lines(ls: &Vec<String>) -> (r: Vec<String>)
    ensures
        r.deep_view() == dedup_of(crate::text::nonempty_pieces(ls.deep_view())),
{
    let ghost target = crate::text::nonempty_pieces(ls.deep_view());
    let mut kept: Vec<String> = Vec::new();
    let mut i: usize = 0;
    proof {
        reveal(Seq::filter);
        assert(kept.deep_view() =~= crate::text::nonempty_pieces(ls.deep_view().take(0)));
    }
    while i < ls.len()
        invariant
            0 <= i <= ls@.len(),
            kept.deep_view() =~= crate::text::nonempty_pieces(ls.deep_view().take(i as int)),
        decreases ls@.len() - i,
    {
        let ghost prev = kept.deep_view();
        proof {
            reveal(Seq::filter);
            assert(ls.deep_view().take(i + 1).drop_last() =~= ls.deep_view().take(i as int));
        }
        if !ls[i].as_str().is_empty() {
            kept.push(copy_str(ls[i].as_str()));
            proof {
                assert(kept.deep_view() =~= prev.push(ls.deep_view()[i as int]));
            }
        }
        i += 1;
    }
    proof {
        reveal(Seq::filter);
        assert(ls.deep_view().take(ls@.len() as int) =~= ls.deep_view());
        assert(kept.deep_view() =~= target);
    }
    let ghost kv = kept.deep_view();
    let mut out: Vec<String> = Vec::new();
    let mut j: usize = 0;
    proof {
        assert(out.deep_view() =~= dedup_of(kv.take(0)));
    }
    while j < kept.len()
        invariant
            kv == kept.deep_view(),
            0 <= j <= kv.len(),
            out.deep_view() =~= dedup_of(kv.take(j as int)),
        decreases kv.len() - j,
    {
        let ghost prev = out.deep_view();
        proof {
            assert(kv.take(j + 1).drop_last() =~= kv.take(j as int));
            assert(kv.take(j + 1).last() == kv[j as int]);
        }
        if !contains_string(&out, kept[j].as_str()) {
            out.push(copy_str(kept[j].as_str()));
            proof {
                assert(out.deep_view() =~= prev.push(kv[j as int]));
            }
        }
        j += 1;
    }
    proof {
        assert(kv.take(kv.len() as int) =~= kv);
    }
    out
}

/// Whether a line of the remote file belongs to this configuration: an
/// IPv4-looking line ending in the configuration's `:port#remark` tag, or a
/// bracketed IPv6 line containing its `]:port#remark6` tag.
pub open spec fn line_is_own(
    l: Seq<char>,
    port: Seq<char>,
    remark: Seq<char>,
    remark6: Seq<char>,
) -> bool {
    if l.contains('.') {
        remark.len() > 0 && {
            let tag = v4_tag_of(port, remark);
            tag.len() <= l.len() && matches_at(l, tag, l.len() - tag.len())
        }
    } else {
        l.len() > 0 && l[0] == '[' && remark6.len() > 0 && has_substring(
            l,
            v6_tag_of(port, remark6),
        )
    }
}

/// The raw lines of the remote file, byte for byte; only the final empty
/// piece of a trailing newline is absent.
pub open spec fn content_lines(content: Seq<char>) -> Seq<Seq<char>> {
    crate::text::raw_lines_of(content)
}

/// The members of `ls` whose trimmed form does not carry the
/// configuration's tag.  A kept member is the raw line itself, so foreign
/// lines — blank ones included — pass through unchanged.
pub open spec fn keep_foreign(
    ls: Seq<Seq<char>>,
    port: Seq<char>,
    remark: Seq<char>,
    remark6: Seq<char>,
) -> Seq<Seq<char>> {
    ls.filter(|l: Seq<char>| !line_is_own(trim_of(l), port, remark, remark6))
}

/// The lines of the remote file that are foreign to this configuration, in
/// their original order and byte for byte unchanged.
pub open spec fn foreign_lines_of(
    content: Seq<char>,
    port: Seq<char>,
    remark: Seq<char>,
    remark6: Seq<char>,
) -> Seq<Seq<char>> {
    keep_foreign(content_lines(content), port, remark, remark6)
}

/// Whether `l` carries this configuration's tag.
pub fn is_own_line(l: &str, cfg: &GithubPushConfig) -> (r: bool)
    ensures
        r == line_is_own(l@, cfg.port@, cfg.remark@, cfg.remark6@),
{
    let mut tag = String::new();
    if contains_char(l, '.') {
        if cfg.remark.as_str().is_empty() {
            return false;
        }
        tag.append(":");
        tag.append(cfg.port.as_str());
        tag.append("#");
        tag.append(cfg.remark.as_str());
        proof {
            assert(tag@ =~= v4_tag_of(cfg.port@, cfg.remark@));
        }
        ends_with(l, tag.as_str())
    } else {
        let n: usize = l.unicode_len();
        if n == 0 || l.get_char(0) != '[' || cfg.remark6.as_str().is_empty() {
            return false;
        }
        tag.append("]:");
        tag.append(cfg.port.as_str());
        tag.append("#");
        tag.append(cfg.remark6.as_str());
        proof {
            assert(tag@ =~= v6_tag_of(cfg.port@, cfg.remark6@));
        }
        contains_sub(l, tag.as_str())
    }
}

/// Keep every raw line of the remote file whose trimmed form does not
/// carry this configuration's tag, byte for byte, in order.
pub fn foreign_lines(content: &str, cfg: &GithubPushConfig) -> (r: Vec<String>)
    ensures
        r.deep_view() == foreign_lines_of(content@, cfg.port@, cfg.remark@, cfg.remark6@),
{
    let ls = crate::text::raw_lines(content);
    let ghost lv = ls.deep_view();
    let mut out: Vec<String> = Vec::new();
    let mut i: usize = 0;
    proof {
        reveal(Seq::filter);
        assert(out.deep_view() =~= keep_foreign(lv.take(0), cfg.port@, cfg.remark@, cfg.remark6@));
    }
    while i < ls.len()
        invariant
            lv == ls.deep_view(),
            0 <= i <= lv.len(),
            out.deep_view() =~= keep_foreign(
                lv.take(i as int),
                cfg.port@,
                cfg.remark@,
                cfg.remark6@,
            ),
        decreases lv.len() - i,
    {
        let ghost prev = out.deep_view();
        let t = trim(ls[i].as_str());
        proof {
            reveal(Seq::filter);
            assert(lv.take(i + 1).drop_last() =~= lv.take(i as int));
            assert(lv.take(i + 1).last() == lv[i as int]);
            assert(t@ == trim_of(lv[i as int]));
        }
        if !is_own_line(t.as_str(), cfg) {
            out.push(copy_str(ls[i].as_str()));
            proof {
                assert(out.deep_view() =~= prev.push(lv[i as int]));
            }
        }
        i += 1;
    }
    proof {
        assert(lv.take(lv.len() as int) =~= lv);
    }
    out
}

/// Every raw line of the remote file whose trimmed form does not carry the
/// configuration's tag appears in the kept lines byte for byte — foreign
/// entries survive a publish cycle unchanged.
pub proof fn lemma_foreign_preserved(
    content: Seq<char>,
    port: Seq<char>,
    remark: Seq<char>,
    remark6: Seq<char>,
    l: Seq<char>,
)
    requires
        content_lines(content).contains(l),
        !line_is_own(trim_of(l), port, remark, remark6),
    ensures
        foreign_lines_of(content, port, remark, remark6).contains(l),
{
    lemma_keep_membership(content_lines(content), port, remark, remark6, l);
}

/// Membership in the kept-line filter.
pub proof fn lemma_keep_membership(
    ls: Seq<Seq<char>>,
    port: Seq<char>,
    remark: Seq<char>,
    remark6: Seq<char>,
    l: Seq<char>,
)
    ensures
        keep_foreign(ls, port, remark, remark6).contains(l) <==> (ls.contains(l)
            && !line_is_own(trim_of(l), port, remark, remark6)),
    decreases ls.len(),
{
    reveal(Seq::filter);
    if ls.len() == 0 {
        assert(!ls.contains(l));
    } else {
        let shorter = ls.drop_last();
        let last = ls.last();
        lemma_keep_membership(shorter, port, remark, remark6, l);
        assert(ls.contains(l) <==> (shorter.contains(l) || l == last)) by {
            if ls.contains(l) {
                let w = choose|w: int| 0 <= w < ls.len() && ls[w] == l;
                if w < ls.len() - 1 {
                    assert(shorter[w] == l);
                    assert(shorter.contains(l));
                }
            }
            if shorter.contains(l) {
                let w = choose|w: int| 0 <= w < shorter.len() && shorter[w] == l;
                assert(ls[w] == l);
                assert(ls.contains(l));
            }
            if l == last {
                assert(ls[ls.len() - 1] == l);
                assert(ls.contains(l));
            }
        }
        let whole = keep_foreign(ls, port, remark, remark6);
        let part = keep_foreign(shorter, port, remark, remark6);
        if !line_is_own(trim_of(last), port, remark, remark6) {
            assert(whole == part.push(last));
            assert(whole.contains(l) <==> (part.contains(l) || l == last)) by {
                if whole.contains(l) {
                    let w = choose|w: int| 0 <= w < whole.len() && whole[w] == l;
                    if w < whole.len() - 1 {
                        assert(part[w] == l);
                        assert(part.contains(l));
                    }
                }
                if part.contains(l) {
                    let w = choose|w: int| 0 <= w < part.len() && part[w] == l;
                    assert(whole[w] == l);
                    assert(whole.contains(l));
                }
                if l == last {
                    assert(whole[whole.len() - 1] == l);
                    assert(whole.contains(l));
                }
            }
        } else {
            assert(whole == part);
        }
    }
}

/// The final body of the remote file: the kept foreign lines, then the
/// fresh entries, newline-separated, with a guaranteed trailing newline.
pub open spec fn merged_content(kept: Seq<Seq<char>>, fresh: Seq<Seq<char>>) -> Seq<char> {
    let a = join_with(kept, "\n"@);
    let b = join_with(fresh, "\n"@);
    let joined = if a.len() > 0 && b.len() > 0 {
        a + "\n"@ + b
    } else {
        a + b
    };
    if joined.len() > 0 && joined[joined.len() - 1] == '\n' {
        joined
    } else {
        joined + "\n"@
    }
}

/// Assemble the updated file body from the kept foreign lines and the
/// fresh entry lines.
pub fn build_list_content(kept: &Vec<String>, fresh: &Vec<String>) -> (r: String)
    ensures
        r@ == merged_content(kept.deep_view(), fresh.deep_view()),
{
    let a = join(kept, "\n");
    let b = join(fresh, "\n");
    let mut out = String::new();
    if !a.as_str().is_empty() && !b.as_str().is_empty() {
        out.append(a.as_str());
        out.append("\n");
        out.append(b.as_str());
    } else {
        out.append(a.as_str());
        out.append(b.as_str());
    }
    let n: usize = out.as_str().unicode_len();
    if n == 0 || out.as_str().get_char(n - 1) != '\n' {
        proof {
            reveal_strlit("\n");
        }
        push_char(&mut out, '\n');
        proof {
            assert(out@ =~= merged_content(kept.deep_view(), fresh.deep_view()));
        }
    } else {
        proof {
            assert(out@ =~= merged_content(kept.deep_view(), fresh.deep_view()));
        }
    }
    out
}

} // verus!
