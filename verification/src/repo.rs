//! The remote repository side of the list publisher: transport encoding of
//! the file body, the contents-API requests, and the parsing of a
//! configured raw-file URL into its repository coordinates.

use vstd::prelude::*;
use vstd::string::*;
use crate::config::GithubPushConfig;
use crate::jsonio::{doc_string_of, json_as_string, json_get, json_parse, json_quote, json_string_of};
use crate::publisher::{
    build_list_content, dedup_of, dedup_lines, entry_lines_of, foreign_lines, foreign_lines_of,
    merged_content, render_entries,
};
use crate::reconcile::pair_view;
use crate::text::{matches_at, nonempty_pieces};

verus! {

/// The base64 text that the STANDARD engine produces for a byte string.
pub uninterp spec fn b64_of(bytes: Seq<u8>) -> Seq<char>;

/// The bytes that the STANDARD engine decodes a base64 text to.
pub uninterp spec fn b64_decoded_of(text: Seq<char>) -> Seq<u8>;

/// Whether a text is valid base64 whose decoded bytes are valid UTF-8 —
/// a property of the text alone.
pub uninterp spec fn b64_text_ok_of(text: Seq<char>) -> bool;

/// A character never takes more than four bytes of UTF-8.
pub proof fn lemma_encode_utf8_len(chars: Seq<char>)
    ensures
        vstd::utf8::encode_utf8(chars).len() <= 4 * chars.len(),
    decreases chars.len(),
{
    if chars.len() > 0 {
        lemma_encode_utf8_len(chars.drop_first());
    }
}

/// Relies on base64's `Engine::encode` with the STANDARD engine: the
/// base64 text of the input bytes, a function of them alone.  The length
/// bound keeps the engine's output-size computation from overflowing.
#[verifier::external_body]
fn b64_encode_str(s: &str) -> (r: String)
    requires
        s.spec_bytes().len() <= usize::MAX as nat / 2,
    ensures
        r@ == b64_of(s.spec_bytes()),
{
    base64::Engine::encode(&base64::engine::general_purpose::STANDARD, s.as_bytes())
}

/// Relies on base64's `Engine::decode` with the STANDARD engine, and on
/// `String::from_utf8`: the bytes a base64 text decodes to, a function of
/// it alone; success too depends on the text alone, and invalid base64 or
/// non-UTF-8 bytes yield nothing.
#[verifier::external_body]
pub fn b64_decode_utf8(s: &str) -> (r: Option<String>)
    ensures
        r is Some <==> b64_text_ok_of(s@),
        r is Some ==> vstd::utf8::encode_utf8(r->0@) == b64_decoded_of(s@),
{
    let engine = &base64::engine::general_purpose::STANDARD;
    let bytes = base64::Engine::decode(engine, s.as_bytes()).ok()?;
    String::from_utf8(bytes).ok()
}

/// `s` with every newline and carriage return removed.
pub open spec fn strip_newlines_of(s: Seq<char>) -> Seq<char> {
    s.filter(|c: char| c != '\n' && c != '\r')
}

/// Remove embedded line breaks from a transport-encoded body before
/// decoding it.
pub fn strip_newlines(s: &str) -> (r: String)
    ensures
        r@ == strip_newlines_of(s@),
{
    let n: usize = s.unicode_len();
    let mut out = String::new();
    let mut i: usize = 0;
    proof {
        reveal(Seq::filter);
        assert(out@ =~= strip_newlines_of(s@.take(0)));
    }
    while i < n
        invariant
            n == s@.len(),
            0 <= i <= n,
            out@ =~= strip_newlines_of(s@.take(i as int)),
        decreases n - i,
    {
        let c = s.get_char(i);
        proof {
            reveal(Seq::filter);
            assert(s@.take(i + 1).drop_last() =~= s@.take(i as int));
            assert(s@.take(i + 1).last() == s@[i as int]);
        }
        if !(c == '\n' || c == '\r') {
            crate::text::push_char(&mut out, c);
        }
        i += 1;
    }
    proof {
        assert(s@.take(n as int) =~= s@);
    }
    out
}

/// The updated body for the remote file, built from its current decoded
/// content and the fresh assignments: the foreign lines survive byte for
/// byte, the own-tagged lines are replaced by the deduplicated fresh
/// entries, and the body ends in a newline.
pub fn build_update_from_existing(
    decoded: &str,
    cfg: &GithubPushConfig,
    mapping: &Vec<(String, String)>,
) -> (r: String)
    ensures
        r@ == merged_content(
            foreign_lines_of(decoded@, cfg.port@, cfg.remark@, cfg.remark6@),
            dedup_of(
                nonempty_pieces(
                    entry_lines_of(pair_view(mapping@), cfg.port@, cfg.remark@, cfg.remark6@),
                ),
            ),
        ),
{
    let kept = foreign_lines(decoded, cfg);
    let rendered = render_entries(mapping, cfg);
    let fresh = dedup_lines(&rendered);
    build_list_content(&kept, &fresh)
}

/// The body for a freshly created remote file: only the deduplicated new
/// entries, with a trailing newline.
pub fn build_create_content(cfg: &GithubPushConfig, mapping: &Vec<(String, String)>) -> (r: String)
    ensures
        r@ == merged_content(
            Seq::<Seq<char>>::empty(),
            dedup_of(
                nonempty_pieces(
                    entry_lines_of(pair_view(mapping@), cfg.port@, cfg.remark@, cfg.remark6@),
                ),
            ),
        ),
{
    let kept: Vec<String> = Vec::new();
    let rendered = render_entries(mapping, cfg);
    let fresh = dedup_lines(&rendered);
    proof {
        assert(kept.deep_view() =~= Seq::<Seq<char>>::empty());
    }
    build_list_content(&kept, &fresh)
}

/// Transport-encode a file body, refusing only a body too large for the
/// encoder's output-size computation.
pub fn encode_list_body(body: &str) -> (r: Option<String>)
    ensures
        r is Some <==> body@.len() <= usize::MAX as nat / 8,
        r is Some ==> r->0@ == b64_of(body.spec_bytes()),
{
    let n: usize = body.unicode_len();
    if n <= usize::MAX / 8 {
        proof {
            lemma_encode_utf8_len(body@);
        }
        Some(b64_encode_str(body))
    } else {
        None
    }
}

/// The contents-API address of the remote file.
pub fn repo_contents_url(owner: &str, repo: &str, path: &str) -> (r: String)
    ensures
        r@ == "https://api.github.com/repos/"@ + owner@ + "/"@ + repo@ + "/contents/"@ + path@,
{
    let mut out = String::new();
    out.append("https://api.github.com/repos/");
    out.append(owner);
    out.append("/");
    out.append(repo);
    out.append("/contents/");
    out.append(path);
    proof {
        assert(out@ =~= "https://api.github.com/repos/"@ + owner@ + "/"@ + repo@ + "/contents/"@
            + path@);
    }
    out
}

/// The authorisation header for the repository requests.
pub fn repo_auth_header(token: &str) -> (r: String)
    ensures
        r@ == "Authorization: token "@ + token@,
{
    let mut out = String::new();
    out.append("Authorization: token ");
    out.append(token);
    proof {
        assert(out@ =~= "Authorization: token "@ + token@);
    }
    out
}

/// The update payload for the contents API: the commit message, the
/// encoded body, the optimistic-concurrency hash last read, and the branch.
pub fn update_file_payload(content_b64: &str, sha: &str, branch: &str) -> (r: String)
    ensures
        r@ == "{\"message\":"@ + json_string_of("Refresh published address list"@)
            + ",\"content\":"@ + json_string_of(content_b64@) + ",\"sha\":"@ + json_string_of(sha@)
            + ",\"branch\":"@ + json_string_of(branch@) + "}"@,
{
    let m = json_quote("Refresh published address list");
    let c = json_quote(content_b64);
    let sq = json_quote(sha);
    let b = json_quote(branch);
    let mut out = String::new();
    out.append("{\"message\":");
    out.append(m.as_str());
    out.append(",\"content\":");
    out.append(c.as_str());
    out.append(",\"sha\":");
    out.append(sq.as_str());
    out.append(",\"branch\":");
    out.append(b.as_str());
    out.append("}");
    proof {
        assert(out@ =~= "{\"message\":"@ + json_string_of("Refresh published address list"@)
            + ",\"content\":"@ + json_string_of(content_b64@) + ",\"sha\":"@ + json_string_of(
            sha@,
        ) + ",\"branch\":"@ + json_string_of(branch@) + "}"@);
    }
    out
}

/// The creation payload for the contents API: the commit message, the
/// encoded body, and the branch.
pub fn create_file_payload(content_b64: &str, branch: &str) -> (r: String)
    ensures
        r@ == "{\"message\":"@ + json_string_of("Publish address list"@) + ",\"content\":"@
            + json_string_of(content_b64@) + ",\"branch\":"@ + json_string_of(branch@) + "}"@,
{
    let m = json_quote("Publish address list");
    let c = json_quote(content_b64);
    let b = json_quote(branch);
    let mut out = String::new();
    out.append("{\"message\":");
    out.append(m.as_str());
    out.append(",\"content\":");
    out.append(c.as_str());
    out.append(",\"branch\":");
    out.append(b.as_str());
    out.append("}");
    proof {
        assert(out@ =~= "{\"message\":"@ + json_string_of("Publish address list"@)
            + ",\"content\":"@ + json_string_of(content_b64@) + ",\"branch\":"@
            + json_string_of(branch@) + "}"@);
    }
    out
}

/// The repository coordinates a configured raw-file URL designates.
#[derive(Debug, PartialEq, Eq)]
pub struct RepoFile {
    pub owner: String,
    pub repo: String,
    pub branch: String,
    pub path: String,
    pub token: String,
}

/// How a raw-file URL decomposes: the fixed host, then owner, repository
/// and branch segments without slashes, the branch-reference path, a
/// non-empty file path, and a non-empty access token after the last usable
/// token marker.
pub open spec fn github_url_parts(
    s: Seq<char>,
    owner: Seq<char>,
    repo: Seq<char>,
    branch: Seq<char>,
    path: Seq<char>,
    token: Seq<char>,
) -> bool {
    &&& s == "https://raw.githubusercontent.com/"@ + owner + "/"@ + repo + "/refs/heads/"@
        + branch + "/"@ + path + "?token="@ + token
    &&& owner.len() > 0 && !owner.contains('/')
    &&& repo.len() > 0 && !repo.contains('/')
    &&& branch.len() > 0 && !branch.contains('/')
    &&& path.len() > 0
    &&& token.len() > 0
    &&& forall|m: int| matches_at(token, "?token="@, m) ==> m + 7 >= token.len()
}

/// Where each part of a well-formed raw-file URL sits: the layout is
/// forced, so the decomposition is unique.
#[verifier::rlimit(100)]
pub proof fn lemma_parts_layout(
    s: Seq<char>,
    o: Seq<char>,
    rp: Seq<char>,
    b: Seq<char>,
    p: Seq<char>,
    t: Seq<char>,
)
    requires
        github_url_parts(s, o, rp, b, p, t),
    ensures
        s.len() == 55 + o.len() + rp.len() + b.len() + p.len() + t.len(),
        matches_at(s, "https://raw.githubusercontent.com/"@, 0),
        forall|j: int| 34 <= j < 34 + o.len() ==> s[j] != '/',
        s[(34 + o.len()) as int] == '/',
        forall|j: int| 35 + o.len() <= j < 35 + o.len() + rp.len() ==> s[j] != '/',
        matches_at(s, "/refs/heads/"@, (35 + o.len() + rp.len()) as int),
        forall|j: int|
            47 + o.len() + rp.len() <= j < 47 + o.len() + rp.len() + b.len() ==> s[j] != '/',
        s[(47 + o.len() + rp.len() + b.len()) as int] == '/',
        matches_at(s, "?token="@, (48 + o.len() + rp.len() + b.len() + p.len()) as int),
        forall|j: int|
            48 + o.len() + rp.len() + b.len() + p.len() < j <= s.len() - 8 ==> !matches_at(
                s,
                "?token="@,
                j,
            ),
        o == s.subrange(34, (34 + o.len()) as int),
        rp == s.subrange((35 + o.len()) as int, (35 + o.len() + rp.len()) as int),
        b == s.subrange(
            (47 + o.len() + rp.len()) as int,
            (47 + o.len() + rp.len() + b.len()) as int,
        ),
        p == s.subrange(
            (48 + o.len() + rp.len() + b.len()) as int,
            (48 + o.len() + rp.len() + b.len() + p.len()) as int,
        ),
        t == s.subrange((55 + o.len() + rp.len() + b.len() + p.len()) as int, s.len() as int),
{
    reveal_strlit("https://raw.githubusercontent.com/");
    reveal_strlit("/refs/heads/");
    reveal_strlit("/");
    reveal_strlit("?token=");
    let pre = "https://raw.githubusercontent.com/"@;
    let rh = "/refs/heads/"@;
    let sl = "/"@;
    let mk = "?token="@;
    assert(pre.len() == 34);
    assert(rh.len() == 12);
    assert(sl.len() == 1);
    assert(mk.len() == 7);
    let i1 = 34 + o.len() as int;
    let i2 = i1 + 1 + rp.len() as int;
    let b0 = i2 + 12;
    let i3 = b0 + b.len() as int;
    let k = i3 + 1 + p.len() as int;
    assert(s.len() == k + 7 + t.len());
    assert(s.subrange(0, 34) =~= pre);
    assert(o =~= s.subrange(34, i1));
    assert(s[i1] == sl[0]);
    assert(sl[0] == '/');
    assert(rp =~= s.subrange(i1 + 1, i2));
    assert(s.subrange(i2, b0) =~= rh);
    assert(b =~= s.subrange(b0, i3));
    assert(s[i3] == sl[0]);
    assert(p =~= s.subrange(i3 + 1, k));
    assert(s.subrange(k, k + 7) =~= mk);
    assert(t =~= s.subrange(k + 7, s.len() as int));
    assert forall|j: int| 34 <= j < i1 implies s[j] != '/' by {
        assert(s[j] == o[j - 34]);
        if o[j - 34] == '/' {
            assert(o.contains('/'));
        }
    }
    assert forall|j: int| i1 + 1 <= j < i2 implies s[j] != '/' by {
        assert(s[j] == rp[j - (i1 + 1)]);
        if rp[j - (i1 + 1)] == '/' {
            assert(rp.contains('/'));
        }
    }
    assert forall|j: int| b0 <= j < i3 implies s[j] != '/' by {
        assert(s[j] == b[j - b0]);
        if b[j - b0] == '/' {
            assert(b.contains('/'));
        }
    }
    assert(matches_at(s, pre, 0));
    assert(matches_at(s, rh, i2));
    assert(matches_at(s, mk, k));
    assert forall|j: int| k < j <= s.len() - 8 implies !matches_at(s, mk, j) by {
        if matches_at(s, mk, j) {
            assert(s.subrange(j, j + 7)[0] == s[j]);
            assert(s[j] == '?');
            if j < k + 7 {
                assert(s.subrange(k, k + 7)[j - k] == s[j]);
                assert(s[j] == mk[j - k]);
                assert(mk[j - k] != '?');
            } else {
                let m = j - (k + 7);
                assert(matches_at(t, mk, m)) by {
                    assert(t.subrange(m, m + 7) =~= s.subrange(j, j + 7));
                }
                assert(m + 7 >= t.len());
                assert(j + 7 >= s.len());
            }
        }
    }
}

/// Two first-slash positions from the same start coincide.
proof fn lemma_boundary_eq(s: Seq<char>, start: int, found: int, expect: int)
    requires
        start <= found < s.len(),
        s[found] == '/',
        forall|j: int| start <= j < found ==> s[j] != '/',
        start <= expect < s.len(),
        s[expect] == '/',
        forall|j: int| start <= j < expect ==> s[j] != '/',
    ensures
        found == expect,
{
    if found < expect {
        assert(s[found] != '/');
    }
    if expect < found {
        assert(s[expect] != '/');
    }
}

/// Parse a configured raw-file URL into its repository coordinates.  The
/// URL must name the raw host, an owner, a repository, a branch reference,
/// a file path and an access token; anything else is rejected.
#[verifier::rlimit(100)]
pub fn parse_github_file_url(url: &str) -> (r: Option<RepoFile>)
    ensures
        match r {
            Some(f) => github_url_parts(url@, f.owner@, f.repo@, f.branch@, f.path@, f.token@),
            None => forall|o: Seq<char>, rp: Seq<char>, b: Seq<char>, p: Seq<char>, t: Seq<char>|
                !github_url_parts(url@, o, rp, b, p, t),
        },
{
    let n: usize = url.unicode_len();
    proof {
        reveal_strlit("https://raw.githubusercontent.com/");
        reveal_strlit("/refs/heads/");
        reveal_strlit("?token=");
    }
    if !crate::text::starts_with(url, "https://raw.githubusercontent.com/") {
        proof {
            assert forall|o: Seq<char>, rp: Seq<char>, b: Seq<char>, p: Seq<char>, t: Seq<char>|
                !github_url_parts(url@, o, rp, b, p, t) by {
                if github_url_parts(url@, o, rp, b, p, t) {
                    lemma_parts_layout(url@, o, rp, b, p, t);
                }
            }
        }
        return None;
    }
    let i1 = match crate::text::find_char_from(url, '/', 34) {
        Some(i) => i,
        None => {
            proof {
                assert forall|o: Seq<char>, rp: Seq<char>, b: Seq<char>, p: Seq<char>, t: Seq<
                    char,
                >| !github_url_parts(url@, o, rp, b, p, t) by {
                    if github_url_parts(url@, o, rp, b, p, t) {
                        lemma_parts_layout(url@, o, rp, b, p, t);
                        assert(url@[(34 + o.len()) as int] == '/');
                    }
                }
            }
            return None;
        },
    };
    if i1 == 34 {
        proof {
            assert forall|o: Seq<char>, rp: Seq<char>, b: Seq<char>, p: Seq<char>, t: Seq<char>|
                !github_url_parts(url@, o, rp, b, p, t) by {
                if github_url_parts(url@, o, rp, b, p, t) {
                    lemma_parts_layout(url@, o, rp, b, p, t);
                    assert(url@[34] != '/');
                }
            }
        }
        return None;
    }
    let i2 = match crate::text::find_char_from(url, '/', i1 + 1) {
        Some(i) => i,
        None => {
            proof {
                assert forall|o: Seq<char>, rp: Seq<char>, b: Seq<char>, p: Seq<char>, t: Seq<
                    char,
                >| !github_url_parts(url@, o, rp, b, p, t) by {
                    if github_url_parts(url@, o, rp, b, p, t) {
                        lemma_parts_layout(url@, o, rp, b, p, t);
                        lemma_boundary_eq(url@, 34, i1 as int, (34 + o.len()) as int);
                        assert(url@[(35 + o.len() + rp.len()) as int] == '/');
                    }
                }
            }
            return None;
        },
    };
    if i2 == i1 + 1 {
        proof {
            assert forall|o: Seq<char>, rp: Seq<char>, b: Seq<char>, p: Seq<char>, t: Seq<char>|
                !github_url_parts(url@, o, rp, b, p, t) by {
                if github_url_parts(url@, o, rp, b, p, t) {
                    lemma_parts_layout(url@, o, rp, b, p, t);
                    lemma_boundary_eq(url@, 34, i1 as int, (34 + o.len()) as int);
                    assert(url@[(35 + o.len()) as int] != '/');
                }
            }
        }
        return None;
    }
    if !(i2 <= n - 12 && crate::text::match_at(url, "/refs/heads/", i2)) {
        proof {
            assert forall|o: Seq<char>, rp: Seq<char>, b: Seq<char>, p: Seq<char>, t: Seq<char>|
                !github_url_parts(url@, o, rp, b, p, t) by {
                if github_url_parts(url@, o, rp, b, p, t) {
                    lemma_parts_layout(url@, o, rp, b, p, t);
                    lemma_boundary_eq(url@, 34, i1 as int, (34 + o.len()) as int);
                    lemma_boundary_eq(
                        url@,
                        i1 + 1,
                        i2 as int,
                        (35 + o.len() + rp.len()) as int,
                    );
                    assert(matches_at(url@, "/refs/heads/"@, i2 as int));
                }
            }
        }
        return None;
    }
    let b0 = i2 + 12;
    let i3 = match crate::text::find_char_from(url, '/', b0) {
        Some(i) => i,
        None => {
            proof {
                assert forall|o: Seq<char>, rp: Seq<char>, b: Seq<char>, p: Seq<char>, t: Seq<
                    char,
                >| !github_url_parts(url@, o, rp, b, p, t) by {
                    if github_url_parts(url@, o, rp, b, p, t) {
                        lemma_parts_layout(url@, o, rp, b, p, t);
                        lemma_boundary_eq(url@, 34, i1 as int, (34 + o.len()) as int);
                        lemma_boundary_eq(
                            url@,
                            i1 + 1,
                            i2 as int,
                            (35 + o.len() + rp.len()) as int,
                        );
                        assert(url@[(47 + o.len() + rp.len() + b.len()) as int] == '/');
                    }
                }
            }
            return None;
        },
    };
    if i3 == b0 {
        proof {
            assert forall|o: Seq<char>, rp: Seq<char>, b: Seq<char>, p: Seq<char>, t: Seq<char>|
                !github_url_parts(url@, o, rp, b, p, t) by {
                if github_url_parts(url@, o, rp, b, p, t) {
                    lemma_parts_layout(url@, o, rp, b, p, t);
                    lemma_boundary_eq(url@, 34, i1 as int, (34 + o.len()) as int);
                    lemma_boundary_eq(
                        url@,
                        i1 + 1,
                        i2 as int,
                        (35 + o.len() + rp.len()) as int,
                    );
                    assert(url@[(47 + o.len() + rp.len()) as int] != '/');
                }
            }
        }
        return None;
    }
    let p0 = i3 + 1;
    assert(n >= 34);
    if p0 > n - 9 {
        proof {
            assert forall|o: Seq<char>, rp: Seq<char>, b: Seq<char>, p: Seq<char>, t: Seq<char>|
                !github_url_parts(url@, o, rp, b, p, t) by {
                if github_url_parts(url@, o, rp, b, p, t) {
                    lemma_parts_layout(url@, o, rp, b, p, t);
                    lemma_boundary_eq(url@, 34, i1 as int, (34 + o.len()) as int);
                    lemma_boundary_eq(
                        url@,
                        i1 + 1,
                        i2 as int,
                        (35 + o.len() + rp.len()) as int,
                    );
                    lemma_boundary_eq(
                        url@,
                        b0 as int,
                        i3 as int,
                        (47 + o.len() + rp.len() + b.len()) as int,
                    );
                }
            }
        }
        return None;
    }
    let mut j: usize = n - 8;
    let mut found = false;
    loop
        invariant_except_break
            n == url@.len(),
            p0 + 9 <= n,
            p0 <= j <= n - 8,
            !found,
            forall|j2: int| j < j2 <= n - 8 ==> !matches_at(url@, "?token="@, j2),
        ensures
            p0 <= j <= n - 8,
            found ==> p0 + 1 <= j && matches_at(url@, "?token="@, j as int) && forall|j2: int|
                j < j2 <= n - 8 ==> !matches_at(url@, "?token="@, j2),
            !found ==> forall|j2: int|
                p0 + 1 <= j2 <= n - 8 ==> !matches_at(url@, "?token="@, j2),
        decreases j,
    {
        if j < p0 + 1 {
            break;
        }
        proof {
            reveal_strlit("?token=");
        }
        if crate::text::match_at(url, "?token=", j) {
            found = true;
            break;
        }
        j -= 1;
    }
    if !found {
        proof {
            assert forall|o: Seq<char>, rp: Seq<char>, b: Seq<char>, p: Seq<char>, t: Seq<char>|
                !github_url_parts(url@, o, rp, b, p, t) by {
                if github_url_parts(url@, o, rp, b, p, t) {
                    lemma_parts_layout(url@, o, rp, b, p, t);
                    lemma_boundary_eq(url@, 34, i1 as int, (34 + o.len()) as int);
                    lemma_boundary_eq(
                        url@,
                        i1 + 1,
                        i2 as int,
                        (35 + o.len() + rp.len()) as int,
                    );
                    lemma_boundary_eq(
                        url@,
                        b0 as int,
                        i3 as int,
                        (47 + o.len() + rp.len() + b.len()) as int,
                    );
                    let kp = 48 + o.len() + rp.len() + b.len() + p.len();
                    assert(matches_at(url@, "?token="@, kp as int));
                    assert(p0 + 1 <= kp <= n - 8);
                }
            }
        }
        return None;
    }
    let k = j;
    let owner = crate::text::copy_str(url.substring_char(34, i1));
    let repo = crate::text::copy_str(url.substring_char(i1 + 1, i2));
    let branch = crate::text::copy_str(url.substring_char(b0, i3));
    let path = crate::text::copy_str(url.substring_char(p0, k));
    let token = crate::text::copy_str(url.substring_char(k + 7, n));
    proof {
        let s = url@;
        let o = owner@;
        let rp = repo@;
        let b = branch@;
        let p = path@;
        let t = token@;
        assert(s =~= "https://raw.githubusercontent.com/"@ + o + "/"@ + rp + "/refs/heads/"@ + b
            + "/"@ + p + "?token="@ + t) by {
            reveal_strlit("https://raw.githubusercontent.com/");
            reveal_strlit("/refs/heads/");
            reveal_strlit("?token=");
            reveal_strlit("/");
            assert(s.subrange(0, 34) =~= "https://raw.githubusercontent.com/"@);
            assert(s.subrange(i2 as int, i2 + 12) =~= "/refs/heads/"@);
            assert(s.subrange(k as int, k + 7) =~= "?token="@);
        }
        assert(!o.contains('/')) by {
            if o.contains('/') {
                let w = choose|w: int| 0 <= w < o.len() && o[w] == '/';
                assert(s[34 + w] == '/');
            }
        }
        assert(!rp.contains('/')) by {
            if rp.contains('/') {
                let w = choose|w: int| 0 <= w < rp.len() && rp[w] == '/';
                assert(s[i1 + 1 + w] == '/');
            }
        }
        assert(!b.contains('/')) by {
            if b.contains('/') {
                let w = choose|w: int| 0 <= w < b.len() && b[w] == '/';
                assert(s[b0 + w] == '/');
            }
        }
        assert forall|m: int| matches_at(t, "?token="@, m) implies m + 7 >= t.len() by {
            reveal_strlit("?token=");
            if matches_at(t, "?token="@, m) && m + 7 < t.len() {
                assert(t.subrange(m, m + 7) =~= s.subrange(k + 7 + m, k + 14 + m));
                assert(matches_at(s, "?token="@, k + 7 + m));
                assert(k < k + 7 + m <= n - 8);
            }
        }
        assert(github_url_parts(s, o, rp, b, p, t));
    }
    Some(RepoFile { owner, repo, branch, path, token })
}

/// The string a contents-API reply carries under a key, with an empty
/// fallback for a malformed reply or a missing or non-string member.
pub open spec fn repo_string_or_empty(body: Seq<char>, key: Seq<char>) -> Seq<char> {
    match doc_string_of(body, key) {
        Some(t) => t,
        None => Seq::<char>::empty(),
    }
}

/// The optimistic-concurrency hash and the raw encoded content of the
/// remote file, read out of a contents-API reply.  A missing member reads
/// as empty, as an absent file's would.
pub fn parse_repo_file(body: &str) -> (r: (String, String))
    ensures
        r.0@ == repo_string_or_empty(body@, "sha"@),
        r.1@ == repo_string_or_empty(body@, "content"@),
{
    let parsed = json_parse(body);
    match parsed {
        None => (String::new(), String::new()),
        Some(v) => {
            let sha = match json_get(&v, "sha") {
                Some(f) => match json_as_string(f) {
                    Some(s) => s,
                    None => String::new(),
                },
                None => String::new(),
            };
            let content = match json_get(&v, "content") {
                Some(f) => match json_as_string(f) {
                    Some(s) => s,
                    None => String::new(),
                },
                None => String::new(),
            };
            (sha, content)
        },
    }
}

} // verus!
