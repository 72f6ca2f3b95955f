//! The DNS provider's REST interface: the request each reconciler step
//! sends, and the reading of the provider's JSON replies.
//!
//! Each reader's contract states, over the reply text's JSON document,
//! exactly which plain values it extracts; the classification of an
//! outcome from those values is exact too.

use vstd::prelude::*;
use crate::jsonio::{
    doc_field, doc_flag_of, json_as_array, json_as_bool, json_as_i64, json_as_string, json_at,
    json_doc_of, json_get, json_parse, json_quote, json_string_of, json_view_of, JsonView,
};
use crate::reconcile::{CreateOutcome, DnsRecord};
use crate::text::copy_str;

verus! {

/// The provider's error code for a record that already exists: such a
/// creation is a no-op, not an error.
pub const DUPLICATE_RECORD_CODE: i64 = 81057;

/// The zone endpoint used by the credential check.
pub fn zone_url(zone_id: &str) -> (r: String)
    ensures
        r@ == "https://api.cloudflare.com/client/v4/zones/"@ + zone_id@,
{
    let mut out = String::new();
    out.append("https://api.cloudflare.com/client/v4/zones/");
    out.append(zone_id);
    proof {
        assert(out@ =~= "https://api.cloudflare.com/client/v4/zones/"@ + zone_id@);
    }
    out
}

/// The record-listing endpoint for one hostname, optionally narrowed to
/// one record type.
pub fn records_query_url(zone_id: &str, domain: &str, record_type: Option<&str>) -> (r: String)
    ensures
        match record_type {
            Some(t) => r@ == "https://api.cloudflare.com/client/v4/zones/"@ + zone_id@
                + "/dns_records?type="@ + t@ + "&name="@ + domain@,
            None => r@ == "https://api.cloudflare.com/client/v4/zones/"@ + zone_id@
                + "/dns_records?name="@ + domain@,
        },
{
    let mut out = String::new();
    out.append("https://api.cloudflare.com/client/v4/zones/");
    out.append(zone_id);
    match record_type {
        Some(t) => {
            out.append("/dns_records?type=");
            out.append(t);
            out.append("&name=");
            out.append(domain);
            proof {
                assert(out@ =~= "https://api.cloudflare.com/client/v4/zones/"@ + zone_id@
                    + "/dns_records?type="@ + record_type->0@ + "&name="@ + domain@);
            }
        },
        None => {
            out.append("/dns_records?name=");
            out.append(domain);
            proof {
                assert(out@ =~= "https://api.cloudflare.com/client/v4/zones/"@ + zone_id@
                    + "/dns_records?name="@ + domain@);
            }
        },
    }
    out
}

/// The endpoint of one record, used by the delete step.
pub fn record_url(zone_id: &str, record_id: &str) -> (r: String)
    ensures
        r@ == "https://api.cloudflare.com/client/v4/zones/"@ + zone_id@ + "/dns_records/"@
            + record_id@,
{
    let mut out = String::new();
    out.append("https://api.cloudflare.com/client/v4/zones/");
    out.append(zone_id);
    out.append("/dns_records/");
    out.append(record_id);
    proof {
        assert(out@ =~= "https://api.cloudflare.com/client/v4/zones/"@ + zone_id@
            + "/dns_records/"@ + record_id@);
    }
    out
}

/// The record-collection endpoint, used by the create step.
pub fn records_url(zone_id: &str) -> (r: String)
    ensures
        r@ == "https://api.cloudflare.com/client/v4/zones/"@ + zone_id@ + "/dns_records"@,
{
    let mut out = String::new();
    out.append("https://api.cloudflare.com/client/v4/zones/");
    out.append(zone_id);
    out.append("/dns_records");
    proof {
        assert(out@ =~= "https://api.cloudflare.com/client/v4/zones/"@ + zone_id@
            + "/dns_records"@);
    }
    out
}

/// The authentication mail header.
pub fn email_header(x_email: &str) -> (r: String)
    ensures
        r@ == "X-Auth-Email: "@ + x_email@,
{
    let mut out = String::new();
    out.append("X-Auth-Email: ");
    out.append(x_email);
    proof {
        assert(out@ =~= "X-Auth-Email: "@ + x_email@);
    }
    out
}

/// The authentication key header.
pub fn key_header(api_key: &str) -> (r: String)
    ensures
        r@ == "X-Auth-Key: "@ + api_key@,
{
    let mut out = String::new();
    out.append("X-Auth-Key: ");
    out.append(api_key);
    proof {
        assert(out@ =~= "X-Auth-Key: "@ + api_key@);
    }
    out
}

/// The creation payload for one record: its type, hostname and address,
/// with provider-side proxying off.
pub fn create_record_body(record_type: &str, domain: &str, ip: &str) -> (r: String)
    ensures
        r@ == "{\"type\":"@ + json_string_of(record_type@) + ",\"name\":"@ + json_string_of(
            domain@,
        ) + ",\"content\":"@ + json_string_of(ip@) + ",\"proxied\":false}"@,
{
    let tq = json_quote(record_type);
    let dq = json_quote(domain);
    let cq = json_quote(ip);
    let mut out = String::new();
    out.append("{\"type\":");
    out.append(tq.as_str());
    out.append(",\"name\":");
    out.append(dq.as_str());
    out.append(",\"content\":");
    out.append(cq.as_str());
    out.append(",\"proxied\":false}");
    proof {
        assert(out@ =~= "{\"type\":"@ + json_string_of(record_type@) + ",\"name\":"@
            + json_string_of(domain@) + ",\"content\":"@ + json_string_of(ip@)
            + ",\"proxied\":false}"@);
    }
    out
}

/// What a provider reply says: its success flag and, on failure, the first
/// error's code and message.
#[derive(Debug, PartialEq, Eq)]
pub struct ApiStatus {
    pub success: bool,
    pub error_code: i64,
    pub error_message: String,
}

/// Whether a provider reply reports success: a true boolean `success`
/// member.
pub open spec fn status_success_of(body: Seq<char>) -> bool {
    doc_flag_of(body, "success"@)
}

/// The first entry of a reply's `errors` array, when it has one.
pub open spec fn first_error_of(body: Seq<char>) -> Option<JsonView> {
    match json_doc_of(body) {
        Some(doc) => match doc_field(doc, "errors"@) {
            Some(JsonView::ArrayValue(a)) => if a.len() > 0 {
                Some(a[0])
            } else {
                None
            },
            _ => None,
        },
        None => None,
    }
}

/// The first error's code; zero when the reply carries none.
pub open spec fn status_error_code_of(body: Seq<char>) -> int {
    match first_error_of(body) {
        Some(e) => match doc_field(e, "code"@) {
            Some(JsonView::IntValue(n)) => n,
            _ => 0,
        },
        None => 0,
    }
}

/// The first error's message, with the fixed fallbacks for an unreadable
/// reply and for a reply without one.
pub open spec fn status_error_message_of(body: Seq<char>) -> Seq<char> {
    if json_doc_of(body) is None {
        "unreadable provider reply"@
    } else {
        match first_error_of(body) {
            Some(e) => match doc_field(e, "message"@) {
                Some(JsonView::StringValue(t)) => t,
                _ => "unknown error"@,
            },
            None => "unknown error"@,
        }
    }
}

/// Read the success flag and the first error out of a provider reply.  A
/// malformed reply reads as failure with no code, as the original
/// substring checks would have treated it.
pub fn parse_api_status(body: &str) -> (r: ApiStatus)
    ensures
        r.success == status_success_of(body@),
        r.error_code as int == status_error_code_of(body@),
        r.error_message@ == status_error_message_of(body@),
{
    let parsed = json_parse(body);
    match parsed {
        None => ApiStatus {
            success: false,
            error_code: 0,
            error_message: copy_str("unreadable provider reply"),
        },
        Some(v) => {
            let success = match json_get(&v, "success") {
                Some(f) => match json_as_bool(f) {
                    Some(b) => b,
                    None => false,
                },
                None => false,
            };
            let (error_code, error_message) = match json_get(&v, "errors") {
                Some(errs) => match json_at(errs, 0) {
                    Some(e) => {
                        let code = match json_get(e, "code") {
                            Some(c) => match json_as_i64(c) {
                                Some(x) => x,
                                None => 0,
                            },
                            None => 0,
                        };
                        let message = match json_get(e, "message") {
                            Some(m) => match json_as_string(m) {
                                Some(s) => s,
                                None => copy_str("unknown error"),
                            },
                            None => copy_str("unknown error"),
                        };
                        (code, message)
                    },
                    None => (0i64, copy_str("unknown error")),
                },
                None => (0i64, copy_str("unknown error")),
            };
            ApiStatus { success, error_code, error_message }
        },
    }
}

/// Classify one creation reply: success is a created record; the
/// provider's duplicate code is a no-op, not an error; anything else is a
/// skipped failure.
pub fn classify_create(status: &ApiStatus) -> (r: CreateOutcome)
    ensures
        r == CreateOutcome::Created <==> status.success,
        r == CreateOutcome::AlreadyExists <==> (!status.success && status.error_code
            == DUPLICATE_RECORD_CODE),
        r == CreateOutcome::Failed <==> (!status.success && status.error_code
            != DUPLICATE_RECORD_CODE),
{
    if status.success {
        CreateOutcome::Created
    } else if status.error_code == DUPLICATE_RECORD_CODE {
        CreateOutcome::AlreadyExists
    } else {
        CreateOutcome::Failed
    }
}

/// Whether a reply reports success; the delete and credential-check steps
/// need nothing more.
pub fn reply_succeeded(status: &ApiStatus) -> (r: bool)
    ensures
        r == status.success,
{
    status.success
}

/// The record an element of the result array describes: its `id` and
/// `content` strings, or nothing when either is missing.
pub open spec fn record_entry_of(item: JsonView) -> Option<(Seq<char>, Seq<char>)> {
    match (doc_field(item, "id"@), doc_field(item, "content"@)) {
        (Some(JsonView::StringValue(i)), Some(JsonView::StringValue(c))) => Some((i, c)),
        _ => None,
    }
}

/// The records described by a result array, in order, elements without an
/// identifier or content skipped.
pub open spec fn records_in(a: Seq<JsonView>) -> Seq<(Seq<char>, Seq<char>)> {
    a.filter_map(|item: JsonView| record_entry_of(item))
}

/// The records a listing reply yields: nothing for a malformed or failed
/// reply, and otherwise the records of its result array — an absent or
/// non-array result reads as no records.
pub open spec fn listed_records_of(body: Seq<char>) -> Option<Seq<(Seq<char>, Seq<char>)>> {
    match json_doc_of(body) {
        None => None,
        Some(doc) => if !status_success_of(body) {
            None
        } else {
            match doc_field(doc, "result"@) {
                Some(JsonView::ArrayValue(a)) => Some(records_in(a)),
                Some(_) => Some(Seq::<(Seq<char>, Seq<char>)>::empty()),
                None => Some(Seq::<(Seq<char>, Seq<char>)>::empty()),
            }
        },
    }
}

/// The identifier–content pairs of a record list.
pub open spec fn record_views(rs: Seq<DnsRecord>) -> Seq<(Seq<char>, Seq<char>)> {
    rs.map_values(|d: DnsRecord| (d.id@, d.content@))
}

/// The records in a listing reply: each element of its result array that
/// carries both an identifier and a content string.
pub fn records_from_body(body: &str) -> (r: Option<Vec<DnsRecord>>)
    ensures
        r is Some <==> listed_records_of(body@) is Some,
        r is Some ==> Some(record_views(r->0@)) == listed_records_of(body@),
{
    let parsed = json_parse(body);
    match parsed {
        None => None,
        Some(v) => {
            let status = parse_api_status(body);
            if !status.success {
                return None;
            }
            let mut out: Vec<DnsRecord> = Vec::new();
            proof {
                assert(record_views(out@) =~= Seq::<(Seq<char>, Seq<char>)>::empty());
            }
            match json_get(&v, "result") {
                None => Some(out),
                Some(arr_val) => {
                    match json_as_array(arr_val) {
                        None => Some(out),
                        Some(items) => {
                            let ghost av = json_view_of(*arr_val)->ArrayValue_0;
                            let mut i: usize = 0;
                            proof {
                                assert(records_in(av.take(0)) =~= Seq::<(Seq<char>, Seq<char>)>::empty());
                            }
                            while i < items.len()
                                invariant
                                    json_view_of(*arr_val) == JsonView::ArrayValue(av),
                                    items@.len() == av.len(),
                                    forall|k: int|
                                        0 <= k < av.len() ==> json_view_of(#[trigger] items@[k])
                                            == av[k],
                                    0 <= i <= av.len(),
                                    record_views(out@) =~= records_in(av.take(i as int)),
                                decreases items@.len() - i,
                            {
                                let ghost prev = record_views(out@);
                                proof {
                                    assert(av.take(i + 1).drop_last() =~= av.take(i as int));
                                    assert(av.take(i + 1).last() == av[i as int]);
                                }
                                let item = &items[i];
                                let id = match json_get(item, "id") {
                                    Some(f) => json_as_string(f),
                                    None => None,
                                };
                                let content = match json_get(item, "content") {
                                    Some(f) => json_as_string(f),
                                    None => None,
                                };
                                match (id, content) {
                                    (Some(idv), Some(cv)) => {
                                        proof {
                                            assert(record_entry_of(av[i as int]) == Some(
                                                (idv@, cv@),
                                            ));
                                        }
                                        out.push(DnsRecord { id: idv, content: cv });
                                        proof {
                                            assert(record_views(out@) =~= prev.push(
                                                records_in(av.take(i + 1)).last(),
                                            ));
                                            assert(record_views(out@) =~= records_in(
                                                av.take(i + 1),
                                            ));
                                        }
                                    },
                                    _ => {
                                        proof {
                                            assert(record_entry_of(av[i as int]) is None);
                                            assert(records_in(av.take(i + 1)) == records_in(
                                                av.take(i as int),
                                            ));
                                        }
                                    },
                                }
                                i += 1;
                            }
                            proof {
                                assert(av.take(av.len() as int) =~= av);
                            }
                            Some(out)
                        },
                    }
                },
            }
        },
    }
}

} // verus!
