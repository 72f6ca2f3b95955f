use cfst_ddns::config::{Config, GithubPushConfig};
use cfst_ddns::provider::{classify_create, create_record_body, parse_api_status, records_from_body, records_query_url, record_url, zone_url, email_header, key_header};
use cfst_ddns::publisher::{build_list_content, dedup_lines, render_entry};
use cfst_ddns::push::PushService;
use cfst_ddns::reconcile::CreateOutcome;
use cfst_ddns::repo::{b64_decode_utf8, build_create_content, build_update_from_existing, create_file_payload, encode_list_body, parse_github_file_url, parse_repo_file, repo_auth_header, repo_contents_url, strip_newlines, update_file_payload, RepoFile};

fn strs(v: &[&str]) -> Vec<String> {
    v.iter().map(|s| s.to_string()).collect()
}

fn cfg(port: &str, remark: &str, remark6: &str) -> GithubPushConfig {
    GithubPushConfig {
        ddns_push: "main".to_string(),
        file_url: String::new(),
        port: port.to_string(),
        remark: remark.to_string(),
        remark6: remark6.to_string(),
    }
}

fn service() -> PushService {
    PushService::new(Config::new())
}

#[test]
fn entry_lines_follow_family_and_remark() {
    let c = cfg("443", "prod", "prod6");
    assert_eq!(render_entry("1.1.1.1", &c), "1.1.1.1:443#prod");
    assert_eq!(render_entry("2606:4700::1111", &c), "[2606:4700::1111]:443#prod6");
    let bare = cfg("443", "", "");
    assert_eq!(render_entry("1.1.1.1", &bare), "1.1.1.1");
    assert_eq!(render_entry("2606:4700::1111", &bare), "[2606:4700::1111]");
}

#[test]
fn dedup_keeps_first_occurrences() {
    let v = strs(&["a", "b", "a", "", "c", "b"]);
    assert_eq!(dedup_lines(&v), strs(&["a", "b", "c"]));
}

#[test]
fn foreign_lines_survive_byte_for_byte() {
    let c = cfg("443", "prod", "prod6");
    let svc = service();
    let content = "2.2.2.2:8443#other\n  padded.keep \n\n  1.1.1.1:443#prod  \n[2606:4700::1111]:443#prod6\n[::1]:9#x\nbare.line\n";
    let kept = svc.filter_github_content(content, &c);
    assert_eq!(kept, "2.2.2.2:8443#other\n  padded.keep \n\n[::1]:9#x\nbare.line");
}

#[test]
fn padded_own_lines_are_replaced_blank_lines_survive() {
    let c = cfg("443", "prod", "");
    let existing = "  1.0.0.9:443#prod \nfoo\n\n";
    let mapping = vec![(String::new(), "1.1.1.1".to_string())];
    let updated = build_update_from_existing(existing, &c, &mapping);
    assert_eq!(updated, "foo\n\n1.1.1.1:443#prod\n");
}

#[test]
fn third_party_line_survives_publish_cycle() {
    let c = cfg("443", "prod", "");
    let existing = "2.2.2.2:8443#other\n1.0.0.9:443#prod\n";
    let mapping = vec![(String::new(), "1.1.1.1".to_string())];
    let updated = build_update_from_existing(existing, &c, &mapping);
    assert_eq!(updated, "2.2.2.2:8443#other\n1.1.1.1:443#prod\n");
}

#[test]
fn update_replaces_only_own_tag() {
    let c = cfg("443", "prod", "prod6");
    let existing = "1.0.0.9:443#prod\n3.3.3.3:443#other\n[2606:4700::2]:443#prod6\n";
    let mapping = vec![
        ("a.example.com".to_string(), "1.1.1.1".to_string()),
        ("b.example.com".to_string(), "1.1.1.1".to_string()),
        ("a.example.com".to_string(), "2606:4700::1111".to_string()),
    ];
    let updated = build_update_from_existing(existing, &c, &mapping);
    assert_eq!(
        updated,
        "3.3.3.3:443#other\n1.1.1.1:443#prod\n[2606:4700::1111]:443#prod6\n"
    );
}

#[test]
fn fresh_file_content_is_entries_with_newline() {
    let c = cfg("443", "prod", "");
    let mapping = vec![
        (String::new(), "1.1.1.1".to_string()),
        (String::new(), "1.0.0.1".to_string()),
    ];
    assert_eq!(build_create_content(&c, &mapping), "1.1.1.1:443#prod\n1.0.0.1:443#prod\n");
}

#[test]
fn merged_content_always_ends_with_newline() {
    assert_eq!(build_list_content(&strs(&[]), &strs(&[])), "\n");
    assert_eq!(build_list_content(&strs(&["a"]), &strs(&[])), "a\n");
    assert_eq!(build_list_content(&strs(&[]), &strs(&["b"])), "b\n");
    assert_eq!(build_list_content(&strs(&["a"]), &strs(&["b"])), "a\nb\n");
}

#[test]
fn transport_encoding_round_trips() {
    let body = "1.0.0.1:443#prod\n2.2.2.2:8443#other\n";
    let encoded = encode_list_body(body).unwrap();
    assert_eq!(encoded, "MS4wLjAuMTo0NDMjcHJvZAoyLjIuMi4yOjg0NDMjb3RoZXIK");
    let decoded = b64_decode_utf8(&encoded).unwrap();
    assert_eq!(decoded, body);
}

#[test]
fn embedded_newlines_are_stripped_before_decoding() {
    let wrapped = "MS4wLjAuMTo0NDMjcHJvZAoy\nLjIuMi4yOjg0NDMjb3RoZXIK\n";
    let cleaned = strip_newlines(wrapped);
    assert_eq!(cleaned, "MS4wLjAuMTo0NDMjcHJvZAoyLjIuMi4yOjg0NDMjb3RoZXIK");
    assert_eq!(b64_decode_utf8(&cleaned).unwrap(), "1.0.0.1:443#prod\n2.2.2.2:8443#other\n");
}

#[test]
fn repo_file_replies_yield_sha_and_content() {
    let body = "{\"sha\":\"abc123\",\"content\":\"UVVKRA==\"}";
    let (sha, content) = parse_repo_file(body);
    assert_eq!(sha, "abc123");
    assert_eq!(content, "UVVKRA==");
    let (no_sha, no_content) = parse_repo_file("not json");
    assert_eq!(no_sha, "");
    assert_eq!(no_content, "");
}

#[test]
fn invalid_base64_is_refused() {
    assert_eq!(b64_decode_utf8("!!!not base64!!!"), None);
}

#[test]
fn raw_url_parses_into_coordinates() {
    let url = "https://raw.githubusercontent.com/me/lists/refs/heads/main/dir/ips.txt?token=tok123";
    let f = parse_github_file_url(url).unwrap();
    assert_eq!(
        f,
        RepoFile {
            owner: "me".to_string(),
            repo: "lists".to_string(),
            branch: "main".to_string(),
            path: "dir/ips.txt".to_string(),
            token: "tok123".to_string(),
        }
    );
}

#[test]
fn raw_url_splits_at_last_token_marker() {
    let url = "https://raw.githubusercontent.com/me/lists/refs/heads/main/a?token=b?token=c";
    let f = parse_github_file_url(url).unwrap();
    assert_eq!(f.path, "a?token=b");
    assert_eq!(f.token, "c");
}

#[test]
fn malformed_raw_urls_are_rejected() {
    assert_eq!(parse_github_file_url("https://example.com/x?token=y"), None);
    assert_eq!(parse_github_file_url("https://raw.githubusercontent.com//r/refs/heads/b/p?token=t"), None);
    assert_eq!(parse_github_file_url("https://raw.githubusercontent.com/o/r/refs/tags/b/p?token=t"), None);
    assert_eq!(parse_github_file_url("https://raw.githubusercontent.com/o/r/refs/heads/b/p"), None);
    assert_eq!(parse_github_file_url("https://raw.githubusercontent.com/o/r/refs/heads/b/?token=t"), None);
    assert_eq!(parse_github_file_url("https://raw.githubusercontent.com/o/r/refs/heads/b/p?token="), None);
}

#[test]
fn repo_requests_are_exact() {
    assert_eq!(repo_contents_url("me", "lists", "dir/ips.txt"), "https://api.github.com/repos/me/lists/contents/dir/ips.txt");
    assert_eq!(repo_auth_header("tok"), "Authorization: token tok");
    let up = update_file_payload("QUJD", "abc123", "main");
    assert_eq!(
        up,
        "{\"message\":\"Refresh published address list\",\"content\":\"QUJD\",\"sha\":\"abc123\",\"branch\":\"main\"}"
    );
    let cr = create_file_payload("QUJD", "main");
    assert_eq!(cr, "{\"message\":\"Publish address list\",\"content\":\"QUJD\",\"branch\":\"main\"}");
}

#[test]
fn provider_requests_are_exact() {
    assert_eq!(zone_url("z1"), "https://api.cloudflare.com/client/v4/zones/z1");
    assert_eq!(
        records_query_url("z1", "a.example.com", Some("A")),
        "https://api.cloudflare.com/client/v4/zones/z1/dns_records?type=A&name=a.example.com"
    );
    assert_eq!(
        records_query_url("z1", "a.example.com", None),
        "https://api.cloudflare.com/client/v4/zones/z1/dns_records?name=a.example.com"
    );
    assert_eq!(record_url("z1", "r9"), "https://api.cloudflare.com/client/v4/zones/z1/dns_records/r9");
    assert_eq!(email_header("me@example.com"), "X-Auth-Email: me@example.com");
    assert_eq!(key_header("k"), "X-Auth-Key: k");
    let body = create_record_body("A", "a.example.com", "1.1.1.1");
    assert_eq!(
        body,
        "{\"type\":\"A\",\"name\":\"a.example.com\",\"content\":\"1.1.1.1\",\"proxied\":false}"
    );
}

#[test]
fn duplicate_reply_is_a_noop_not_an_error() {
    let body = "{\"success\":false,\"errors\":[{\"code\":81057,\"message\":\"Record already exists.\"}]}";
    let status = parse_api_status(body);
    assert!(!status.success);
    assert_eq!(status.error_code, 81057);
    assert_eq!(classify_create(&status), CreateOutcome::AlreadyExists);
}

#[test]
fn creation_replies_classify_exactly() {
    let ok = parse_api_status("{\"success\":true,\"errors\":[]}");
    assert_eq!(classify_create(&ok), CreateOutcome::Created);
    let failed = parse_api_status("{\"success\":false,\"errors\":[{\"code\":9109,\"message\":\"Invalid access token\"}]}");
    assert_eq!(classify_create(&failed), CreateOutcome::Failed);
    assert_eq!(failed.error_message, "Invalid access token");
    let garbage = parse_api_status("not json at all");
    assert_eq!(classify_create(&garbage), CreateOutcome::Failed);
}

#[test]
fn record_listing_parses_ids_and_contents() {
    let body = "{\"success\":true,\"result\":[\
        {\"id\":\"r1\",\"content\":\"1.1.1.1\"},\
        {\"id\":\"r2\",\"content\":\"9.9.9.9\"},\
        {\"content\":\"no id, skipped\"}]}";
    let recs = records_from_body(body).unwrap();
    assert_eq!(recs.len(), 2);
    assert_eq!(recs[0].id, "r1");
    assert_eq!(recs[0].content, "1.1.1.1");
    assert_eq!(recs[1].id, "r2");
    assert!(records_from_body("{\"success\":false,\"errors\":[{\"code\":7,\"message\":\"x\"}]}").is_none());
    assert!(records_from_body("not json").is_none());
}

#[test]
fn push_targets_select_matching_configs() {
    let mut config = Config::new();
    config.github_push = Some(vec![
        GithubPushConfig { ddns_push: "main".into(), file_url: String::new(), port: "443".into(), remark: "a".into(), remark6: String::new() },
        GithubPushConfig { ddns_push: "other".into(), file_url: String::new(), port: "443".into(), remark: "b".into(), remark6: String::new() },
        GithubPushConfig { ddns_push: "main".into(), file_url: String::new(), port: "8443".into(), remark: "c".into(), remark6: String::new() },
    ]);
    let svc = PushService::new(config);
    assert_eq!(svc.github_targets("main"), vec![0, 2]);
    assert_eq!(svc.github_targets("missing"), Vec::<usize>::new());
    assert_eq!(service().github_targets("main"), Vec::<usize>::new());
}
