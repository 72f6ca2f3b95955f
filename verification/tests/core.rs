use cfst_ddns::candidates::{classify_address, filter_download_lines, read_ips_from_csv, record_type_for, IpFamily};
use cfst_ddns::cfst::{get_result_csv_path, parse_cf_command_for_file, parse_cf_command_for_output_file, prober_args};
use cfst_ddns::reconcile::{compute_stale, create_domain_ip_mapping, note_creation, CreateOutcome, DnsRecord};
use cfst_ddns::retry::{attempts_used, RetryCounter, CREDENTIAL_ATTEMPT_LIMIT, DOWNLOAD_ATTEMPT_LIMIT};
use cfst_ddns::text::{contains_sub, join, lines, split_char, tokens, trim, u32_string};

fn strs(v: &[&str]) -> Vec<String> {
    v.iter().map(|s| s.to_string()).collect()
}

#[test]
fn split_char_basic() {
    assert_eq!(split_char("a,b,,c", ','), strs(&["a", "b", "", "c"]));
    assert_eq!(split_char("", ','), strs(&[""]));
    assert_eq!(split_char(",", ','), strs(&["", ""]));
}

#[test]
fn tokens_drop_empty_pieces() {
    assert_eq!(tokens("  -f  ip.txt \t -o out.csv\n"), strs(&["-f", "ip.txt", "-o", "out.csv"]));
    assert_eq!(tokens("   "), strs(&[]));
    assert_eq!(tokens(""), strs(&[]));
}

#[test]
fn join_round_trip() {
    let v = strs(&["a.example.com", "b.example.com"]);
    assert_eq!(join(&v, " "), "a.example.com b.example.com");
    assert_eq!(join(&strs(&[]), " "), "");
    assert_eq!(join(&strs(&["solo"]), "\n"), "solo");
}

#[test]
fn trim_both_sides() {
    assert_eq!(trim("  x y\t"), "x y");
    assert_eq!(trim("\r\n"), "");
    assert_eq!(trim("plain"), "plain");
}

#[test]
fn lines_strip_carriage_returns() {
    assert_eq!(lines("a\r\nb\nc"), strs(&["a", "b", "c"]));
    assert_eq!(lines("a\n"), strs(&["a"]));
    assert_eq!(lines(""), strs(&[]));
}

#[test]
fn contains_sub_finds_patterns() {
    assert!(contains_sub("[::1]:443#tag", "]:443#tag"));
    assert!(!contains_sub("[::1]:443#tag", "]:8443#tag"));
    assert!(contains_sub("anything", ""));
}

#[test]
fn u32_string_exact() {
    assert_eq!(u32_string(0), "0");
    assert_eq!(u32_string(7), "7");
    assert_eq!(u32_string(81057), "81057");
    assert_eq!(u32_string(u32::MAX), "4294967295");
}

#[test]
fn parse_cf_command_flags() {
    assert_eq!(parse_cf_command_for_file("-f ip.txt -o res.csv", "-f"), Some("ip.txt".to_string()));
    assert_eq!(parse_cf_command_for_file("-f ip.txt -o res.csv", "-o"), Some("res.csv".to_string()));
    assert_eq!(parse_cf_command_for_file("-n 200 -f", "-f"), None);
    assert_eq!(parse_cf_command_for_file("-n 200", "-f"), None);
    assert_eq!(parse_cf_command_for_output_file("-o out.csv"), Some("out.csv".to_string()));
}

#[test]
fn result_csv_path_default() {
    assert_eq!(get_result_csv_path("-f ip.txt"), "result.csv");
    assert_eq!(get_result_csv_path("-f ip.txt -o speed.csv"), "speed.csv");
}

#[test]
fn prober_args_appends_quota_overrides() {
    assert_eq!(prober_args("-f ip.txt", 2), strs(&["-f", "ip.txt", "-dn", "2", "-p", "2"]));
    assert_eq!(prober_args("-f ip.txt", 0), strs(&["-f", "ip.txt"]));
}

#[test]
fn family_heuristic() {
    assert_eq!(classify_address("1.1.1.1"), IpFamily::V4);
    assert_eq!(classify_address("2606:4700::1111"), IpFamily::V6);
    assert_eq!(record_type_for(IpFamily::V4), "A");
    assert_eq!(record_type_for(IpFamily::V6), "AAAA");
}

#[test]
fn download_filter_trims_and_truncates() {
    let text = " 1.1.1.1 \n\n2606:4700::1111\n1.0.0.1\n9.9.9.9\n";
    assert_eq!(filter_download_lines(text, IpFamily::V4, 2), strs(&["1.1.1.1", "1.0.0.1"]));
    assert_eq!(filter_download_lines(text, IpFamily::V6, 5), strs(&["2606:4700::1111"]));
    assert_eq!(filter_download_lines(text, IpFamily::V4, 0), strs(&[]));
}

#[test]
fn csv_reader_skips_header_and_filters() {
    let csv = "IP,Sent,Recv,Loss,Latency,Speed,Colo\n\
               1.1.1.1,4,4,0.00,12.3,25.1,LAX\n\
               2606:4700::1111,4,4,0.00,15.0,,SJC\n\
               1.0.0.1,4,4,0.00,13.9,20.0,SEA\n";
    assert_eq!(read_ips_from_csv(csv, Some(IpFamily::V4), 0), strs(&["1.1.1.1", "1.0.0.1"]));
    assert_eq!(read_ips_from_csv(csv, Some(IpFamily::V4), 1), strs(&["1.1.1.1"]));
    assert_eq!(read_ips_from_csv(csv, Some(IpFamily::V6), 0), strs(&["2606:4700::1111"]));
    assert_eq!(read_ips_from_csv(csv, None, 0), strs(&["1.1.1.1", "2606:4700::1111", "1.0.0.1"]));
    assert_eq!(read_ips_from_csv("IP,Latency\n", Some(IpFamily::V4), 0), strs(&[]));
    assert_eq!(read_ips_from_csv("", Some(IpFamily::V4), 0), strs(&[]));
}

#[test]
fn zero_quota_reads_everything() {
    let mut body = String::from("IP,Sent,Recv,Loss,Latency,Speed,Colo\n");
    for i in 0..50 {
        body.push_str(&format!("10.0.0.{},4,4,0.00,12.0,1.0,LAX\n", i));
    }
    let all = read_ips_from_csv(&body, Some(IpFamily::V4), 0);
    assert_eq!(all.len(), 50);
}

#[test]
fn stale_records_are_exactly_the_undesired() {
    let existing = vec![
        DnsRecord { id: "r1".into(), content: "1.1.1.1".into() },
        DnsRecord { id: "r2".into(), content: "9.9.9.9".into() },
        DnsRecord { id: "r3".into(), content: "1.0.0.1".into() },
    ];
    let desired = strs(&["1.1.1.1", "1.0.0.1"]);
    let stale = compute_stale(&existing, &desired);
    assert_eq!(stale.len(), 1);
    assert_eq!(stale[0].id, "r2");
    assert_eq!(stale[0].content, "9.9.9.9");
}

#[test]
fn stale_empty_when_everything_desired() {
    let existing = vec![DnsRecord { id: "r1".into(), content: "1.1.1.1".into() }];
    let desired = strs(&["1.1.1.1"]);
    assert!(compute_stale(&existing, &desired).is_empty());
}

#[test]
fn round_robin_spreads_candidates() {
    let ips = strs(&["1.1.1.1", "1.0.0.1", "9.9.9.9"]);
    let domains = strs(&["a.example.com", "b.example.com"]);
    let mapping = create_domain_ip_mapping(&ips, &domains, "acct");
    assert_eq!(
        mapping,
        vec![
            ("a.example.com".to_string(), "1.1.1.1".to_string()),
            ("b.example.com".to_string(), "1.0.0.1".to_string()),
            ("a.example.com".to_string(), "9.9.9.9".to_string()),
        ]
    );
}

#[test]
fn scenario_two_candidates_two_hostnames() {
    let ips = strs(&["1.1.1.1", "1.1.1.2"]);
    let domains = strs(&["a.example.com", "b.example.com"]);
    let mapping = create_domain_ip_mapping(&ips, &domains, "acct");
    assert_eq!(
        mapping,
        vec![
            ("a.example.com".to_string(), "1.1.1.1".to_string()),
            ("b.example.com".to_string(), "1.1.1.2".to_string()),
        ]
    );
}

#[test]
fn unspecified_account_maps_to_blank_hostnames() {
    let ips = strs(&["1.1.1.1"]);
    let domains = strs(&["a.example.com"]);
    let mapping = create_domain_ip_mapping(&ips, &domains, "unspecified");
    assert_eq!(mapping, vec![(String::new(), "1.1.1.1".to_string())]);
    let none = create_domain_ip_mapping(&ips, &strs(&[]), "acct");
    assert_eq!(none, vec![(String::new(), "1.1.1.1".to_string())]);
}

#[test]
fn duplicate_creation_stays_out_of_result_map() {
    let map: Vec<(String, Vec<String>)> = Vec::new();
    let map = note_creation(map, "a.example.com", "1.1.1.1", CreateOutcome::Created);
    assert_eq!(map, vec![("a.example.com".to_string(), strs(&["1.1.1.1"]))]);
    let map = note_creation(map, "a.example.com", "1.0.0.1", CreateOutcome::AlreadyExists);
    assert_eq!(map, vec![("a.example.com".to_string(), strs(&["1.1.1.1"]))]);
    let map = note_creation(map, "a.example.com", "9.9.9.9", CreateOutcome::Failed);
    assert_eq!(map, vec![("a.example.com".to_string(), strs(&["1.1.1.1"]))]);
    let map = note_creation(map, "a.example.com", "1.0.0.2", CreateOutcome::Created);
    assert_eq!(map, vec![("a.example.com".to_string(), strs(&["1.1.1.1", "1.0.0.2"]))]);
    let map = note_creation(map, "b.example.com", "1.0.0.3", CreateOutcome::Created);
    assert_eq!(
        map,
        vec![
            ("a.example.com".to_string(), strs(&["1.1.1.1", "1.0.0.2"])),
            ("b.example.com".to_string(), strs(&["1.0.0.3"])),
        ]
    );
}

#[test]
fn download_retry_exhausts_after_exactly_five() {
    let mut counter = RetryCounter::new(DOWNLOAD_ATTEMPT_LIMIT);
    let mut attempts = 0;
    while counter.may_attempt() {
        attempts += 1;
        counter.record_failure();
    }
    assert_eq!(attempts, 5);
    assert!(counter.exhausted());
}

#[test]
fn credential_retry_exhausts_after_exactly_ten() {
    let mut counter = RetryCounter::new(CREDENTIAL_ATTEMPT_LIMIT);
    let mut attempts = 0;
    while counter.may_attempt() {
        attempts += 1;
        counter.record_failure();
    }
    assert_eq!(attempts, 10);
    assert!(counter.exhausted());
}

#[test]
fn retry_stops_right_after_first_success() {
    let outcomes = vec![false, false, true, false, false];
    assert_eq!(attempts_used(&outcomes, DOWNLOAD_ATTEMPT_LIMIT), (true, 3));
    let all_fail = vec![false; 10];
    assert_eq!(attempts_used(&all_fail, DOWNLOAD_ATTEMPT_LIMIT), (false, 5));
    assert_eq!(attempts_used(&all_fail, CREDENTIAL_ATTEMPT_LIMIT), (false, 10));
}
