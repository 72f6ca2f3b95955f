use cfst_ddns::candidates::IpFamily;
use cfst_ddns::config::{Account, Config, PushConfig, Resolve};
use cfst_ddns::notify::{
    any_channel_enabled, classify_wechat_send, coded_reply_ok, keyed_form_body, parse_channel,
    push_configured, pushdeer_form_body, pushdeer_url, pushplus_payload, server_chan_url,
    success_reply_ok, synology_payload, telegram_api_url, telegram_payload, telegram_reply_ok,
    wechat_reply_code, wechat_reply_error, wechat_reply_token, wechat_send_payload,
    wechat_send_url, wechat_token_url, PushChannel, WechatSendOutcome,
};
use cfst_ddns::orchestrate::{
    build_domains, force_read_mode, hostnames_line, plan_family, plan_input_file,
    plan_result_path, push_wanted, PluginController, PushParams,
};
use cfst_ddns::report::{empty_result_notice, parse_report_rows, render_report, report_message};

fn strs(v: &[&str]) -> Vec<String> {
    v.iter().map(|s| s.to_string()).collect()
}

fn resolve_fixture(v4: u32, v6: u32) -> Resolve {
    Resolve {
        add_ddns: "acct".to_string(),
        ddns_name: "main".to_string(),
        hostname1: "example.com".to_string(),
        hostname2: "a b".to_string(),
        v4_num: v4,
        v6_num: v6,
        cf_command: "-f ip.txt -o res.csv".to_string(),
        v4_url: "https://lists.example/v4.txt".to_string(),
        v6_url: String::new(),
        push_mod: "Telegram Github".to_string(),
    }
}

fn push_cfg(name: &str) -> PushConfig {
    PushConfig {
        push_name: name.to_string(),
        telegram_bot_token: None,
        telegram_user_id: None,
        pushplus_token: None,
        server_sendkey: None,
        pushdeer_pushkey: None,
        wechat_corpid: None,
        wechat_secret: None,
        wechat_agentid: None,
        wechat_userid: None,
        synology_chat_url: None,
    }
}

#[test]
fn channel_names_resolve_exhaustively() {
    assert_eq!(parse_channel("Telegram"), Some(PushChannel::Telegram));
    assert_eq!(parse_channel("PushPlus"), Some(PushChannel::PushPlus));
    assert_eq!(parse_channel("ServerChan"), Some(PushChannel::ServerChan));
    assert_eq!(parse_channel("PushDeer"), Some(PushChannel::PushDeer));
    assert_eq!(parse_channel("WechatWork"), Some(PushChannel::WechatWork));
    assert_eq!(parse_channel("SynologyChat"), Some(PushChannel::SynologyChat));
    assert_eq!(parse_channel("Github"), Some(PushChannel::Github));
    assert_eq!(parse_channel("Pigeon"), None);
}

#[test]
fn push_skip_rules() {
    assert!(push_configured("Telegram"));
    assert!(!push_configured(""));
    assert!(!push_configured("unset"));
    assert!(any_channel_enabled("unset Telegram"));
    assert!(!any_channel_enabled("unset unset"));
    assert!(!any_channel_enabled(""));
}

#[test]
fn telegram_request_is_exact() {
    assert_eq!(telegram_api_url("botid"), "https://api.telegram.org/botbotid/sendMessage");
    let payload = telegram_payload("42", "msg \"quoted\" & <html>");
    assert_eq!(
        payload,
        "{\"chat_id\":\"42\",\"parse_mode\":\"HTML\",\"text\":\"msg \\\"quoted\\\" & <html>\"}"
    );
}

#[test]
fn pushplus_request_is_exact() {
    let payload = pushplus_payload("tk", "hello");
    assert_eq!(
        payload,
        "{\"token\":\"tk\",\"title\":\"Preferred address update\",\"content\":\"hello\",\"template\":\"html\"}"
    );
}

#[test]
fn keyed_forms_percent_encode_the_text() {
    assert_eq!(
        keyed_form_body("hello world & more"),
        "title=Preferred address update&desp=hello%20world%20%26%20more"
    );
    assert_eq!(
        pushdeer_form_body("hello world & more"),
        "text=Preferred address update&desp=hello%20world%20%26%20more"
    );
    assert_eq!(server_chan_url("key1"), "https://sctapi.ftqq.com/key1.send");
    assert_eq!(pushdeer_url("key2"), "https://api2.pushdeer.com/message/push?pushkey=key2");
}

#[test]
fn wechat_requests_are_exact() {
    assert_eq!(
        wechat_token_url("corp", "sec"),
        "https://qyapi.weixin.qq.com/cgi-bin/gettoken?corpid=corp&corpsecret=sec"
    );
    assert_eq!(
        wechat_send_url("at"),
        "https://qyapi.weixin.qq.com/cgi-bin/message/send?access_token=at"
    );
    let payload = wechat_send_payload("user", "1000002", "text body");
    assert_eq!(
        payload,
        "{\"touser\":\"user\",\"msgtype\":\"text\",\"agentid\":\"1000002\",\"text\":{\"content\":\"text body\"}}"
    );
    assert_eq!(synology_payload("hi"), "{\"text\":\"hi\"}");
}

#[test]
fn channel_replies_are_read() {
    assert!(telegram_reply_ok("{\"ok\":true}"));
    assert!(!telegram_reply_ok("{\"ok\":false}"));
    assert!(!telegram_reply_ok("garbage"));
    assert!(coded_reply_ok("{\"code\":200}", 200));
    assert!(!coded_reply_ok("{\"code\":500}", 200));
    assert!(coded_reply_ok("{\"code\":0}", 0));
    assert!(success_reply_ok("{\"success\":true}"));
    assert!(!success_reply_ok("{}"));
    assert_eq!(
        wechat_reply_token("{\"errcode\":0,\"access_token\":\"at99\"}"),
        Some("at99".to_string())
    );
    assert_eq!(wechat_reply_token("{\"errcode\":40013}"), None);
}

#[test]
fn wechat_send_replies_classify_exactly() {
    assert_eq!(classify_wechat_send(0), WechatSendOutcome::Delivered);
    assert_eq!(classify_wechat_send(81013), WechatSendOutcome::BadUserId);
    assert_eq!(classify_wechat_send(60020), WechatSendOutcome::HostNotAllowed);
    assert_eq!(classify_wechat_send(40013), WechatSendOutcome::Other);
    assert_eq!(wechat_reply_code("{\"errcode\":60020}"), 60020);
    assert_eq!(wechat_reply_code("garbage"), -1);
    assert_eq!(
        wechat_reply_error("{\"errcode\":40013,\"errmsg\":\"invalid corpid\"}"),
        Some("invalid corpid".to_string())
    );
}

#[test]
fn report_renders_all_columns() {
    let csv = "IP,Sent,Recv,Loss,Latency,Speed,Colo\n\
               1.1.1.1,4,4,0.00,12.3,25.1,LAX\n\
               1.0.0.1,4,4,0.00,15.0, ,SJC\n";
    let rows = parse_report_rows(csv, 2);
    let text = render_report(&rows, "a.example.com b.example.com c.example.com", IpFamily::V4);
    assert_eq!(
        text,
        "IPv4 addresses:\n1.1.1.1\n1.0.0.1\n\
         -------------------\nhostnames:\na.example.com\nb.example.com\n\
         -------------------\naverage latency:\n12.3 ms\n15.0 ms\n\
         -------------------\ndownload speed:\n25.1 MB/s\n\
         -------------------\ndatacenters:\nLAX\nSJC\n"
    );
}

#[test]
fn report_rows_respect_count_and_width() {
    let csv = "IP,Sent,Recv,Loss,Latency,Speed,Colo\n\
               1.1.1.1,4,4,0.00,12.3,25.1,LAX\n\
               short,row\n\
               1.0.0.1,4,4,0.00,15.0,20.0,SJC\n";
    let rows = parse_report_rows(csv, 3);
    assert_eq!(rows.len(), 2);
    let one = parse_report_rows(csv, 1);
    assert_eq!(one.len(), 1);
    assert_eq!(one[0][0], "1.1.1.1");
    assert!(parse_report_rows("IP,Latency\n", 5).is_empty());
    assert_eq!(empty_result_notice(), "no measurement rows in the result file\n");
}

#[test]
fn report_message_uses_notice_without_data_rows() {
    assert_eq!(report_message("IP,Latency\n", 2, "a.example.com", IpFamily::V4), empty_result_notice());
    assert_eq!(report_message("", 2, "a.example.com", IpFamily::V4), empty_result_notice());
    let csv = "IP,Sent,Recv,Loss,Latency,Speed,Colo\n1.1.1.1,4,4,0.00,12.3,25.1,LAX\n";
    let rows = parse_report_rows(csv, 1);
    assert_eq!(
        report_message(csv, 1, "a.example.com", IpFamily::V4),
        render_report(&rows, "a.example.com", IpFamily::V4)
    );
}

#[test]
fn domains_join_subdomains_to_apex() {
    let domains = build_domains("example.com", "a b", "acct");
    assert_eq!(domains, strs(&["a.example.com", "b.example.com"]));
    assert_eq!(hostnames_line(&domains), "a.example.com b.example.com");
    assert!(build_domains("example.com", "a b", "unspecified").is_empty());
}

#[test]
fn family_plans_follow_quotas() {
    let r = resolve_fixture(2, 0);
    let v4 = plan_family(&r, IpFamily::V4);
    assert!(v4.active);
    assert!(v4.download);
    assert_eq!(v4.quota, 2);
    assert_eq!(v4.record_type, "A");
    assert_eq!(v4.url, "https://lists.example/v4.txt");
    let v6 = plan_family(&r, IpFamily::V6);
    assert!(!v6.active);
    assert!(!v6.download);
    assert_eq!(v6.quota, 0);
    assert_eq!(v6.record_type, "AAAA");
    assert_eq!(plan_input_file(&r), Some("ip.txt".to_string()));
    assert_eq!(plan_result_path(&r), "res.csv");
}

#[test]
fn zero_quotas_mean_passthrough_mode() {
    assert!(force_read_mode(0, 0));
    assert!(!force_read_mode(2, 0));
    let r = resolve_fixture(0, 0);
    let v4 = plan_family(&r, IpFamily::V4);
    let v6 = plan_family(&r, IpFamily::V6);
    assert!(!v4.active && !v6.active);
    assert!(!v4.download && !v6.download);
}

#[test]
fn plugin_controller_guards_final_start() {
    let mut ctl = PluginController::new("shaper", true, false);
    assert!(ctl.should_stop());
    ctl.note_stop_result(true);
    assert!(ctl.should_restart());
    assert!(ctl.should_start_finally());

    let mut failed = PluginController::new("shaper", true, false);
    failed.note_stop_result(false);
    assert!(!failed.should_restart());
    assert!(!failed.should_start_finally());

    let noop = PluginController::new("unspecified", true, true);
    assert!(!noop.should_stop());
    assert!(!noop.should_start_finally());
    let empty = PluginController::new("", true, true);
    assert!(!empty.should_stop());
}

#[test]
fn plugin_pause_without_mutation_is_a_choice() {
    let idle = PluginController::new("shaper", false, false);
    assert!(!idle.should_stop());
    let paused = PluginController::new("shaper", false, true);
    assert!(paused.should_stop());
}

#[test]
fn push_fires_only_with_addresses_and_channels() {
    let params = PushParams {
        push_mod: "Telegram".to_string(),
        hostnames: "a.example.com".to_string(),
        v4_num: 1,
        v6_num: 0,
        family: IpFamily::V4,
        ddns_name: "main".to_string(),
        ips: strs(&["1.1.1.1"]),
        domains: strs(&["a.example.com"]),
        add_ddns: "acct".to_string(),
        csvfile: "-o res.csv".to_string(),
    };
    assert!(push_wanted(&params));
    let no_ips = PushParams { ips: strs(&[]), ..params };
    assert!(!push_wanted(&no_ips));
    let disabled = PushParams { ips: strs(&["1.1.1.1"]), push_mod: "unset".to_string(), ..no_ips };
    assert!(!push_wanted(&disabled));
}

#[test]
fn informlog_lists_one_line_per_hostname() {
    let map = vec![
        ("a.example.com".to_string(), strs(&["1.1.1.1", "1.0.0.1"])),
        ("b.example.com".to_string(), strs(&["9.9.9.9"])),
    ];
    let text = cfst_ddns::orchestrate::generate_informlog_content("acct", &map);
    assert_eq!(text, "a.example.com=1.1.1.1,1.0.0.1\nb.example.com=9.9.9.9\n");
    let merged = cfst_ddns::orchestrate::generate_informlog_content("unspecified", &map);
    assert_eq!(merged, "unspecified=1.1.1.1,1.0.0.1,9.9.9.9\n");
    let empty: Vec<(String, Vec<String>)> = Vec::new();
    assert_eq!(cfst_ddns::orchestrate::generate_informlog_content("unspecified", &empty), "");
}

#[test]
fn config_lookups_find_first_match() {
    let mut config = Config::new();
    config.account = vec![
        Account { account_name: "acct".into(), x_email: "a@example.com".into(), zone_id: "z1".into(), api_key: "k1".into() },
        Account { account_name: "other".into(), x_email: "b@example.com".into(), zone_id: "z2".into(), api_key: "k2".into() },
    ];
    config.resolve = Some(vec![resolve_fixture(2, 0)]);
    assert_eq!(config.find_account("other"), Some(1));
    assert_eq!(config.find_account("missing"), None);
    assert_eq!(config.find_resolve("main"), Some(0));
    assert_eq!(config.find_resolve("missing"), None);
    assert_eq!(Config::new().find_resolve("main"), None);
}

#[test]
fn push_config_merge_and_compact() {
    let mut newer = push_cfg("Telegram");
    newer.telegram_bot_token = Some("newtoken".to_string());
    let mut older = push_cfg("Telegram");
    older.telegram_bot_token = Some("oldtoken".to_string());
    older.telegram_user_id = Some("42".to_string());
    let merged = newer.merge_with(&older);
    assert_eq!(merged.telegram_bot_token, Some("newtoken".to_string()));
    assert_eq!(merged.telegram_user_id, Some("42".to_string()));
    assert_eq!(merged.push_name, "Telegram");
    let compacted = merged.compact();
    assert_eq!(compacted, newer.merge_with(&older));
}
