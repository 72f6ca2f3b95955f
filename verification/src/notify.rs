//! The notification dispatcher's decisions: which channels a configuration
//! enables, whether a push fires at all, the exact request each channel
//! sender needs, and the reading of each channel's reply.
//!
//! Sending is the surrounding process's work; per-channel failures are
//! isolated there, as each channel's request is built independently.

use vstd::prelude::*;
use crate::jsonio::{
    doc_flag_of, doc_int_of, doc_string_of, json_as_bool, json_as_i64, json_as_string, json_get,
    json_parse, json_quote, json_string_of,
};
use crate::text::{str_eq, tokens_of};

verus! {

/// The closed set of push channel kinds.
#[derive(Clone, Copy, Debug, PartialEq, Eq, Structural)]
pub enum PushChannel {
    Telegram,
    PushPlus,
    ServerChan,
    PushDeer,
    WechatWork,
    SynologyChat,
    Github,
}

/// The configured name of each channel kind.
pub open spec fn channel_named(name: Seq<char>) -> Option<PushChannel> {
    if name == "Telegram"@ {
        Some(PushChannel::Telegram)
    } else if name == "PushPlus"@ {
        Some(PushChannel::PushPlus)
    } else if name == "ServerChan"@ {
        Some(PushChannel::ServerChan)
    } else if name == "PushDeer"@ {
        Some(PushChannel::PushDeer)
    } else if name == "WechatWork"@ {
        Some(PushChannel::WechatWork)
    } else if name == "SynologyChat"@ {
        Some(PushChannel::SynologyChat)
    } else if name == "Github"@ {
        Some(PushChannel::Github)
    } else {
        None
    }
}

/// Resolve one configured channel name; an unknown name yields nothing and
/// is reported, not fatal.
pub fn parse_channel(name: &str) -> (r: Option<PushChannel>)
    ensures
        r == channel_named(name@),
{
    if str_eq(name, "Telegram") {
        Some(PushChannel::Telegram)
    } else if str_eq(name, "PushPlus") {
        Some(PushChannel::PushPlus)
    } else if str_eq(name, "ServerChan") {
        Some(PushChannel::ServerChan)
    } else if str_eq(name, "PushDeer") {
        Some(PushChannel::PushDeer)
    } else if str_eq(name, "WechatWork") {
        Some(PushChannel::WechatWork)
    } else if str_eq(name, "SynologyChat") {
        Some(PushChannel::SynologyChat)
    } else if str_eq(name, "Github") {
        Some(PushChannel::Github)
    } else {
        None
    }
}

/// Whether the push step runs at all for a configured channel list: the
/// list must be non-empty and not the disabled sentinel.
pub fn push_configured(push_mod: &str) -> (r: bool)
    ensures
        r == (push_mod@.len() > 0 && push_mod@ != "unset"@),
{
    !push_mod.is_empty() && !str_eq(push_mod, "unset")
}

/// Whether any entry of the configured channel list is not the disabled
/// sentinel, so a push is attempted.
pub fn any_channel_enabled(push_mod: &str) -> (r: bool)
    ensures
        r == (exists|i: int|
            0 <= i < tokens_of(push_mod@).len() && tokens_of(push_mod@)[i] != "unset"@),
{
    let toks = crate::text::tokens(push_mod);
    let mut i: usize = 0;
    while i < toks.len()
        invariant
            toks.deep_view() == tokens_of(push_mod@),
            0 <= i <= toks@.len(),
            forall|j: int| 0 <= j < i ==> tokens_of(push_mod@)[j] == "unset"@,
        decreases toks@.len() - i,
    {
        if !str_eq(toks[i].as_str(), "unset") {
            assert(tokens_of(push_mod@)[i as int] != "unset"@);
            return true;
        }
        i += 1;
    }
    false
}

/// The send endpoint of a messaging bot.
pub fn telegram_api_url(token: &str) -> (r: String)
    ensures
        r@ == "https://api.telegram.org/bot"@ + token@ + "/sendMessage"@,
{
    let mut out = String::new();
    out.append("https://api.telegram.org/bot");
    out.append(token);
    out.append("/sendMessage");
    proof {
        assert(out@ =~= "https://api.telegram.org/bot"@ + token@ + "/sendMessage"@);
    }
    out
}

/// The bot message payload: recipient, HTML parse mode, and the text.
pub fn telegram_payload(user_id: &str, message: &str) -> (r: String)
    ensures
        r@ == "{\"chat_id\":"@ + json_string_of(user_id@)
            + ",\"parse_mode\":\"HTML\",\"text\":"@ + json_string_of(message@) + "}"@,
{
    let u = json_quote(user_id);
    let m = json_quote(message);
    let mut out = String::new();
    out.append("{\"chat_id\":");
    out.append(u.as_str());
    out.append(",\"parse_mode\":\"HTML\",\"text\":");
    out.append(m.as_str());
    out.append("}");
    proof {
        assert(out@ =~= "{\"chat_id\":"@ + json_string_of(user_id@)
            + ",\"parse_mode\":\"HTML\",\"text\":"@ + json_string_of(message@) + "}"@);
    }
    out
}

/// The token-service payload: credential, fixed title, the text, and the
/// HTML template.
pub fn pushplus_payload(token: &str, message: &str) -> (r: String)
    ensures
        r@ == "{\"token\":"@ + json_string_of(token@)
            + ",\"title\":\"Preferred address update\",\"content\":"@ + json_string_of(message@)
            + ",\"template\":\"html\"}"@,
{
    let t = json_quote(token);
    let m = json_quote(message);
    let mut out = String::new();
    out.append("{\"token\":");
    out.append(t.as_str());
    out.append(",\"title\":\"Preferred address update\",\"content\":");
    out.append(m.as_str());
    out.append(",\"template\":\"html\"}");
    proof {
        assert(out@ =~= "{\"token\":"@ + json_string_of(token@)
            + ",\"title\":\"Preferred address update\",\"content\":"@ + json_string_of(
            message@,
        ) + ",\"template\":\"html\"}"@);
    }
    out
}

/// The percent-encoding urlencoding produces for a text.
pub uninterp spec fn url_encoded_of(s: Seq<char>) -> Seq<char>;

/// Relies on `urlencoding::encode`: percent-encodes every byte except
/// ASCII alphanumerics and `-`, `_`, `.`, `~`; the result depends on the
/// characters alone.
#[verifier::external_body]
pub fn url_encode(s: &str) -> (r: String)
    ensures
        r@ == url_encoded_of(s@),
{
    urlencoding::encode(s).into_owned()
}

/// The form body for the key-addressed channels: a fixed title and the
/// percent-encoded text.
pub fn keyed_form_body(message: &str) -> (r: String)
    ensures
        r@ == "title=Preferred address update&desp="@ + url_encoded_of(message@),
{
    let mut out = String::new();
    out.append("title=Preferred address update&desp=");
    let enc = url_encode(message);
    out.append(enc.as_str());
    proof {
        assert(out@ =~= "title=Preferred address update&desp="@ + url_encoded_of(message@));
    }
    out
}

/// The key-addressed send endpoint of the first key-based channel.
pub fn server_chan_url(sendkey: &str) -> (r: String)
    ensures
        r@ == "https://sctapi.ftqq.com/"@ + sendkey@ + ".send"@,
{
    let mut out = String::new();
    out.append("https://sctapi.ftqq.com/");
    out.append(sendkey);
    out.append(".send");
    proof {
        assert(out@ =~= "https://sctapi.ftqq.com/"@ + sendkey@ + ".send"@);
    }
    out
}

/// The key-addressed send endpoint of the second key-based channel.
pub fn pushdeer_url(pushkey: &str) -> (r: String)
    ensures
        r@ == "https://api2.pushdeer.com/message/push?pushkey="@ + pushkey@,
{
    let mut out = String::new();
    out.append("https://api2.pushdeer.com/message/push?pushkey=");
    out.append(pushkey);
    proof {
        assert(out@ =~= "https://api2.pushdeer.com/message/push?pushkey="@ + pushkey@);
    }
    out
}

/// The form body of the second key-based channel: a fixed label and the
/// percent-encoded text.
pub fn pushdeer_form_body(message: &str) -> (r: String)
    ensures
        r@ == "text=Preferred address update&desp="@ + url_encoded_of(message@),
{
    let mut out = String::new();
    out.append("text=Preferred address update&desp=");
    let enc = url_encode(message);
    out.append(enc.as_str());
    proof {
        assert(out@ =~= "text=Preferred address update&desp="@ + url_encoded_of(message@));
    }
    out
}

/// The token endpoint of the enterprise messaging channel.
pub fn wechat_token_url(corpid: &str, secret: &str) -> (r: String)
    ensures
        r@ == "https://qyapi.weixin.qq.com/cgi-bin/gettoken?corpid="@ + corpid@ + "&corpsecret="@
            + secret@,
{
    let mut out = String::new();
    out.append("https://qyapi.weixin.qq.com/cgi-bin/gettoken?corpid=");
    out.append(corpid);
    out.append("&corpsecret=");
    out.append(secret);
    proof {
        assert(out@ =~= "https://qyapi.weixin.qq.com/cgi-bin/gettoken?corpid="@ + corpid@
            + "&corpsecret="@ + secret@);
    }
    out
}

/// The send endpoint of the enterprise messaging channel, addressed by a
/// freshly obtained access token.
pub fn wechat_send_url(access_token: &str) -> (r: String)
    ensures
        r@ == "https://qyapi.weixin.qq.com/cgi-bin/message/send?access_token="@ + access_token@,
{
    let mut out = String::new();
    out.append("https://qyapi.weixin.qq.com/cgi-bin/message/send?access_token=");
    out.append(access_token);
    proof {
        assert(out@ =~= "https://qyapi.weixin.qq.com/cgi-bin/message/send?access_token="@
            + access_token@);
    }
    out
}

/// The enterprise message payload: recipient, text kind, agent, and text.
pub fn wechat_send_payload(userid: &str, agentid: &str, message: &str) -> (r: String)
    ensures
        r@ == "{\"touser\":"@ + json_string_of(userid@)
            + ",\"msgtype\":\"text\",\"agentid\":"@ + json_string_of(agentid@)
            + ",\"text\":{\"content\":"@ + json_string_of(message@) + "}}"@,
{
    let u = json_quote(userid);
    let a = json_quote(agentid);
    let m = json_quote(message);
    let mut out = String::new();
    out.append("{\"touser\":");
    out.append(u.as_str());
    out.append(",\"msgtype\":\"text\",\"agentid\":");
    out.append(a.as_str());
    out.append(",\"text\":{\"content\":");
    out.append(m.as_str());
    out.append("}}");
    proof {
        assert(out@ =~= "{\"touser\":"@ + json_string_of(userid@)
            + ",\"msgtype\":\"text\",\"agentid\":"@ + json_string_of(agentid@)
            + ",\"text\":{\"content\":"@ + json_string_of(message@) + "}}"@);
    }
    out
}

/// The chat-webhook payload: the text alone.
pub fn synology_payload(message: &str) -> (r: String)
    ensures
        r@ == "{\"text\":"@ + json_string_of(message@) + "}"@,
{
    let m = json_quote(message);
    let mut out = String::new();
    out.append("{\"text\":");
    out.append(m.as_str());
    out.append("}");
    proof {
        assert(out@ =~= "{\"text\":"@ + json_string_of(message@) + "}"@);
    }
    out
}

/// Whether a bot reply reports success: its `ok` member is true.
pub fn telegram_reply_ok(body: &str) -> (r: bool)
    ensures
        r == doc_flag_of(body@, "ok"@),
{
    match json_parse(body) {
        None => false,
        Some(v) => match json_get(&v, "ok") {
            Some(f) => match json_as_bool(f) {
                Some(b) => b,
                None => false,
            },
            None => false,
        },
    }
}

/// Whether a reply with a numeric `code` member reports the given success
/// code.
pub fn coded_reply_ok(body: &str, ok_code: i64) -> (r: bool)
    ensures
        r == (doc_int_of(body@, "code"@) == Some(ok_code as int)),
{
    match json_parse(body) {
        None => false,
        Some(v) => match json_get(&v, "code") {
            Some(f) => match json_as_i64(f) {
                Some(c) => c == ok_code,
                None => false,
            },
            None => false,
        },
    }
}

/// Whether a reply with a boolean `success` member reports success.
pub fn success_reply_ok(body: &str) -> (r: bool)
    ensures
        r == doc_flag_of(body@, "success"@),
{
    match json_parse(body) {
        None => false,
        Some(v) => match json_get(&v, "success") {
            Some(f) => match json_as_bool(f) {
                Some(b) => b,
                None => false,
            },
            None => false,
        },
    }
}

/// The enterprise error code for a wrongly configured recipient.
pub const WECHAT_BAD_USER_CODE: i64 = 81013;

/// The enterprise error code for a sender host missing from the
/// application's allow list.
pub const WECHAT_HOST_BLOCKED_CODE: i64 = 60020;

/// How the enterprise messaging API answered one send.
#[derive(Clone, Copy, Debug, PartialEq, Eq, Structural)]
pub enum WechatSendOutcome {
    /// The message was delivered.
    Delivered,
    /// The configured recipient identifier is wrong.
    BadUserId,
    /// The sending host is not on the application's allow list.
    HostNotAllowed,
    /// Any other failure; its message is reported as it came.
    Other,
}

/// Classify the error code of an enterprise send reply.
pub fn classify_wechat_send(errcode: i64) -> (r: WechatSendOutcome)
    ensures
        r == WechatSendOutcome::Delivered <==> errcode == 0,
        r == WechatSendOutcome::BadUserId <==> errcode == WECHAT_BAD_USER_CODE,
        r == WechatSendOutcome::HostNotAllowed <==> errcode == WECHAT_HOST_BLOCKED_CODE,
        r == WechatSendOutcome::Other <==> (errcode != 0 && errcode != WECHAT_BAD_USER_CODE
            && errcode != WECHAT_HOST_BLOCKED_CODE),
{
    if errcode == 0 {
        WechatSendOutcome::Delivered
    } else if errcode == WECHAT_BAD_USER_CODE {
        WechatSendOutcome::BadUserId
    } else if errcode == WECHAT_HOST_BLOCKED_CODE {
        WechatSendOutcome::HostNotAllowed
    } else {
        WechatSendOutcome::Other
    }
}

/// The `errcode` member of an enterprise reply; a missing or non-numeric
/// member reads as an unspecific failure code.
pub fn wechat_reply_code(body: &str) -> (r: i64)
    ensures
        r as int == (match doc_int_of(body@, "errcode"@) {
            Some(n) => n,
            None => -1,
        }),
{
    match json_parse(body) {
        None => -1,
        Some(v) => match json_get(&v, "errcode") {
            Some(f) => match json_as_i64(f) {
                Some(c) => c,
                None => -1,
            },
            None => -1,
        },
    }
}

/// The `errmsg` member of an enterprise reply, when it carries one.
pub fn wechat_reply_error(body: &str) -> (r: Option<String>)
    ensures
        r.deep_view() == doc_string_of(body@, "errmsg"@),
{
    match json_parse(body) {
        None => None,
        Some(v) => match json_get(&v, "errmsg") {
            Some(f) => json_as_string(f),
            None => None,
        },
    }
}

/// The access token of an enterprise token reply whose `errcode` is zero.
pub fn wechat_reply_token(body: &str) -> (r: Option<String>)
    ensures
        r.deep_view() == (if doc_int_of(body@, "errcode"@) == Some(0int) {
            doc_string_of(body@, "access_token"@)
        } else {
            None
        }),
{
    match json_parse(body) {
        None => None,
        Some(v) => {
            let code = match json_get(&v, "errcode") {
                Some(f) => match json_as_i64(f) {
                    Some(c) => c,
                    None => -1,
                },
                None => -1,
            };
            if code != 0 {
                return None;
            }
            match json_get(&v, "access_token") {
                Some(f) => json_as_string(f),
                None => None,
            }
        },
    }
}

} // verus!
