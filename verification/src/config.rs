//! The configuration records the core consumes: provider credentials,
//! resolve groups, the traffic-shaping plugin, and push-channel settings.
//!
//! These values are immutable inputs for the duration of one run.  Loading
//! and saving them is the surrounding process's business; the library only
//! reads them.

use vstd::prelude::*;
use crate::text::str_eq;

verus! {

/// The sentinel account reference meaning "perform no DNS mutation".
pub open spec fn is_unspecified(s: Seq<char>) -> bool {
    s == "unspecified"@
}

/// Whether an account reference names a real account.
pub fn names_account(s: &str) -> (r: bool)
    ensures
        r == !is_unspecified(s@),
{
    !str_eq(s, "unspecified")
}

/// Credentials for one provider zone.
#[derive(Debug, PartialEq, Eq)]
pub struct Account {
    pub account_name: String,
    pub x_email: String,
    pub zone_id: String,
    pub api_key: String,
}

/// One named unit of work: hostnames, per-family quotas, prober arguments,
/// optional candidate-list URLs, and the enabled push channels.
#[derive(Debug, PartialEq, Eq)]
pub struct Resolve {
    pub add_ddns: String,
    pub ddns_name: String,
    pub hostname1: String,
    pub hostname2: String,
    pub v4_num: u32,
    pub v6_num: u32,
    pub cf_command: String,
    pub v4_url: String,
    pub v6_url: String,
    pub push_mod: String,
}

/// The local traffic-shaping service to pause around record mutation.
/// Whether it is paused even for a run that mutates no records is an
/// explicit configuration choice, not a fixed policy.
#[derive(Debug, PartialEq, Eq)]
pub struct Plugin {
    pub clien: String,
    pub pause_without_mutation: bool,
}

/// Credentials for one push channel; unused fields stay `None`.
#[derive(Debug, PartialEq, Eq)]
pub struct PushConfig {
    pub push_name: String,
    pub telegram_bot_token: Option<String>,
    pub telegram_user_id: Option<String>,
    pub pushplus_token: Option<String>,
    pub server_sendkey: Option<String>,
    pub pushdeer_pushkey: Option<String>,
    pub wechat_corpid: Option<String>,
    pub wechat_secret: Option<String>,
    pub wechat_agentid: Option<String>,
    pub wechat_userid: Option<String>,
    pub synology_chat_url: Option<String>,
}

/// One repository list-publisher configuration.
#[derive(Debug, PartialEq, Eq)]
pub struct GithubPushConfig {
    pub ddns_push: String,
    pub file_url: String,
    pub port: String,
    pub remark: String,
    pub remark6: String,
}

/// The whole persisted configuration.
#[derive(Debug, PartialEq, Eq)]
pub struct Config {
    pub account: Vec<Account>,
    pub resolve: Option<Vec<Resolve>>,
    pub plugin: Option<Plugin>,
    pub push: Option<Vec<PushConfig>>,
    pub github_push: Option<Vec<GithubPushConfig>>,
}

/// The left value when present, otherwise the right one.
fn or_clone(a: &Option<String>, b: &Option<String>) -> (r: Option<String>)
    ensures
        a is Some ==> r == *a,
        a is None ==> r == *b,
{
    match a {
        Some(v) => Some(v.clone()),
        None => match b {
            Some(w) => Some(w.clone()),
            None => None,
        },
    }
}

impl PushConfig {
    /// A copy of `self` where every field left empty is filled from `other`.
    /// The channel name is always taken from `self`.
    pub fn merge_with(&self, other: &Self) -> (r: Self)
        ensures
            r.push_name == self.push_name,
            r.telegram_bot_token == (if self.telegram_bot_token is Some {
                self.telegram_bot_token
            } else {
                other.telegram_bot_token
            }),
            r.telegram_user_id == (if self.telegram_user_id is Some {
                self.telegram_user_id
            } else {
                other.telegram_user_id
            }),
            r.pushplus_token == (if self.pushplus_token is Some {
                self.pushplus_token
            } else {
                other.pushplus_token
            }),
            r.server_sendkey == (if self.server_sendkey is Some {
                self.server_sendkey
            } else {
                other.server_sendkey
            }),
            r.pushdeer_pushkey == (if self.pushdeer_pushkey is Some {
                self.pushdeer_pushkey
            } else {
                other.pushdeer_pushkey
            }),
            r.wechat_corpid == (if self.wechat_corpid is Some {
                self.wechat_corpid
            } else {
                other.wechat_corpid
            }),
            r.wechat_secret == (if self.wechat_secret is Some {
                self.wechat_secret
            } else {
                other.wechat_secret
            }),
            r.wechat_agentid == (if self.wechat_agentid is Some {
                self.wechat_agentid
            } else {
                other.wechat_agentid
            }),
            r.wechat_userid == (if self.wechat_userid is Some {
                self.wechat_userid
            } else {
                other.wechat_userid
            }),
            r.synology_chat_url == (if self.synology_chat_url is Some {
                self.synology_chat_url
            } else {
                other.synology_chat_url
            }),
    {
        PushConfig {
            push_name: self.push_name.clone(),
            telegram_bot_token: or_clone(&self.telegram_bot_token, &other.telegram_bot_token),
            telegram_user_id: or_clone(&self.telegram_user_id, &other.telegram_user_id),
            pushplus_token: or_clone(&self.pushplus_token, &other.pushplus_token),
            server_sendkey: or_clone(&self.server_sendkey, &other.server_sendkey),
            pushdeer_pushkey: or_clone(&self.pushdeer_pushkey, &other.pushdeer_pushkey),
            wechat_corpid: or_clone(&self.wechat_corpid, &other.wechat_corpid),
            wechat_secret: or_clone(&self.wechat_secret, &other.wechat_secret),
            wechat_agentid: or_clone(&self.wechat_agentid, &other.wechat_agentid),
            wechat_userid: or_clone(&self.wechat_userid, &other.wechat_userid),
            synology_chat_url: or_clone(&self.synology_chat_url, &other.synology_chat_url),
        }
    }

    /// A fresh copy holding the channel name and exactly the fields that are
    /// set in `self`.
    pub fn compact(&self) -> (r: Self)
        ensures
            r == *self,
    {
        PushConfig {
            push_name: self.push_name.clone(),
            telegram_bot_token: or_clone(&self.telegram_bot_token, &None),
            telegram_user_id: or_clone(&self.telegram_user_id, &None),
            pushplus_token: or_clone(&self.pushplus_token, &None),
            server_sendkey: or_clone(&self.server_sendkey, &None),
            pushdeer_pushkey: or_clone(&self.pushdeer_pushkey, &None),
            wechat_corpid: or_clone(&self.wechat_corpid, &None),
            wechat_secret: or_clone(&self.wechat_secret, &None),
            wechat_agentid: or_clone(&self.wechat_agentid, &None),
            wechat_userid: or_clone(&self.wechat_userid, &None),
            synology_chat_url: or_clone(&self.synology_chat_url, &None),
        }
    }
}

impl Config {
    /// An empty configuration.
    pub fn new() -> (r: Self)
        ensures
            r.account@.len() == 0,
            r.resolve is None,
            r.plugin is None,
            r.push is None,
            r.github_push is None,
    {
        Config {
            account: Vec::new(),
            resolve: None,
            plugin: None,
            push: None,
            github_push: None,
        }
    }

    /// The position of the first account with the given name.
    pub fn find_account(&self, name: &str) -> (r: Option<usize>)
        ensures
            match r {
                Some(i) => i < self.account@.len() && self.account@[i as int].account_name@
                    == name@ && forall|j: int|
                    0 <= j < i ==> self.account@[j].account_name@ != name@,
                None => forall|j: int|
                    0 <= j < self.account@.len() ==> self.account@[j].account_name@ != name@,
            },
    {
        let mut i: usize = 0;
        while i < self.account.len()
            invariant
                0 <= i <= self.account@.len(),
                forall|j: int| 0 <= j < i ==> self.account@[j].account_name@ != name@,
            decreases self.account@.len() - i,
        {
            if str_eq(self.account[i].account_name.as_str(), name) {
                return Some(i);
            }
            i += 1;
        }
        None
    }

    /// The position of the first resolve group with the given name.
    pub fn find_resolve(&self, ddns_name: &str) -> (r: Option<usize>)
        ensures
            match r {
                Some(i) => self.resolve is Some && i < self.resolve->0@.len()
                    && self.resolve->0@[i as int].ddns_name@ == ddns_name@ && forall|j: int|
                    0 <= j < i ==> self.resolve->0@[j].ddns_name@ != ddns_name@,
                None => self.resolve is Some ==> forall|j: int|
                    0 <= j < self.resolve->0@.len() ==> self.resolve->0@[j].ddns_name@
                        != ddns_name@,
            },
    {
        match &self.resolve {
            None => None,
            Some(groups) => {
                let mut i: usize = 0;
                while i < groups.len()
                    invariant
                        self.resolve is Some,
                        groups@ == self.resolve->0@,
                        0 <= i <= groups@.len(),
                        forall|j: int| 0 <= j < i ==> groups@[j].ddns_name@ != ddns_name@,
                    decreases groups@.len() - i,
                {
                    if str_eq(groups[i].ddns_name.as_str(), ddns_name) {
                        return Some(i);
                    }
                    i += 1;
                }
                None
            },
        }
    }
}

} // verus!
