//! Collecting the replies of the app server to the three account requests,
//! and what the query yields once they are in or the time is up.
use vstd::prelude::*;
use crate::json::{JsonValue, as_i64, get, i64_of, json_get};
use crate::usage::{
    Usage, apply_token_usage, limits_from, parse_usage, reply_outcome, response_result, tokens_from,
};

verus! {

/// The request id of `account/read`.
pub const ACCOUNT_ID: i64 = 1;

/// The request id of `account/rateLimits/read`.
pub const RATE_LIMITS_ID: i64 = 2;

/// The request id of `account/usage/read`.
pub const USAGE_ID: i64 = 3;

/// The replies received so far. The account and rate-limit replies are
/// required; the usage reply is awaited but may fail.
pub struct QueryProgress {
    pub account: Option<JsonValue>,
    pub rate_limits: Option<JsonValue>,
    pub token_usage: Option<JsonValue>,
    pub token_usage_finished: bool,
}

impl QueryProgress {
    /// No reply yet.
    pub fn new() -> (r: QueryProgress)
        ensures
            r.account is None,
            r.rate_limits is None,
            r.token_usage is None,
            !r.token_usage_finished,
    {
        QueryProgress { account: None, rate_limits: None, token_usage: None, token_usage_finished: false }
    }

    /// All three replies are in; the query waits for no more messages.
    pub open spec fn complete(&self) -> bool {
        self.account is Some && self.rate_limits is Some && self.token_usage_finished
    }

    /// Whether all three replies are in.
    pub fn is_complete(&self) -> (r: bool)
        ensures
            r == self.complete(),
    {
        self.account.is_some() && self.rate_limits.is_some() && self.token_usage_finished
    }

    /// Takes in one message. A reply to the account or rate-limit request
    /// is kept, or ends the query with its error; a reply to the usage
    /// request is kept when it succeeded and marks that request finished
    /// either way; any other message is ignored.
    pub fn accept(&mut self, message: JsonValue) -> (r: Result<(), String>)
        ensures
            ({
                let id = i64_of(json_get(message, "id"@));
                if id == Some(ACCOUNT_ID) {
                    match (r, reply_outcome(message, "account/read"@)) {
                        (Ok(_), Ok(v)) => final(self).account == Some(v) && final(self).rate_limits
                            == old(self).rate_limits && final(self).token_usage == old(
                            self,
                        ).token_usage && final(self).token_usage_finished == old(
                            self,
                        ).token_usage_finished,
                        (Err(e), Err(m)) => e@ == m,
                        _ => false,
                    }
                } else if id == Some(RATE_LIMITS_ID) {
                    match (r, reply_outcome(message, "account/rateLimits/read"@)) {
                        (Ok(_), Ok(v)) => final(self).rate_limits == Some(v) && final(self).account
                            == old(self).account && final(self).token_usage == old(
                            self,
                        ).token_usage && final(self).token_usage_finished == old(
                            self,
                        ).token_usage_finished,
                        (Err(e), Err(m)) => e@ == m,
                        _ => false,
                    }
                } else if id == Some(USAGE_ID) {
                    &&& r is Ok
                    &&& final(self).token_usage == match reply_outcome(message, "account/usage/read"@) {
                        Ok(v) => Some(v),
                        Err(_) => None,
                    }
                    &&& final(self).token_usage_finished
                    &&& final(self).account == old(self).account
                    &&& final(self).rate_limits == old(self).rate_limits
                } else {
                    &&& r is Ok
                    &&& *final(self) == *old(self)
                }
            }),
    {
        let id = as_i64(get(&message, "id"));
        if id == Some(ACCOUNT_ID) {
            match response_result(message, "account/read") {
                Ok(v) => {
                    self.account = Some(v);
                    Ok(())
                },
                Err(e) => Err(e),
            }
        } else if id == Some(RATE_LIMITS_ID) {
            match response_result(message, "account/rateLimits/read") {
                Ok(v) => {
                    self.rate_limits = Some(v);
                    Ok(())
                },
                Err(e) => Err(e),
            }
        } else if id == Some(USAGE_ID) {
            self.token_usage = match response_result(message, "account/usage/read") {
                Ok(v) => Some(v),
                Err(_) => None,
            };
            self.token_usage_finished = true;
            Ok(())
        } else {
            Ok(())
        }
    }

    /// The profile's usage once the messages stop: an error when the
    /// account or rate-limit reply is missing, otherwise both read, with the
    /// token usage filled in when its reply succeeded.
    pub fn finish(self) -> (r: Result<Usage, String>)
        ensures
            self.account is None ==> (r matches Err(e) && e@ == "account query timed out"@),
            self.account is Some && self.rate_limits is None ==> (r matches Err(e) && e@
                == "rate-limit query timed out"@),
            self.account is Some && self.rate_limits is Some ==> (r matches Ok(u) && limits_from(
                u,
                self.account.unwrap(),
                self.rate_limits.unwrap(),
            ) && tokens_from(u, self.token_usage)),
    {
        let account = match self.account {
            Some(a) => a,
            None => return Err(String::from_str("account query timed out")),
        };
        let rate_limits = match self.rate_limits {
            Some(l) => l,
            None => return Err(String::from_str("rate-limit query timed out")),
        };
        let mut usage = parse_usage(&account, &rate_limits);
        if let Some(token_usage) = &self.token_usage {
            apply_token_usage(&mut usage, token_usage);
        }
        Ok(usage)
    }
}

} // verus!
