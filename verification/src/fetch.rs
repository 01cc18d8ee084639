//! Fetching a page: what to do with each answer of the server.
//!
//! The fetch itself is the caller's part. After every answer the caller asks
//! [`FetchAttempt::decide`] what to do: to read the body, to wait and ask the
//! server again, or to give up.

use crate::text::{push_chars, push_str, to_decimal, to_string, decimal};
use vstd::prelude::*;

verus! {

/// How often a page is asked for again after the server refused it.
pub const MAX_RETRIES: u32 = 3;

/// Why a fetch failed.
#[derive(Debug, Clone, Copy, PartialEq, Eq, Structural)]
pub enum FailureKind {
    /// The server kept limiting or denying access (status 429 or 403).
    Blocked,
    /// The server kept being unavailable (status 503).
    Unavailable,
    /// The server answered with another status of 400 or more.
    Status,
    /// The body could not be read as text.
    Body,
}

/// A failed fetch: the status of the last answer and the kind of failure.
#[derive(Debug, Clone, Copy, PartialEq, Eq, Structural)]
pub struct FetchFailure {
    pub status: u16,
    pub kind: FailureKind,
}

/// What the caller does with an answer of the server.
#[derive(Debug, Clone, Copy, PartialEq, Eq, Structural)]
pub enum FetchAction {
    /// Read the body: it is the page.
    ReadBody,
    /// Wait this many seconds, then ask again.
    Retry { delay_seconds: u64 },
    /// Give up.
    Fail(FetchFailure),
}

/// `base` to the power of `exponent`.
pub open spec fn power(base: nat, exponent: nat) -> nat
    decreases exponent,
{
    if exponent == 0 {
        1
    } else {
        base * power(base, (exponent - 1) as nat)
    }
}

/// Whether a server that answers with `status` limits or denies access.
pub open spec fn is_blocking(status: u16) -> bool {
    status == 429 || status == 403
}

/// What to do with an answer of `status` after `retries` retries. A status
/// below 400 is a page. On 429 and 403 the caller waits and asks again: 2
/// seconds before the first retry, then twice as long each time. On 503 it
/// waits 3 seconds before the first retry, then three times as long each
/// time. After three retries it gives up. Any other status is a failure at
/// once.
pub open spec fn action_for(status: u16, retries: u32) -> FetchAction {
    if status < 400 {
        FetchAction::ReadBody
    } else if is_blocking(status) {
        if retries >= MAX_RETRIES {
            FetchAction::Fail(FetchFailure { status, kind: FailureKind::Blocked })
        } else {
            FetchAction::Retry { delay_seconds: power(2, (retries + 1) as nat) as u64 }
        }
    } else if status == 503 {
        if retries >= MAX_RETRIES {
            FetchAction::Fail(FetchFailure { status, kind: FailureKind::Unavailable })
        } else {
            FetchAction::Retry { delay_seconds: power(3, (retries + 1) as nat) as u64 }
        }
    } else {
        FetchAction::Fail(FetchFailure { status, kind: FailureKind::Status })
    }
}

/// The retries after an answer of `status` that came after `retries` retries:
/// one more where the caller is told to ask again.
pub open spec fn retries_after(status: u16, retries: u32) -> u32 {
    if action_for(status, retries) is Retry {
        (retries + 1) as u32
    } else {
        retries
    }
}

/// One fetch of one page, with its retries.
#[derive(Debug, Clone, Copy, PartialEq, Eq, Structural)]
pub struct FetchAttempt {
    /// How often the page was asked for again.
    pub retries: u32,
}

/// The wait before the retry after `retries` retries, where the first wait is
/// `base` seconds.
fn backoff(base: u64, retries: u32) -> (seconds: u64)
    requires
        base <= 3,
        retries < MAX_RETRIES,
    ensures
        seconds == power(base as nat, (retries + 1) as nat),
        seconds <= 27,
{
    proof {
        reveal_with_fuel(power, 5);
        let b = base as nat;
        assert(power(b, 1) == b && power(b, 2) == b * b && power(b, 3) == b * b * b) by {
            assert(b == 0 || b == 1 || b == 2 || b == 3);
        }
        assert(base * base <= 9 && base * base * base <= 27) by (nonlinear_arith)
            requires
                base <= 3,
        ;
    }
    if retries == 0 {
        base
    } else if retries == 1 {
        base * base
    } else {
        base * base * base
    }
}

impl FetchAttempt {
    /// A fetch before its first answer.
    pub fn new() -> (attempt: FetchAttempt)
        ensures
            attempt.retries == 0,
    {
        FetchAttempt { retries: 0 }
    }

    /// Says what to do with an answer of `status`, and counts the retry where
    /// the caller is told to ask again.
    pub fn decide(&mut self, status: u16) -> (action: FetchAction)
        ensures
            action == action_for(status, old(self).retries),
            final(self).retries == retries_after(status, old(self).retries),
    {
        if status < 400 {
            FetchAction::ReadBody
        } else if status == 429 || status == 403 {
            if self.retries >= MAX_RETRIES {
                FetchAction::Fail(FetchFailure { status, kind: FailureKind::Blocked })
            } else {
                let delay = backoff(2, self.retries);
                self.retries = self.retries + 1;
                FetchAction::Retry { delay_seconds: delay }
            }
        } else if status == 503 {
            if self.retries >= MAX_RETRIES {
                FetchAction::Fail(FetchFailure { status, kind: FailureKind::Unavailable })
            } else {
                let delay = backoff(3, self.retries);
                self.retries = self.retries + 1;
                FetchAction::Retry { delay_seconds: delay }
            }
        } else {
            FetchAction::Fail(FetchFailure { status, kind: FailureKind::Status })
        }
    }

    /// The failure to report where the body of an answer of `status` could
    /// not be read as text. It is not tried again.
    pub fn body_failed(&self, status: u16) -> (failure: FetchFailure)
        ensures
            failure == (FetchFailure { status, kind: FailureKind::Body }),
    {
        FetchFailure { status, kind: FailureKind::Body }
    }
}

/// An answer with a status below 400 is always a page, whatever came before
/// it: no retry is counted and nothing is reported as a failure.
pub proof fn theorem_success_is_kept(status: u16, retries: u32)
    requires
        status < 400,
    ensures
        action_for(status, retries) == FetchAction::ReadBody,
        retries_after(status, retries) == retries,
{
}

/// A page is asked for again at most three times: a retry is only told
/// before the third, the wait before it is between 2 and 27 seconds, and
/// from a count within the bound the count stays within it. Only the
/// statuses 429, 403 and 503 are tried again.
pub proof fn theorem_retries_are_bounded(status: u16, retries: u32)
    ensures
        action_for(status, retries) is Retry ==> retries < MAX_RETRIES && (is_blocking(status)
            || status == 503),
        action_for(status, retries) matches FetchAction::Retry { delay_seconds } ==> 2
            <= delay_seconds <= 27,
        retries <= MAX_RETRIES ==> retries_after(status, retries) <= MAX_RETRIES,
{
    reveal_with_fuel(power, 5);
}

impl FetchFailure {
    /// The status with which a failed fetch is answered to the one who asked
    /// for the page: 404 where the page was not found, 403 where access was
    /// denied or blocked, 503 where the server was unavailable, and 500
    /// otherwise.
    pub open spec fn response_status(self) -> u16 {
        match self.kind {
            FailureKind::Blocked => 403,
            FailureKind::Unavailable => 503,
            FailureKind::Status => if self.status == 404 {
                404
            } else if self.status == 403 {
                403
            } else if self.status == 503 {
                503
            } else {
                500
            },
            FailureKind::Body => 500,
        }
    }

    /// The status with which the failure is answered.
    pub fn status_code(&self) -> (code: u16)
        ensures
            code == self.response_status(),
    {
        match self.kind {
            FailureKind::Blocked => 403,
            FailureKind::Unavailable => 503,
            FailureKind::Status => if self.status == 404 {
                404
            } else if self.status == 403 {
                403
            } else if self.status == 503 {
                503
            } else {
                500
            },
            FailureKind::Body => 500,
        }
    }

    /// What the failure says of the page at `url`.
    pub open spec fn message_text(self, url: Seq<char>) -> Seq<char> {
        match self.kind {
            FailureKind::Blocked => "Rate limit or access denied after 3 retries for URL "@ + url,
            FailureKind::Unavailable => "Service unavailable (503) after 3 retries for URL "@
                + url,
            FailureKind::Status => "HTTP error "@ + decimal(self.status as nat) + " for URL "@
                + url,
            FailureKind::Body => "Text extraction failed for "@ + url,
        }
    }

    /// What the failure says of the page at `url`.
    pub fn message(&self, url: &str) -> (text: String)
        ensures
            text@ == self.message_text(url@),
    {
        let mut buf: Vec<char> = Vec::new();
        match self.kind {
            FailureKind::Blocked => {
                push_str(&mut buf, "Rate limit or access denied after 3 retries for URL ");
                push_str(&mut buf, url);
            },
            FailureKind::Unavailable => {
                push_str(&mut buf, "Service unavailable (503) after 3 retries for URL ");
                push_str(&mut buf, url);
            },
            FailureKind::Status => {
                push_str(&mut buf, "HTTP error ");
                let digits = to_decimal(self.status as u64);
                push_chars(&mut buf, &digits);
                push_str(&mut buf, " for URL ");
                push_str(&mut buf, url);
            },
            FailureKind::Body => {
                push_str(&mut buf, "Text extraction failed for ");
                push_str(&mut buf, url);
            },
        }
        to_string(&buf)
    }
}

} // verus!
