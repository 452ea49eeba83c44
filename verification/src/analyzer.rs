//! Response classification: soft-404 suppression, vulnerability
//! indicators, and the deterministic risk score.

use vstd::prelude::*;
use crate::probe::ScanResult;
use crate::text::contains_seq;
use crate::text::str_contains;
use crate::text::views_of;

verus! {

/// A status code worth reporting: success, redirect, auth-related denial,
/// or server error. Transport failures (status 0), 404 and the remaining
/// 4xx codes are not.
pub open spec fn interesting_status(status: u16) -> bool {
    (200 <= status && status <= 299) || (300 <= status && status <= 399) || status == 401
        || status == 403 || (500 <= status && status <= 599)
}

/// The URL points at what looks like a leftover backup copy.
pub open spec fn has_backup_marker(url: Seq<char>) -> bool {
    contains_seq(url, ".bak"@) || contains_seq(url, ".backup"@) || contains_seq(url, ".old"@)
        || contains_seq(url, "~"@)
}

/// The URL points at what looks like an administrative interface.
pub open spec fn has_admin_marker(url: Seq<char>) -> bool {
    contains_seq(url, "admin"@) || contains_seq(url, "login"@)
}

/// The URL points at what looks like a configuration file.
pub open spec fn has_config_marker(url: Seq<char>) -> bool {
    contains_seq(url, "config"@) || contains_seq(url, ".env"@)
}

/// The backup markers that raise the risk score (narrower than the
/// indicator: `.old` and `~` flag a backup but do not raise the score).
pub open spec fn has_backup_score_marker(url: Seq<char>) -> bool {
    contains_seq(url, ".bak"@) || contains_seq(url, ".backup"@)
}

/// A result is interesting iff its body hash matches no baseline
/// fingerprint (soft-404 suppression takes precedence) and its status is
/// one of the noteworthy codes.
pub open spec fn spec_is_interesting(baseline: Seq<Seq<char>>, r: ScanResult) -> bool {
    !baseline.contains(r.content_hash@) && interesting_status(r.status_code)
}

/// The status-derived indicator, first in the indicator list.
pub open spec fn status_indicator(status: u16) -> Seq<Seq<char>> {
    if status == 401 {
        seq!["Authentication Required"@]
    } else if status == 403 {
        seq!["Access Forbidden"@]
    } else if 500 <= status && status <= 599 {
        seq!["Server Error"@]
    } else {
        Seq::empty()
    }
}

pub open spec fn backup_indicator(url: Seq<char>) -> Seq<Seq<char>> {
    if has_backup_marker(url) {
        seq!["Backup File"@]
    } else {
        Seq::empty()
    }
}

pub open spec fn admin_indicator(url: Seq<char>) -> Seq<Seq<char>> {
    if has_admin_marker(url) {
        seq!["Admin Interface"@]
    } else {
        Seq::empty()
    }
}

pub open spec fn config_indicator(url: Seq<char>) -> Seq<Seq<char>> {
    if has_config_marker(url) {
        seq!["Configuration File"@]
    } else {
        Seq::empty()
    }
}

/// The indicator list, in its stable order: status tag, then backup,
/// admin, and configuration tags.
pub open spec fn spec_indicators(r: ScanResult) -> Seq<Seq<char>> {
    status_indicator(r.status_code) + backup_indicator(r.url@) + admin_indicator(r.url@)
        + config_indicator(r.url@)
}

/// The base risk value by status code. Redirects (3xx) take the default 1
/// even though they are interesting: the base table has no entry for them.
pub open spec fn base_score(status: u16) -> int {
    if 200 <= status && status <= 299 {
        5
    } else if status == 401 {
        8
    } else if status == 403 {
        7
    } else if 500 <= status && status <= 599 {
        6
    } else {
        1
    }
}

/// The risk score: base value plus URL-substring bonuses, clamped to 10.
pub open spec fn spec_risk_score(r: ScanResult) -> int {
    let raw = base_score(r.status_code) + (if has_admin_marker(r.url@) {
        3int
    } else {
        0int
    }) + (if has_config_marker(r.url@) {
        4int
    } else {
        0int
    }) + (if has_backup_score_marker(r.url@) {
        2int
    } else {
        0int
    });
    if raw > 10 {
        10
    } else {
        raw
    }
}

/// The analyzer: the calibrated soft-404 baseline plus an advisory
/// average latency, consulted read-only while results are scored.
pub struct ResponseAnalyzer {
    hashes_404: Vec<String>,
    avg_response_time: u128,
}

impl ResponseAnalyzer {
    /// The calibrated soft-404 body fingerprints.
    pub closed spec fn baseline(&self) -> Seq<Seq<char>> {
        views_of(self.hashes_404@)
    }

    /// The advisory average calibration latency in milliseconds.
    pub closed spec fn avg_time(&self) -> u128 {
        self.avg_response_time
    }

    pub fn new() -> (a: ResponseAnalyzer)
        ensures
            a.baseline() == Seq::<Seq<char>>::empty(),
            a.avg_time() == 0,
    {
        let a = ResponseAnalyzer { hashes_404: Vec::new(), avg_response_time: 0 };
        proof {
            assert(a.baseline() =~= Seq::<Seq<char>>::empty());
        }
        a
    }

    /// Record one calibration fingerprint.
    pub fn store_404_hashes(&mut self, hash: String)
        ensures
            final (self).baseline() == old(self).baseline().push(hash@),
            final (self).avg_time() == old(self).avg_time(),
    {
        let ghost h0 = self.hashes_404@;
        let ghost hv = hash@;
        self.hashes_404.push(hash);
        proof {
            assert(self.baseline() =~= views_of(h0).push(hv));
        }
    }

    /// Record the advisory average calibration latency.
    pub fn set_avg_response_time(&mut self, time: u128)
        ensures
            final (self).avg_time() == time,
            final (self).baseline() == old(self).baseline(),
    {
        self.avg_response_time = time;
    }

    /// Read back the advisory average calibration latency.
    pub fn get_avg_response_time(&self) -> (t: u128)
        ensures
            t == self.avg_time(),
    {
        self.avg_response_time
    }

    /// Classify a result, suppressing soft-404 matches first.
    pub fn is_interesting(&self, result: &ScanResult) -> (b: bool)
        ensures
            b == spec_is_interesting(self.baseline(), *result),
    {
        let n = self.hashes_404.len();
        let mut i: usize = 0;
        while i < n
            invariant
                n == self.hashes_404@.len(),
                i <= n,
                forall|k: int| 0 <= k < i ==> self.hashes_404@[k]@ != result.content_hash@,
            decreases n - i,
        {
            if self.hashes_404[i] == result.content_hash {
                proof {
                    assert(self.baseline()[i as int] == result.content_hash@);
                }
                return false;
            }
            i += 1;
        }
        proof {
            assert(!self.baseline().contains(result.content_hash@)) by {
                if self.baseline().contains(result.content_hash@) {
                    let j = choose|j: int|
                        0 <= j < self.baseline().len() && self.baseline()[j]
                            == result.content_hash@;
                    assert(self.hashes_404@[j]@ == result.content_hash@);
                }
            }
        }
        let status = result.status_code;
        (200 <= status && status <= 299) || (300 <= status && status <= 399) || status == 401
            || status == 403 || (500 <= status && status <= 599)
    }

    /// Derive the indicator tags, in their stable order.
    pub fn get_vuln_indicators(&self, result: &ScanResult) -> (indicators: Vec<String>)
        ensures
            views_of(indicators@) == spec_indicators(*result),
    {
        let mut indicators: Vec<String> = Vec::new();
        let status = result.status_code;
        if status == 401 {
            indicators.push(String::from_str("Authentication Required"));
        } else if status == 403 {
            indicators.push(String::from_str("Access Forbidden"));
        } else if 500 <= status && status <= 599 {
            indicators.push(String::from_str("Server Error"));
        }
        proof {
            assert(views_of(indicators@) =~= status_indicator(status));
        }
        let url = result.url.as_str();
        if str_contains(url, ".bak") || str_contains(url, ".backup") || str_contains(url, ".old")
            || str_contains(url, "~") {
            indicators.push(String::from_str("Backup File"));
        }
        proof {
            assert(views_of(indicators@) =~= status_indicator(status) + backup_indicator(
                result.url@,
            ));
        }
        if str_contains(url, "admin") || str_contains(url, "login") {
            indicators.push(String::from_str("Admin Interface"));
        }
        proof {
            assert(views_of(indicators@) =~= status_indicator(status) + backup_indicator(
                result.url@,
            ) + admin_indicator(result.url@));
        }
        if str_contains(url, "config") || str_contains(url, ".env") {
            indicators.push(String::from_str("Configuration File"));
        }
        proof {
            assert(views_of(indicators@) =~= spec_indicators(*result));
        }
        indicators
    }

    /// Compute the 0..=10 risk score.
    pub fn get_risk_score(&self, result: &ScanResult) -> (score: u8)
        ensures
            score as int == spec_risk_score(*result),
    {
        let status = result.status_code;
        let mut score: u8 = if 200 <= status && status <= 299 {
            5
        } else if status == 401 {
            8
        } else if status == 403 {
            7
        } else if 500 <= status && status <= 599 {
            6
        } else {
            1
        };
        let url = result.url.as_str();
        if str_contains(url, "admin") || str_contains(url, "login") {
            score += 3;
        }
        if str_contains(url, "config") || str_contains(url, ".env") {
            score += 4;
        }
        if str_contains(url, ".bak") || str_contains(url, ".backup") {
            score += 2;
        }
        if score > 10 {
            10
        } else {
            score
        }
    }
}

/// Law: soft-404 suppression. A result whose body hash appears in the
/// baseline is never interesting, whatever its status code.
pub proof fn lemma_soft_404_suppressed(baseline: Seq<Seq<char>>, r: ScanResult)
    requires
        baseline.contains(r.content_hash@),
    ensures
        !spec_is_interesting(baseline, r),
{
}

/// Law: classification is pure. Interestingness, the indicator list and
/// the risk score are functions of the result and the baseline alone, so
/// two calls on equal inputs yield equal outputs.
pub proof fn lemma_analysis_pure(
    baseline1: Seq<Seq<char>>,
    baseline2: Seq<Seq<char>>,
    r1: ScanResult,
    r2: ScanResult,
)
    requires
        baseline1 == baseline2,
        r1 == r2,
    ensures
        spec_is_interesting(baseline1, r1) == spec_is_interesting(baseline2, r2),
        spec_indicators(r1) == spec_indicators(r2),
        spec_risk_score(r1) == spec_risk_score(r2),
{
}

} // verus!
