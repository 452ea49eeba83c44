//! The scan orchestrator: candidate-set generation, baseline
//! calibration, status-code filtering, and the per-completion analysis
//! step, wrapped around the bounded-concurrency scheduler. The driver
//! outside the library performs the probes; every decision is made here.

use vstd::prelude::*;
use crate::analyzer::ResponseAnalyzer;
use crate::analyzer::spec_indicators;
use crate::analyzer::spec_is_interesting;
use crate::analyzer::spec_risk_score;
use crate::probe::ProbeOutcome;
use crate::probe::ScanResult;
use crate::scheduler::Scheduler;
use crate::text::views_of;
use vstd::arithmetic::div_mod::lemma_fundamental_div_mod_converse;

verus! {

/// One candidate URL: the target, a slash, the word, and the extension
/// appended verbatim (an extension is expected to carry its own dot).
pub open spec fn spec_candidate_url(target: Seq<char>, word: Seq<char>, ext: Seq<char>) -> Seq<
    char,
> {
    target + "/"@ + word + ext
}

/// The effective extension list: the extensions as configured, or one
/// empty extension when none are, so each word is probed bare. Its
/// length is max(1, |extensions|).
pub open spec fn spec_ext_list(exts: Seq<Seq<char>>) -> Seq<Seq<char>> {
    if exts.len() == 0 {
        seq![Seq::<char>::empty()]
    } else {
        exts
    }
}

/// Build the full candidate set: the product of the wordlist and the
/// effective extension list, words outermost, one URL per pair.
pub fn build_candidates(target: &str, words: &Vec<String>, extensions: &Vec<String>) -> (urls: Vec<
    String,
>)
    ensures
        urls@.len() == words@.len() * spec_ext_list(views_of(extensions@)).len(),
        forall|k: int|
            0 <= k < urls@.len() ==> {
                let exts = spec_ext_list(views_of(extensions@));
                (#[trigger] urls@[k])@ == spec_candidate_url(
                    target@,
                    words@[k / exts.len() as int]@,
                    exts[k % exts.len() as int],
                )
            },
{
    let ghost exts = spec_ext_list(views_of(extensions@));
    let mut ext_eff: Vec<String> = Vec::new();
    if extensions.len() == 0 {
        ext_eff.push(String::new());
        proof {
            assert(views_of(ext_eff@) =~= exts);
        }
    } else {
        let mut j: usize = 0;
        while j < extensions.len()
            invariant
                j <= extensions@.len(),
                views_of(ext_eff@) == views_of(extensions@).subrange(0, j as int),
            decreases extensions@.len() - j,
        {
            let ghost e0 = ext_eff@;
            ext_eff.push(extensions[j].clone());
            proof {
                assert(views_of(e0) == views_of(extensions@).subrange(0, j as int));
                assert(views_of(e0).len() == e0.len());
                assert(views_of(ext_eff@) =~= views_of(extensions@).subrange(0, j + 1));
            }
            j += 1;
        }
        proof {
            assert(views_of(extensions@).subrange(0, extensions@.len() as int) =~= views_of(
                extensions@,
            ));
        }
    }
    let e = ext_eff.len();
    let mut urls: Vec<String> = Vec::new();
    let mut i: usize = 0;
    while i < words.len()
        invariant
            i <= words@.len(),
            e == ext_eff@.len(),
            1 <= e,
            views_of(ext_eff@) == exts,
            exts == spec_ext_list(views_of(extensions@)),
            urls@.len() == i * e,
            forall|k: int|
                0 <= k < urls@.len() ==> (#[trigger] urls@[k])@ == spec_candidate_url(
                    target@,
                    words@[k / e as int]@,
                    exts[k % e as int],
                ),
        decreases words@.len() - i,
    {
        let mut j: usize = 0;
        while j < e
            invariant
                i < words@.len(),
                j <= e,
                e == ext_eff@.len(),
                1 <= e,
                views_of(ext_eff@) == exts,
                exts == spec_ext_list(views_of(extensions@)),
                urls@.len() == i * e + j,
                forall|k: int|
                    0 <= k < urls@.len() ==> (#[trigger] urls@[k])@ == spec_candidate_url(
                        target@,
                        words@[k / e as int]@,
                        exts[k % e as int],
                    ),
            decreases e - j,
        {
            let mut u = String::new();
            u.append(target);
            u.append("/");
            u.append(words[i].as_str());
            u.append(ext_eff[j].as_str());
            proof {
                assert(ext_eff@[j as int]@ == exts[j as int]);
                assert(u@ =~= spec_candidate_url(target@, words@[i as int]@, exts[j as int]));
            }
            let ghost k = urls@.len() as int;
            urls.push(u);
            proof {
                lemma_fundamental_div_mod_converse(k, e as int, i as int, j as int);
            }
            j += 1;
        }
        i += 1;
        proof {
            assert(i * e == (i - 1) * e + e) by (nonlinear_arith);
        }
    }
    proof {
        assert(words@.len() * e == urls@.len()) by {
            assert(urls@.len() == words@.len() as int * e as int);
        }
    }
    urls
}

/// Build one URL from the target and a path suffix; the calibration
/// probes use this with random suffixes.
pub fn join_url(target: &str, suffix: &str) -> (url: String)
    ensures
        url@ == spec_candidate_url(target@, suffix@, Seq::<char>::empty()),
{
    let mut u = String::new();
    u.append(target);
    u.append("/");
    u.append(suffix);
    proof {
        assert(u@ =~= spec_candidate_url(target@, suffix@, Seq::<char>::empty()));
    }
    u
}

/// The views of an optional status-code list.
pub open spec fn codes_view(codes: Option<Vec<u16>>) -> Option<Seq<u16>> {
    match codes {
        Option::Some(v) => Option::Some(v@),
        Option::None => Option::None,
    }
}

/// Filter precedence: a select filter, when present, is the only one
/// honored; otherwise a hide filter drops its codes; otherwise every
/// status passes.
pub open spec fn spec_passes_filters(
    status: u16,
    selected: Option<Seq<u16>>,
    hide: Option<Seq<u16>>,
) -> bool {
    match selected {
        Option::Some(inc) => inc.contains(status),
        Option::None => match hide {
            Option::Some(hid) => !hid.contains(status),
            Option::None => true,
        },
    }
}

fn code_in_list(codes: &Vec<u16>, status: u16) -> (found: bool)
    ensures
        found == codes@.contains(status),
{
    let n = codes.len();
    let mut i: usize = 0;
    while i < n
        invariant
            n == codes@.len(),
            i <= n,
            forall|k: int| 0 <= k < i ==> codes@[k] != status,
        decreases n - i,
    {
        if codes[i] == status {
            return true;
        }
        i += 1;
    }
    false
}

/// Apply the status-code filters with their precedence.
pub fn passes_filters(status: u16, selected: &Option<Vec<u16>>, hide: &Option<Vec<u16>>) -> (b:
    bool)
    ensures
        b == spec_passes_filters(status, codes_view(*selected), codes_view(*hide)),
{
    match selected {
        Option::Some(inc) => code_in_list(inc, status),
        Option::None => match hide {
            Option::Some(hid) => !code_in_list(hid, status),
            Option::None => true,
        },
    }
}

/// Law: whenever a select filter is configured, the hide filter is
/// ignored; passing is membership in the selected list alone.
pub proof fn lemma_selected_overrides_hide(status: u16, selected: Seq<u16>, hide: Seq<u16>)
    ensures
        spec_passes_filters(status, Option::Some(selected), Option::Some(hide))
            == selected.contains(status),
{
}

/// The fingerprints of the calibration responses, in order; transport
/// failures contribute nothing.
pub open spec fn calib_hashes(outcomes: Seq<ProbeOutcome>) -> Seq<Seq<char>>
    decreases outcomes.len(),
{
    if outcomes.len() == 0 {
        Seq::empty()
    } else {
        calib_hashes(outcomes.drop_last()) + (match outcomes.last() {
            ProbeOutcome::Response(r) => seq![r.content_hash@],
            ProbeOutcome::Failure(_) => Seq::<Seq<char>>::empty(),
        })
    }
}

/// Saturating addition within u128.
pub open spec fn sat_add_u128(a: int, b: int) -> int {
    if a + b > u128::MAX {
        u128::MAX as int
    } else {
        a + b
    }
}

/// The calibration latencies summed with saturation.
pub open spec fn calib_latency_sum(outcomes: Seq<ProbeOutcome>) -> int
    decreases outcomes.len(),
{
    if outcomes.len() == 0 {
        0
    } else {
        match outcomes.last() {
            ProbeOutcome::Response(r) => sat_add_u128(
                calib_latency_sum(outcomes.drop_last()),
                r.response_time as int,
            ),
            ProbeOutcome::Failure(_) => calib_latency_sum(outcomes.drop_last()),
        }
    }
}

/// How many calibration probes produced a response.
pub open spec fn calib_response_count(outcomes: Seq<ProbeOutcome>) -> int
    decreases outcomes.len(),
{
    if outcomes.len() == 0 {
        0
    } else {
        calib_response_count(outcomes.drop_last()) + (match outcomes.last() {
            ProbeOutcome::Response(_) => 1int,
            ProbeOutcome::Failure(_) => 0int,
        })
    }
}

/// The advisory average calibration latency: 0 when every probe failed.
pub open spec fn calib_avg(outcomes: Seq<ProbeOutcome>) -> int {
    if calib_response_count(outcomes) == 0 {
        0
    } else {
        calib_latency_sum(outcomes) / calib_response_count(outcomes)
    }
}

/// The status a completion is filtered by: a failure counts as status 0.
pub open spec fn outcome_status(o: ProbeOutcome) -> u16 {
    match o {
        ProbeOutcome::Response(r) => r.status_code,
        ProbeOutcome::Failure(_) => 0,
    }
}

/// Whether a completion counts as interesting: a transport failure never
/// does.
pub open spec fn outcome_interesting(baseline: Seq<Seq<char>>, o: ProbeOutcome) -> bool {
    match o {
        ProbeOutcome::Response(r) => spec_is_interesting(baseline, r),
        ProbeOutcome::Failure(_) => false,
    }
}

/// One fully annotated result, ready for rendering.
pub struct AnalyzedResult {
    pub result: ScanResult,
    pub interesting: bool,
    pub indicators: Vec<String>,
    pub risk_score: u8,
}

/// How an emitted annotation relates to the completion it came from: a
/// response is analyzed against the baseline; a transport failure is
/// recorded as a zero-score, non-interesting result with status 0.
pub open spec fn spec_analysis_of(
    baseline: Seq<Seq<char>>,
    o: ProbeOutcome,
    a: AnalyzedResult,
) -> bool {
    match o {
        ProbeOutcome::Response(r) => {
            &&& a.result == r
            &&& a.interesting == spec_is_interesting(baseline, r)
            &&& views_of(a.indicators@) == spec_indicators(r)
            &&& a.risk_score as int == spec_risk_score(r)
        },
        ProbeOutcome::Failure(f) => {
            &&& a.result.url == f.url
            &&& a.result.status_code == 0
            &&& a.result.content_length == 0
            &&& a.result.response_time == 0
            &&& a.result.server_header is None
            &&& a.result.header_loc is None
            &&& a.result.content_type is None
            &&& a.result.content_hash@ == Seq::<char>::empty()
            &&& a.interesting == false
            &&& a.indicators@ == Seq::<String>::empty()
            &&& a.risk_score == 0
        },
    }
}

/// The orchestrator: calibration, scheduling, analysis, filtering and the
/// running totals, behind one state machine the driver steps through.
pub struct ScanEngine {
    scheduler: Scheduler,
    analyzer: ResponseAnalyzer,
    selected_codes: Option<Vec<u16>>,
    hide_codes: Option<Vec<u16>>,
    calibrated: bool,
    interesting_count: usize,
}

impl ScanEngine {
    pub closed spec fn candidates_view(&self) -> Seq<Seq<char>> {
        self.scheduler.candidates_view()
    }

    pub closed spec fn total(&self) -> int {
        self.scheduler.total()
    }

    pub closed spec fn started(&self) -> int {
        self.scheduler.started()
    }

    pub closed spec fn in_flight_count(&self) -> int {
        self.scheduler.in_flight_count()
    }

    pub closed spec fn completed_count(&self) -> int {
        self.scheduler.completed_count()
    }

    pub closed spec fn limit_spec(&self) -> int {
        self.scheduler.limit_spec()
    }

    /// The calibrated soft-404 fingerprints.
    pub closed spec fn baseline(&self) -> Seq<Seq<char>> {
        self.analyzer.baseline()
    }

    pub closed spec fn avg_time(&self) -> u128 {
        self.analyzer.avg_time()
    }

    pub closed spec fn is_calibrated(&self) -> bool {
        self.calibrated
    }

    /// How many completed results were interesting.
    pub closed spec fn interesting_total(&self) -> int {
        self.interesting_count as int
    }

    pub closed spec fn selected_view(&self) -> Option<Seq<u16>> {
        codes_view(self.selected_codes)
    }

    pub closed spec fn hide_view(&self) -> Option<Seq<u16>> {
        codes_view(self.hide_codes)
    }

    /// The engine invariant: the scheduler is well-formed, the
    /// interesting count never exceeds the completed count, and no
    /// candidate is started (hence none scored) before calibration is
    /// done.
    pub closed spec fn wf(&self) -> bool {
        &&& self.scheduler.wf()
        &&& self.interesting_total() <= self.completed_count()
        &&& !self.calibrated ==> {
            &&& self.scheduler.started() == 0
            &&& self.analyzer.baseline() == Seq::<Seq<char>>::empty()
            &&& self.analyzer.avg_time() == 0
        }
    }

    /// Every candidate has produced a completed result.
    pub open spec fn finished(&self) -> bool {
        self.completed_count() == self.total()
    }

    pub fn new(
        candidates: Vec<String>,
        concurrency: usize,
        selected_codes: Option<Vec<u16>>,
        hide_codes: Option<Vec<u16>>,
    ) -> (e: ScanEngine)
        requires
            1 <= concurrency,
        ensures
            e.wf(),
            !e.is_calibrated(),
            e.candidates_view() == views_of(candidates@),
            e.total() == candidates@.len(),
            e.started() == 0,
            e.in_flight_count() == 0,
            e.completed_count() == 0,
            e.interesting_total() == 0,
            e.limit_spec() == concurrency,
            e.baseline() == Seq::<Seq<char>>::empty(),
            e.avg_time() == 0,
            e.selected_view() == codes_view(selected_codes),
            e.hide_view() == codes_view(hide_codes),
    {
        ScanEngine {
            scheduler: Scheduler::new(candidates, concurrency),
            analyzer: ResponseAnalyzer::new(),
            selected_codes,
            hide_codes,
            calibrated: false,
            interesting_count: 0,
        }
    }

    /// Absorb the calibration probes: collect the fingerprint of every
    /// response into the baseline and average the observed latencies.
    /// When every calibration probe failed, the baseline stays empty and
    /// the scan proceeds without soft-404 suppression. Completes before
    /// any candidate is started.
    pub fn calibrate(&mut self, outcomes: &Vec<ProbeOutcome>)
        requires
            old(self).wf(),
            !old(self).is_calibrated(),
        ensures
            final (self).wf(),
            final (self).is_calibrated(),
            final (self).baseline() == calib_hashes(outcomes@),
            final (self).avg_time() as int == calib_avg(outcomes@),
            final (self).candidates_view() == old(self).candidates_view(),
            final (self).total() == old(self).total(),
            final (self).started() == old(self).started(),
            final (self).in_flight_count() == old(self).in_flight_count(),
            final (self).completed_count() == old(self).completed_count(),
            final (self).interesting_total() == old(self).interesting_total(),
            final (self).limit_spec() == old(self).limit_spec(),
            final (self).selected_view() == old(self).selected_view(),
            final (self).hide_view() == old(self).hide_view(),
    {
        let n = outcomes.len();
        let mut sum: u128 = 0;
        let mut count: usize = 0;
        let mut k: usize = 0;
        while k < n
            invariant
                n == outcomes@.len(),
                k <= n,
                self.scheduler == old(self).scheduler,
                self.selected_codes == old(self).selected_codes,
                self.hide_codes == old(self).hide_codes,
                self.calibrated == old(self).calibrated,
                self.interesting_count == old(self).interesting_count,
                old(self).analyzer.baseline() == Seq::<Seq<char>>::empty(),
                self.analyzer.baseline() == calib_hashes(outcomes@.subrange(0, k as int)),
                sum as int == calib_latency_sum(outcomes@.subrange(0, k as int)),
                count as int == calib_response_count(outcomes@.subrange(0, k as int)),
                count <= k,
            decreases n - k,
        {
            proof {
                assert(outcomes@.subrange(0, k + 1).drop_last() =~= outcomes@.subrange(
                    0,
                    k as int,
                ));
                assert(outcomes@.subrange(0, k + 1).last() == outcomes@[k as int]);
            }
            let o = &outcomes[k];
            match o {
                ProbeOutcome::Response(r) => {
                    self.analyzer.store_404_hashes(r.content_hash.clone());
                    proof {
                        assert(self.analyzer.baseline() =~= calib_hashes(
                            outcomes@.subrange(0, k + 1),
                        ));
                    }
                    if sum > u128::MAX - r.response_time {
                        sum = u128::MAX;
                    } else {
                        sum = sum + r.response_time;
                    }
                    count += 1;
                },
                ProbeOutcome::Failure(_) => {},
            }
            k += 1;
        }
        proof {
            assert(outcomes@.subrange(0, n as int) =~= outcomes@);
        }
        if count > 0 {
            let avg = sum / (count as u128);
            self.analyzer.set_avg_response_time(avg);
        } else {
            self.analyzer.set_avg_response_time(0);
        }
        self.calibrated = true;
    }

    /// A candidate is pending and a concurrency slot is free.
    pub fn can_start(&self) -> (b: bool)
        ensures
            b == (self.started() < self.total() && self.in_flight_count() < self.limit_spec()),
    {
        self.scheduler.can_start()
    }

    /// Hand out the next candidate URL, occupying one slot.
    pub fn next_candidate(&mut self) -> (url: String)
        requires
            old(self).wf(),
            old(self).is_calibrated(),
            old(self).started() < old(self).total(),
            old(self).in_flight_count() < old(self).limit_spec(),
        ensures
            final (self).wf(),
            url@ == old(self).candidates_view()[old(self).started()],
            final (self).started() == old(self).started() + 1,
            final (self).in_flight_count() == old(self).in_flight_count() + 1,
            final (self).completed_count() == old(self).completed_count(),
            final (self).interesting_total() == old(self).interesting_total(),
            final (self).candidates_view() == old(self).candidates_view(),
            final (self).total() == old(self).total(),
            final (self).limit_spec() == old(self).limit_spec(),
            final (self).baseline() == old(self).baseline(),
            final (self).avg_time() == old(self).avg_time(),
            final (self).is_calibrated(),
            final (self).selected_view() == old(self).selected_view(),
            final (self).hide_view() == old(self).hide_view(),
    {
        self.scheduler.start_next()
    }

    /// Absorb one completion: free its slot, analyze it against the
    /// baseline, count it, and emit the annotated result unless the
    /// status-code filters drop it.
    pub fn process_outcome(&mut self, outcome: ProbeOutcome) -> (out: Option<AnalyzedResult>)
        requires
            old(self).wf(),
            old(self).is_calibrated(),
            old(self).in_flight_count() >= 1,
        ensures
            final (self).wf(),
            final (self).completed_count() == old(self).completed_count() + 1,
            final (self).in_flight_count() == old(self).in_flight_count() - 1,
            final (self).started() == old(self).started(),
            final (self).interesting_total() == old(self).interesting_total() + (
            if outcome_interesting(old(self).baseline(), outcome) {
                1int
            } else {
                0int
            }),
            out is Some <==> spec_passes_filters(
                outcome_status(outcome),
                old(self).selected_view(),
                old(self).hide_view(),
            ),
            match out {
                Option::Some(a) => spec_analysis_of(old(self).baseline(), outcome, a),
                Option::None => true,
            },
            final (self).candidates_view() == old(self).candidates_view(),
            final (self).total() == old(self).total(),
            final (self).limit_spec() == old(self).limit_spec(),
            final (self).baseline() == old(self).baseline(),
            final (self).avg_time() == old(self).avg_time(),
            final (self).is_calibrated(),
            final (self).selected_view() == old(self).selected_view(),
            final (self).hide_view() == old(self).hide_view(),
    {
        let total = self.scheduler.total_candidates();
        self.scheduler.complete();
        match outcome {
            ProbeOutcome::Response(r) => {
                let interesting = self.analyzer.is_interesting(&r);
                let indicators = self.analyzer.get_vuln_indicators(&r);
                let score = self.analyzer.get_risk_score(&r);
                if interesting {
                    self.interesting_count += 1;
                }
                if passes_filters(r.status_code, &self.selected_codes, &self.hide_codes) {
                    Option::Some(
                        AnalyzedResult { result: r, interesting, indicators, risk_score: score },
                    )
                } else {
                    Option::None
                }
            },
            ProbeOutcome::Failure(f) => {
                if passes_filters(0, &self.selected_codes, &self.hide_codes) {
                    let empty_hash = String::new();
                    Option::Some(
                        AnalyzedResult {
                            result: ScanResult {
                                url: f.url,
                                status_code: 0,
                                content_length: 0,
                                response_time: 0,
                                server_header: Option::None,
                                header_loc: Option::None,
                                content_type: Option::None,
                                content_hash: empty_hash,
                            },
                            interesting: false,
                            indicators: Vec::new(),
                            risk_score: 0,
                        },
                    )
                } else {
                    Option::None
                }
            },
        }
    }

    pub fn is_finished(&self) -> (b: bool)
        ensures
            b == self.finished(),
    {
        self.scheduler.is_finished()
    }

    /// Total of completed probes so far, for the summary.
    pub fn requests_completed(&self) -> (n: usize)
        ensures
            n == self.completed_count(),
    {
        self.scheduler.completed_so_far()
    }

    /// Total of interesting results so far, for the summary.
    pub fn interesting_so_far(&self) -> (n: usize)
        ensures
            n == self.interesting_total(),
    {
        self.interesting_count
    }

    /// The advisory average calibration latency in milliseconds.
    pub fn average_calibration_latency(&self) -> (t: u128)
        ensures
            t == self.avg_time(),
    {
        self.analyzer.get_avg_response_time()
    }
}

/// Law: bounded concurrency at the engine level: a well-formed engine
/// never has more probes in flight than its configured limit.
pub proof fn lemma_engine_in_flight_bounded(e: &ScanEngine)
    requires
        e.wf(),
    ensures
        e.in_flight_count() <= e.limit_spec(),
{
}

/// Law: exactly one completed result per candidate. When the candidates
/// came from `build_candidates`, a finished engine has completed
/// |wordlist| * max(1, |extensions|) probes, successes and transport
/// failures together.
pub proof fn lemma_completed_total(e: &ScanEngine, words: Seq<Seq<char>>, exts: Seq<Seq<char>>)
    requires
        e.wf(),
        e.finished(),
        e.total() == words.len() * spec_ext_list(exts).len(),
    ensures
        e.completed_count() == words.len() * spec_ext_list(exts).len(),
        spec_ext_list(exts).len() == (if exts.len() == 0 {
            1int
        } else {
            exts.len() as int
        }),
{
}

} // verus!

