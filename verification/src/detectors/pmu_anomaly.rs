//! Offline PMU baseline: a running mean of cycles per thousand instructions
//! for one VM, and findings for samples that stray too far from it.
use vstd::prelude::*;
use crate::detectors::{
    detection_score, score_detection, AttributionQuality, DetectionKind, DetectionRecord,
    DetectionScore, DetectionSource, ProfileConfidence, ScoreFactors, SourceReliability,
    DETECTION_SCHEMA_VERSION,
};
use crate::event::{IdentityConfidence, Severity};
use crate::text::{dec, is_blank, owned, push_str, trim, u64_to_dec};

verus! {

#[derive(Debug, Clone, Copy, PartialEq, Eq, Structural)]
pub struct PmuRatioSample {
    pub cycles: u64,
    pub instructions: u64,
}

/// `cycles * 1000` saturated at `u64::MAX`, divided by the instructions.
pub open spec fn cycles_per_kinst(s: PmuRatioSample) -> u64
    recommends
        s.instructions > 0,
{
    let scaled: int = if s.cycles * 1000 > u64::MAX {
        u64::MAX as int
    } else {
        s.cycles * 1000
    };
    (scaled / (s.instructions as int)) as u64
}

impl PmuRatioSample {
    /// A sample; `None` when no instruction retired.
    pub fn new(cycles: u64, instructions: u64) -> (r: Option<PmuRatioSample>)
        ensures
            instructions == 0 ==> r is None,
            instructions != 0 ==> r == Some(PmuRatioSample { cycles, instructions }),
    {
        if instructions == 0 {
            None
        } else {
            Some(PmuRatioSample { cycles, instructions })
        }
    }

    fn cycles_per_kilo_instruction(self) -> (r: u64)
        requires
            self.instructions > 0,
        ensures
            r == cycles_per_kinst(self),
    {
        let scaled = saturating_mul_u64(self.cycles, 1000);
        scaled / self.instructions
    }
}

#[derive(Debug, Clone, PartialEq, Eq)]
pub struct PmuBaseline {
    pub vm_id: String,
    pub sample_count: u32,
    pub mean_cycles_per_kilo_instruction: u64,
    pub alert_percent: u32,
}

/// The running mean after a new value when `n` samples (the new one
/// included) have been seen, capped at `u64::MAX`.
pub open spec fn next_mean(mean: u64, n: u32, value: u64) -> u64 {
    if n == 1 {
        value
    } else {
        let next: int = (mean * (n - 1) + value) / (n as int);
        if next > u64::MAX {
            u64::MAX
        } else {
            next as u64
        }
    }
}

/// `x` saturated at `u64::MAX`.
pub open spec fn sat(x: int) -> int {
    if x > u64::MAX {
        u64::MAX as int
    } else {
        x
    }
}

/// The baseline has enough history and `value` strays from its mean by at
/// least the alert percentage.
pub open spec fn is_anomaly(b: PmuBaseline, value: u64) -> bool {
    let mean = b.mean_cycles_per_kilo_instruction;
    let diff: int = if value >= mean {
        value - mean
    } else {
        mean - value
    };
    &&& b.sample_count >= 3
    &&& mean != 0
    &&& sat(diff * 100) >= sat(mean * b.alert_percent)
}

/// The scoring factors of a PMU finding.
pub open spec fn pmu_factors() -> ScoreFactors {
    ScoreFactors {
        base_severity: Severity::Medium,
        source: SourceReliability::OfflineSnapshot,
        attribution: AttributionQuality::HostOnly,
        profile: ProfileConfidence::Synthetic,
        identity: IdentityConfidence::Medium,
        data_loss: false,
        policy_match: false,
    }
}

/// The detail line of a PMU finding.
pub open spec fn pmu_detail(value: u64, mean: u64, samples: u32) -> Seq<char> {
    "cycles_per_kinst="@ + dec(value as nat) + " baseline="@ + dec(mean as nat) + " samples="@
        + dec(samples as nat)
}

impl PmuBaseline {
    pub fn new(vm_id: &str, alert_percent: u32) -> (r: Result<PmuBaseline, &'static str>)
        ensures
            trim(vm_id@).len() == 0 ==> r == Err::<PmuBaseline, &'static str>(
                "PMU baseline requires a stable VM id",
            ),
            trim(vm_id@).len() > 0 && !(1 <= alert_percent <= 10000) ==> r == Err::<
                PmuBaseline,
                &'static str,
            >("PMU baseline alert percent must be between 1 and 10000"),
            r is Ok <==> trim(vm_id@).len() > 0 && 1 <= alert_percent <= 10000,
            r matches Ok(b) ==> b.vm_id@ == vm_id@ && b.sample_count == 0
                && b.mean_cycles_per_kilo_instruction == 0 && b.alert_percent == alert_percent,
    {
        if is_blank(vm_id) {
            return Err("PMU baseline requires a stable VM id");
        }
        if !(1 <= alert_percent && alert_percent <= 10000) {
            return Err("PMU baseline alert percent must be between 1 and 10000");
        }
        Ok(
            PmuBaseline {
                vm_id: owned(vm_id),
                sample_count: 0,
                mean_cycles_per_kilo_instruction: 0,
                alert_percent,
            },
        )
    }

    pub fn sample_count(&self) -> (r: u32)
        ensures
            r == self.sample_count,
    {
        self.sample_count
    }

    pub fn mean_cycles_per_kilo_instruction(&self) -> (r: u64)
        ensures
            r == self.mean_cycles_per_kilo_instruction,
    {
        self.mean_cycles_per_kilo_instruction
    }

    /// Folds a sample into the running mean (the count saturates at `u32::MAX`).
    pub fn update(&mut self, sample: PmuRatioSample)
        requires
            sample.instructions > 0,
        ensures
            final(self).vm_id == old(self).vm_id,
            final(self).alert_percent == old(self).alert_percent,
            final(self).sample_count == (if old(self).sample_count == u32::MAX {
                u32::MAX
            } else {
                (old(self).sample_count + 1) as u32
            }),
            final(self).mean_cycles_per_kilo_instruction == next_mean(
                old(self).mean_cycles_per_kilo_instruction,
                final(self).sample_count,
                cycles_per_kinst(sample),
            ),
    {
        let value = sample.cycles_per_kilo_instruction();
        self.sample_count = self.sample_count.saturating_add(1);
        if self.sample_count == 1 {
            self.mean_cycles_per_kilo_instruction = value;
            return;
        }
        let previous_weight = (self.sample_count - 1) as u128;
        let mean = self.mean_cycles_per_kilo_instruction as u128;
        assert(mean * previous_weight <= 0xffff_ffff_ffff_ffffu128 * 0xffff_ffffu128) by (nonlinear_arith)
            requires
                mean <= 0xffff_ffff_ffff_ffffu128,
                previous_weight <= 0xffff_ffffu128,
        ;
        let total = mean * previous_weight + value as u128;
        let next = total / (self.sample_count as u128);
        self.mean_cycles_per_kilo_instruction = if next > 0xffff_ffff_ffff_ffffu128 {
            0xffff_ffff_ffff_ffffu64
        } else {
            next as u64
        };
    }

    /// A finding when `sample` strays from an established baseline.
    pub fn evaluate(&self, sample: PmuRatioSample) -> (r: Option<DetectionRecord>)
        requires
            sample.instructions > 0,
        ensures
            r is Some <==> is_anomaly(*self, cycles_per_kinst(sample)),
            r matches Some(rec) ==> {
                let score = detection_score(pmu_factors());
                &&& rec.schema_version == DETECTION_SCHEMA_VERSION
                &&& rec.detector_id@ == "pmu-anomaly-cpi"@
                &&& rec.kind == DetectionKind::PmuAnomaly
                &&& rec.title@ == "PMU ratio anomaly"@
                &&& rec.detail@ == pmu_detail(
                    cycles_per_kinst(sample),
                    self.mean_cycles_per_kilo_instruction,
                    self.sample_count,
                )
                &&& rec.vm_id matches Some(v) && v@ == self.vm_id@
                &&& rec.entity is None
                &&& rec.symbol is None
                &&& rec.range_start is None
                &&& rec.range_end is None
                &&& rec.source.name@ == "offline-pmu-baseline"@
                &&& rec.source.reliability == SourceReliability::OfflineSnapshot
                &&& rec.source.profile == ProfileConfidence::Synthetic
                &&& rec.severity == score.severity
                &&& rec.confidence == score.confidence
                &&& rec.tags@.len() == 1
                &&& rec.tags@[0]@ == "pmu_baseline"@
            },
    {
        if self.sample_count < 3 || self.mean_cycles_per_kilo_instruction == 0 {
            return None;
        }
        let value = sample.cycles_per_kilo_instruction();
        let baseline = self.mean_cycles_per_kilo_instruction;
        let diff = if value >= baseline {
            value - baseline
        } else {
            baseline - value
        };
        if saturating_mul_u64(diff, 100) < saturating_mul_u64(baseline, self.alert_percent as u64) {
            return None;
        }
        let score = pmu_anomaly_score();
        let mut detail = owned("cycles_per_kinst=");
        let a = u64_to_dec(value);
        push_str(&mut detail, a.as_str());
        push_str(&mut detail, " baseline=");
        let b = u64_to_dec(baseline);
        push_str(&mut detail, b.as_str());
        push_str(&mut detail, " samples=");
        let c = u64_to_dec(self.sample_count as u64);
        push_str(&mut detail, c.as_str());
        let source = DetectionSource::new(
            "offline-pmu-baseline",
            SourceReliability::OfflineSnapshot,
            ProfileConfidence::Synthetic,
        );
        let rec = DetectionRecord::new(
            "pmu-anomaly-cpi",
            DetectionKind::PmuAnomaly,
            "PMU ratio anomaly",
            detail.as_str(),
            source,
            score,
        ).with_vm_id(self.vm_id.as_str()).with_tag("pmu_baseline");
        Some(rec)
    }
}

/// `a * b`, saturated at `u64::MAX`.
fn saturating_mul_u64(a: u64, b: u64) -> (r: u64)
    ensures
        r == sat(a * b),
{
    let x = a as u128;
    let y = b as u128;
    assert(x * y <= 0xffff_ffff_ffff_ffffu128 * 0xffff_ffff_ffff_ffffu128) by (nonlinear_arith)
        requires
            x <= 0xffff_ffff_ffff_ffffu128,
            y <= 0xffff_ffff_ffff_ffffu128,
    ;
    let p = x * y;
    if p > 0xffff_ffff_ffff_ffffu128 {
        0xffff_ffff_ffff_ffffu64
    } else {
        p as u64
    }
}

fn pmu_anomaly_score() -> (r: DetectionScore)
    ensures
        r == detection_score(pmu_factors()),
{
    score_detection(
        ScoreFactors {
            base_severity: Severity::Medium,
            source: SourceReliability::OfflineSnapshot,
            attribution: AttributionQuality::HostOnly,
            profile: ProfileConfidence::Synthetic,
            identity: IdentityConfidence::Medium,
            data_loss: false,
            policy_match: false,
        },
    )
}

/// An anomaly is a deviation from the mean in either direction: for an
/// established baseline, a value `d` above the mean is reported exactly
/// when the value `d` below it is.
pub proof fn lemma_anomaly_symmetric(b: PmuBaseline, d: u64)
    requires
        d <= b.mean_cycles_per_kilo_instruction,
        b.mean_cycles_per_kilo_instruction + d <= u64::MAX,
    ensures
        is_anomaly(b, (b.mean_cycles_per_kilo_instruction + d) as u64) == is_anomaly(
            b,
            (b.mean_cycles_per_kilo_instruction - d) as u64,
        ),
{
}

/// A value that strays further from the mean than a reported one is
/// reported too.
pub proof fn lemma_anomaly_monotone(b: PmuBaseline, v1: u64, v2: u64)
    requires
        is_anomaly(b, v2),
        (if v1 >= b.mean_cycles_per_kilo_instruction {
            v1 - b.mean_cycles_per_kilo_instruction
        } else {
            b.mean_cycles_per_kilo_instruction - v1
        }) >= (if v2 >= b.mean_cycles_per_kilo_instruction {
            v2 - b.mean_cycles_per_kilo_instruction
        } else {
            b.mean_cycles_per_kilo_instruction - v2
        }),
    ensures
        is_anomaly(b, v1),
{
}

/// Nothing is reported before three samples or against a zero mean, and,
/// with a non-zero alert percentage, a value equal to the mean is never
/// reported.
pub proof fn lemma_anomaly_needs_deviation(b: PmuBaseline, v: u64)
    ensures
        (b.sample_count < 3 || b.mean_cycles_per_kilo_instruction == 0) ==> !is_anomaly(b, v),
        b.alert_percent > 0 && b.mean_cycles_per_kilo_instruction > 0 ==> !is_anomaly(
            b,
            b.mean_cycles_per_kilo_instruction,
        ),
{
    let m = b.mean_cycles_per_kilo_instruction;
    if b.alert_percent > 0 && m > 0 {
        assert(m * b.alert_percent >= m) by (nonlinear_arith)
            requires
                b.alert_percent > 0,
                m > 0,
        ;
    }
}

/// For an established baseline, a value is reported exactly when it strays
/// from the mean by at least the alert percentage of the mean.
pub proof fn lemma_anomaly_threshold(b: PmuBaseline, v: u64)
    requires
        b.sample_count >= 3,
        b.mean_cycles_per_kilo_instruction > 0,
        b.mean_cycles_per_kilo_instruction * b.alert_percent <= u64::MAX,
    ensures
        is_anomaly(b, v) <==> (if v >= b.mean_cycles_per_kilo_instruction {
            v - b.mean_cycles_per_kilo_instruction
        } else {
            b.mean_cycles_per_kilo_instruction - v
        }) * 100 >= b.mean_cycles_per_kilo_instruction * b.alert_percent,
{
}

/// The running mean stays between the previous mean and the new value, so
/// a value equal to the mean leaves it unchanged; the first sample sets it.
pub proof fn lemma_running_mean_between(mean: u64, n: u32, value: u64)
    requires
        n >= 1,
    ensures
        n == 1 ==> next_mean(mean, n, value) == value,
        n >= 2 && mean <= value ==> mean <= next_mean(mean, n, value) <= value,
        n >= 2 && value <= mean ==> value <= next_mean(mean, n, value) <= mean,
        n >= 2 ==> next_mean(value, n, value) == value,
{
    if n >= 2 {
        let k: int = n as int;
        let lo: int = if mean <= value {
            mean as int
        } else {
            value as int
        };
        let hi: int = if mean <= value {
            value as int
        } else {
            mean as int
        };
        let total: int = mean * (k - 1) + value;
        assert(lo * k <= total <= hi * k) by (nonlinear_arith)
            requires
                k >= 2,
                total == mean * (k - 1) + value,
                lo <= mean <= hi,
                lo <= value <= hi,
        ;
        vstd::arithmetic::div_mod::lemma_div_is_ordered(lo * k, total, k);
        vstd::arithmetic::div_mod::lemma_div_is_ordered(total, hi * k, k);
        vstd::arithmetic::div_mod::lemma_div_by_multiple(lo, k);
        vstd::arithmetic::div_mod::lemma_div_by_multiple(hi, k);
        let tv: int = value * (k - 1) + value;
        assert(tv == value * k) by (nonlinear_arith)
            requires
                tv == value * (k - 1) + value,
        ;
        vstd::arithmetic::div_mod::lemma_div_by_multiple(value as int, k);
    }
}

} // verus!
