//! W^X correlation findings: a guest page written and then executed, as the
//! trace correlator reports it in a W^X event.
use vstd::prelude::*;
use crate::detectors::{
    detection_score, score_detection, AttributionQuality, DetectionKind, DetectionRecord,
    DetectionSource, DetectorError, ProfileConfidence, ScoreFactors, SourceReliability,
    DETECTION_SCHEMA_VERSION,
};
use crate::event::{AddrInfo, Category, Event, IdentityConfidence, WxInfo};
use crate::text::{dec, owned, parse_hex, parse_hex_u64, push_str, u64_to_dec};

verus! {

/// The guest physical address of an event, if it has one.
pub open spec fn event_gpa(ev: Event) -> Option<String> {
    match ev.addr {
        Some(a) => a.gpa,
        None => None,
    }
}

/// How well a W^X event is attributed.
pub open spec fn wx_attribution(ev: Event) -> AttributionQuality {
    if ev.guest_symbol is Some {
        AttributionQuality::GuestSymbol
    } else if ev.guest_process is Some {
        AttributionQuality::GuestProcess
    } else if event_gpa(ev) is Some {
        AttributionQuality::GuestAddress
    } else {
        AttributionQuality::HostOnly
    }
}

/// The identity confidence of an event (`Low` without identity).
pub open spec fn event_identity_confidence(ev: Event) -> IdentityConfidence {
    match ev.identity {
        Some(i) => i.confidence,
        None => IdentityConfidence::Low,
    }
}

/// The scoring factors of a W^X finding.
pub open spec fn wx_factors(ev: Event) -> ScoreFactors {
    ScoreFactors {
        base_severity: ev.severity,
        source: SourceReliability::Tracefs,
        attribution: wx_attribution(ev),
        profile: ProfileConfidence::NoProfile,
        identity: event_identity_confidence(ev),
        data_loss: ev.data_loss,
        policy_match: ev.rule_id is Some,
    }
}

/// The guest range of a W^X finding: the page at the event's hexadecimal GPA.
pub open spec fn wx_range(ev: Event, wx: WxInfo) -> Option<(u64, u64)> {
    match event_gpa(ev) {
        Some(g) => match parse_hex(g@) {
            Some(start) => {
                let size: u64 = match wx.page_size {
                    Some(p) => p,
                    None => 4096,
                };
                let end: u64 = if start + size > u64::MAX {
                    u64::MAX
                } else {
                    (start + size) as u64
                };
                Some((start, end))
            },
            None => None,
        },
        None => None,
    }
}

/// `r` is the W^X finding for event `ev` with payload `wx`.
pub open spec fn is_wx_record(r: DetectionRecord, ev: Event, wx: WxInfo) -> bool {
    let score = detection_score(wx_factors(ev));
    &&& r.schema_version == DETECTION_SCHEMA_VERSION
    &&& r.detector_id@ == "wx_correlation"@
    &&& r.kind == DetectionKind::WxCorrelation
    &&& r.title@ == "write then execute on same guest page"@
    &&& r.detail@ == "W^X correlation delta was "@ + dec(wx.delta_ms as nat) + " ms"@
    &&& r.source.name@ == "tracefs_wx_correlation"@
    &&& r.source.reliability == SourceReliability::Tracefs
    &&& r.source.profile == ProfileConfidence::NoProfile
    &&& r.severity == score.severity
    &&& r.confidence == score.confidence
    &&& r.tags@.len() == 2
    &&& r.tags@[0]@ == "wx"@
    &&& r.tags@[1]@ == "tracefs"@
    &&& match ev.vm_id {
        Some(v) => r.vm_id matches Some(x) && x@ == v@,
        None => r.vm_id is None,
    }
    &&& match ev.guest_process {
        Some(v) => r.entity matches Some(x) && x@ == v@,
        None => r.entity is None,
    }
    &&& match (ev.guest_symbol, ev.guest_module) {
        (Some(v), _) => r.symbol matches Some(x) && x@ == v@,
        (None, Some(v)) => r.symbol matches Some(x) && x@ == v@,
        (None, None) => r.symbol is None,
    }
    &&& match wx_range(ev, wx) {
        Some((start, end)) => r.range_start == Some(start) && r.range_end == Some(end),
        None => r.range_start is None && r.range_end is None,
    }
}

pub fn wx_detection_from_event(ev: &Event) -> (r: Result<Option<DetectionRecord>, DetectorError>)
    ensures
        ev.category != Category::Wx ==> r == Ok::<Option<DetectionRecord>, DetectorError>(None),
        ev.category == Category::Wx && ev.wx is None ==> (r matches Err(
            DetectorError::MalformedInput { detail },
        ) && detail@ == "W^X event is missing wx payload"@),
        ev.category == Category::Wx && ev.wx is Some ==> (r matches Ok(Some(rec)) && is_wx_record(
            rec,
            *ev,
            ev.wx->0,
        )),
{
    if ev.category != Category::Wx {
        return Ok(None);
    }
    let wx = match &ev.wx {
        Some(w) => w,
        None => {
            return Err(DetectorError::MalformedInput { detail: owned("W^X event is missing wx payload") });
        },
    };
    let source = wx_base_source();
    let gpa: Option<&String> = match &ev.addr {
        Some(a) => match &a.gpa {
            Some(g) => Some(g),
            None => None,
        },
        None => None,
    };
    let attribution = if ev.guest_symbol.is_some() {
        AttributionQuality::GuestSymbol
    } else if ev.guest_process.is_some() {
        AttributionQuality::GuestProcess
    } else if gpa.is_some() {
        AttributionQuality::GuestAddress
    } else {
        AttributionQuality::HostOnly
    };
    let identity = match &ev.identity {
        Some(i) => i.confidence,
        None => IdentityConfidence::Low,
    };
    let score = score_detection(
        ScoreFactors {
            base_severity: ev.severity,
            source: source.reliability,
            attribution,
            profile: source.profile,
            identity,
            data_loss: ev.data_loss,
            policy_match: ev.rule_id.is_some(),
        },
    );
    let mut detail = owned("W^X correlation delta was ");
    let d = u64_to_dec(wx.delta_ms);
    push_str(&mut detail, d.as_str());
    push_str(&mut detail, " ms");
    let mut record = DetectionRecord::new(
        "wx_correlation",
        DetectionKind::WxCorrelation,
        "write then execute on same guest page",
        detail.as_str(),
        source,
        score,
    ).with_tag("wx").with_tag("tracefs");
    match &ev.vm_id {
        Some(v) => {
            record = record.with_vm_id(v.as_str());
        },
        None => {},
    }
    match &ev.guest_process {
        Some(p) => {
            record = record.with_entity(p.as_str());
        },
        None => {},
    }
    match &ev.guest_symbol {
        Some(s) => {
            record = record.with_symbol(s.as_str());
        },
        None => match &ev.guest_module {
            Some(m) => {
                record = record.with_symbol(m.as_str());
            },
            None => {},
        },
    }
    match gpa {
        Some(g) => match parse_hex_u64(g.as_str()) {
            Some(start) => {
                let size = match wx.page_size {
                    Some(p) => p,
                    None => 4096,
                };
                let end = start.saturating_add(size);
                record = record.with_range(start, end);
            },
            None => {},
        },
        None => {},
    }
    Ok(Some(record))
}

/// The error for a W^X attribution that VMI cannot provide.
pub fn unsupported_wx_vmi_attribution(reason: &str) -> (r: DetectorError)
    ensures
        r matches DetectorError::Unsupported { detector, detail } && detector@ == "wx_correlation"@
            && detail@ == reason@,
{
    DetectorError::Unsupported { detector: owned("wx_correlation"), detail: owned(reason) }
}

/// The source of W^X correlation findings.
pub fn wx_base_source() -> (r: DetectionSource)
    ensures
        r.name@ == "tracefs_wx_correlation"@,
        r.reliability == SourceReliability::Tracefs,
        r.profile == ProfileConfidence::NoProfile,
{
    DetectionSource::new("tracefs_wx_correlation", SourceReliability::Tracefs, ProfileConfidence::NoProfile)
}

} // verus!
