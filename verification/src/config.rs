//! Sensor configuration: the model, its defaults, the normalisation of
//! numeric settings into their supported ranges, and validation.
use vstd::prelude::*;
use crate::event::{category_from_str, category_parse, severity_from_str, severity_parse, IdentityConfidence};
use crate::pattern::{compilable, unsupported_syntax_message, Pattern};
use crate::text::{
    ascii_lower, cat3, cat5, dec, eq_lit, is_blank, owned, push_str, starts_with, str_eq,
    str_starts_with, to_ascii_lower, trim, u64_to_dec, views,
};

verus! {

pub const PMU_REDISCOVER_MS_MIN: u64 = 1000;

pub const PMU_REDISCOVER_MS_MAX: u64 = 3600000;

pub const SPOOL_MAX_BYTES_MIN: u64 = 4096;

pub const SPOOL_MAX_BYTES_MAX: u64 = 1099511627776;

pub const SPOOL_SEGMENT_BYTES_MIN: u64 = 4096;

pub const SYSLOG_MAX_MESSAGE_BYTES_MIN: usize = 512;

pub const SYSLOG_MAX_MESSAGE_BYTES_MAX: usize = 65507;

pub const JOURNALD_MAX_MESSAGE_BYTES_MIN: usize = 512;

pub const JOURNALD_MAX_MESSAGE_BYTES_MAX: usize = 65536;

#[derive(Debug, Clone, PartialEq, Eq)]
pub struct Config {
    pub version: u32,
    pub general: General,
    pub allow: Allow,
    pub wx_allow: WxAllow,
    pub pmu: Pmu,
    pub metrics: MetricsConfig,
    pub spool: Spool,
    pub syslog: Syslog,
    pub journald: Journald,
    pub identity: Identity,
    pub actions: Actions,
    pub policy: Policy,
}

#[derive(Debug, Clone, PartialEq, Eq)]
pub struct General {
    pub wx_window_ms: u64,
    pub wx_cooldown_ms: u64,
    pub wx_max_pages: usize,
    pub page_size: u64,
    pub flush_every: usize,
    pub quiet: bool,
}

#[derive(Debug, Clone, PartialEq, Eq)]
pub struct Allow {
    pub ignore_vm: Vec<String>,
}

#[derive(Debug, Clone, PartialEq, Eq)]
pub struct WxAllow {
    pub entries: Vec<WxAllowEntry>,
}

#[derive(Debug, Clone, PartialEq, Eq)]
pub struct WxAllowEntry {
    pub vm: String,
    pub gpa_prefix: String,
}

#[derive(Debug, Clone, PartialEq, Eq)]
pub struct Pmu {
    pub enable: bool,
    pub sample_ms: u64,
    pub qemu_pid: i32,
    pub vm_regex: String,
    pub rediscover_ms: u64,
}

#[derive(Debug, Clone, PartialEq, Eq)]
pub struct MetricsConfig {
    pub allow_bind_failure: bool,
}

#[derive(Debug, Clone, PartialEq, Eq)]
pub struct Spool {
    pub enable: bool,
    pub dir: String,
    pub max_bytes: u64,
    pub segment_bytes: u64,
    pub compression: SpoolCompression,
}

#[derive(Debug, Clone, Copy, PartialEq, Eq, Structural)]
pub enum SpoolCompression {
    NoCompression,
    Rle,
}

#[derive(Debug, Clone, PartialEq, Eq)]
pub struct Syslog {
    pub enable: bool,
    pub address: String,
    pub facility: String,
    pub max_message_bytes: usize,
}

#[derive(Debug, Clone, PartialEq, Eq)]
pub struct Journald {
    pub enable: bool,
    pub socket: String,
    pub identifier: String,
    pub max_message_bytes: usize,
}

#[derive(Debug, Clone, PartialEq, Eq)]
pub struct Identity {
    pub enable: bool,
    pub cache_ms: u64,
    pub qmp_socket_dirs: Vec<String>,
    pub libvirt_xml_dir: String,
    pub require_stable_qmp_match: bool,
    pub min_action_confidence: IdentityConfidence,
}

#[derive(Debug, Clone, PartialEq, Eq)]
pub struct Actions {
    pub timeout_ms: u64,
    pub retries: u32,
    pub dump_root: String,
    pub qmp: Vec<QmpMapping>,
}

/// One QMP socket mapping: a stable VM id pattern (prefer `libvirt:<uuid>` or
/// `name:<domain>`) and/or a VM name pattern, and the monitor socket.
#[derive(Debug, Clone, PartialEq, Eq)]
pub struct QmpMapping {
    pub vm_id: String,
    pub vm: String,
    pub socket: String,
}

#[derive(Debug, Clone, PartialEq, Eq)]
pub struct Policy {
    pub rules: Vec<Rule>,
}

#[derive(Debug, Clone, PartialEq, Eq)]
pub struct Rule {
    pub name: String,
    pub id: String,
    pub match_: Match,
    pub action: Option<Action>,
    pub actions: Vec<Action>,
    pub cooldown_ms: u64,
    pub priority: i32,
    pub mode: String,
    pub enabled: bool,
}

#[derive(Debug, Clone, PartialEq, Eq)]
pub struct Match {
    pub category: String,
    pub severity_at_least: String,
    pub reason_regex: String,
    pub vm_regex: String,
    pub trap_type: String,
}

#[derive(Debug, Clone, PartialEq, Eq)]
pub struct Action {
    pub kind: String,
    pub output_path: String,
    pub nic: String,
}

// ---------------------------------------------------------------------------
// Mathematical views of the configuration: strings as `Seq<char>`, lists as
// `Seq`s of views.
// ---------------------------------------------------------------------------

pub struct WxEntryView {
    pub vm: Seq<char>,
    pub gpa_prefix: Seq<char>,
}

pub struct PmuView {
    pub enable: bool,
    pub sample_ms: u64,
    pub qemu_pid: i32,
    pub vm_regex: Seq<char>,
    pub rediscover_ms: u64,
}

pub struct SpoolView {
    pub enable: bool,
    pub dir: Seq<char>,
    pub max_bytes: u64,
    pub segment_bytes: u64,
    pub compression: SpoolCompression,
}

pub struct SyslogView {
    pub enable: bool,
    pub address: Seq<char>,
    pub facility: Seq<char>,
    pub max_message_bytes: usize,
}

pub struct JournaldView {
    pub enable: bool,
    pub socket: Seq<char>,
    pub identifier: Seq<char>,
    pub max_message_bytes: usize,
}

pub struct IdentityView {
    pub enable: bool,
    pub cache_ms: u64,
    pub qmp_socket_dirs: Seq<Seq<char>>,
    pub libvirt_xml_dir: Seq<char>,
    pub require_stable_qmp_match: bool,
    pub min_action_confidence: IdentityConfidence,
}

pub struct QmpView {
    pub vm_id: Seq<char>,
    pub vm: Seq<char>,
    pub socket: Seq<char>,
}

pub struct ActionsView {
    pub timeout_ms: u64,
    pub retries: u32,
    pub dump_root: Seq<char>,
    pub qmp: Seq<QmpView>,
}

pub struct MatchView {
    pub category: Seq<char>,
    pub severity_at_least: Seq<char>,
    pub reason_regex: Seq<char>,
    pub vm_regex: Seq<char>,
    pub trap_type: Seq<char>,
}

pub struct ActionView {
    pub kind: Seq<char>,
    pub output_path: Seq<char>,
    pub nic: Seq<char>,
}

pub struct RuleView {
    pub name: Seq<char>,
    pub id: Seq<char>,
    pub match_: MatchView,
    pub action: Option<ActionView>,
    pub actions: Seq<ActionView>,
    pub cooldown_ms: u64,
    pub priority: i32,
    pub mode: Seq<char>,
    pub enabled: bool,
}

pub struct ConfigView {
    pub version: u32,
    pub general: General,
    pub ignore_vm: Seq<Seq<char>>,
    pub wx_entries: Seq<WxEntryView>,
    pub pmu: PmuView,
    pub metrics: MetricsConfig,
    pub spool: SpoolView,
    pub syslog: SyslogView,
    pub journald: JournaldView,
    pub identity: IdentityView,
    pub actions: ActionsView,
    pub rules: Seq<RuleView>,
}

impl View for WxAllowEntry {
    type V = WxEntryView;

    open spec fn view(&self) -> WxEntryView {
        WxEntryView { vm: self.vm@, gpa_prefix: self.gpa_prefix@ }
    }
}

impl View for Pmu {
    type V = PmuView;

    open spec fn view(&self) -> PmuView {
        PmuView {
            enable: self.enable,
            sample_ms: self.sample_ms,
            qemu_pid: self.qemu_pid,
            vm_regex: self.vm_regex@,
            rediscover_ms: self.rediscover_ms,
        }
    }
}

impl View for Spool {
    type V = SpoolView;

    open spec fn view(&self) -> SpoolView {
        SpoolView {
            enable: self.enable,
            dir: self.dir@,
            max_bytes: self.max_bytes,
            segment_bytes: self.segment_bytes,
            compression: self.compression,
        }
    }
}

impl View for Syslog {
    type V = SyslogView;

    open spec fn view(&self) -> SyslogView {
        SyslogView {
            enable: self.enable,
            address: self.address@,
            facility: self.facility@,
            max_message_bytes: self.max_message_bytes,
        }
    }
}

impl View for Journald {
    type V = JournaldView;

    open spec fn view(&self) -> JournaldView {
        JournaldView {
            enable: self.enable,
            socket: self.socket@,
            identifier: self.identifier@,
            max_message_bytes: self.max_message_bytes,
        }
    }
}

impl View for Identity {
    type V = IdentityView;

    open spec fn view(&self) -> IdentityView {
        IdentityView {
            enable: self.enable,
            cache_ms: self.cache_ms,
            qmp_socket_dirs: views(self.qmp_socket_dirs@),
            libvirt_xml_dir: self.libvirt_xml_dir@,
            require_stable_qmp_match: self.require_stable_qmp_match,
            min_action_confidence: self.min_action_confidence,
        }
    }
}

impl View for QmpMapping {
    type V = QmpView;

    open spec fn view(&self) -> QmpView {
        QmpView { vm_id: self.vm_id@, vm: self.vm@, socket: self.socket@ }
    }
}

impl View for Actions {
    type V = ActionsView;

    open spec fn view(&self) -> ActionsView {
        ActionsView {
            timeout_ms: self.timeout_ms,
            retries: self.retries,
            dump_root: self.dump_root@,
            qmp: self.qmp@.map_values(|q: QmpMapping| q@),
        }
    }
}

impl View for Match {
    type V = MatchView;

    open spec fn view(&self) -> MatchView {
        MatchView {
            category: self.category@,
            severity_at_least: self.severity_at_least@,
            reason_regex: self.reason_regex@,
            vm_regex: self.vm_regex@,
            trap_type: self.trap_type@,
        }
    }
}

impl View for Action {
    type V = ActionView;

    open spec fn view(&self) -> ActionView {
        ActionView { kind: self.kind@, output_path: self.output_path@, nic: self.nic@ }
    }
}

impl View for Rule {
    type V = RuleView;

    open spec fn view(&self) -> RuleView {
        RuleView {
            name: self.name@,
            id: self.id@,
            match_: self.match_@,
            action: match self.action {
                Some(a) => Some(a@),
                None => None,
            },
            actions: self.actions@.map_values(|a: Action| a@),
            cooldown_ms: self.cooldown_ms,
            priority: self.priority,
            mode: self.mode@,
            enabled: self.enabled,
        }
    }
}

impl View for Config {
    type V = ConfigView;

    open spec fn view(&self) -> ConfigView {
        ConfigView {
            version: self.version,
            general: self.general,
            ignore_vm: views(self.allow.ignore_vm@),
            wx_entries: self.wx_allow.entries@.map_values(|e: WxAllowEntry| e@),
            pmu: self.pmu@,
            metrics: self.metrics,
            spool: self.spool@,
            syslog: self.syslog@,
            journald: self.journald@,
            identity: self.identity@,
            actions: self.actions@,
            rules: self.policy.rules@.map_values(|r: Rule| r@),
        }
    }
}

/// The empty match: every field blank.
pub open spec fn default_match_view() -> MatchView {
    MatchView {
        category: Seq::empty(),
        severity_at_least: Seq::empty(),
        reason_regex: Seq::empty(),
        vm_regex: Seq::empty(),
        trap_type: Seq::empty(),
    }
}

/// The empty action: every field blank.
pub open spec fn default_action_view() -> ActionView {
    ActionView { kind: Seq::empty(), output_path: Seq::empty(), nic: Seq::empty() }
}

/// A rule as `[[policy.rules]]` starts it.
pub open spec fn default_rule_view() -> RuleView {
    RuleView {
        name: Seq::empty(),
        id: Seq::empty(),
        match_: default_match_view(),
        action: None,
        actions: Seq::empty(),
        cooldown_ms: 0,
        priority: 100,
        mode: "enforce"@,
        enabled: true,
    }
}

/// The built-in configuration.
pub open spec fn default_config_view() -> ConfigView {
    ConfigView {
        version: 1,
        general: General::default_spec(),
        ignore_vm: Seq::empty(),
        wx_entries: Seq::empty(),
        pmu: PmuView {
            enable: false,
            sample_ms: 1000,
            qemu_pid: 0,
            vm_regex: Seq::empty(),
            rediscover_ms: 30000,
        },
        metrics: MetricsConfig { allow_bind_failure: false },
        spool: SpoolView {
            enable: false,
            dir: "/var/lib/aegishv/spool"@,
            max_bytes: 67108864,
            segment_bytes: 4194304,
            compression: SpoolCompression::NoCompression,
        },
        syslog: SyslogView {
            enable: false,
            address: "127.0.0.1:514"@,
            facility: "local0"@,
            max_message_bytes: 8192,
        },
        journald: JournaldView {
            enable: false,
            socket: "/run/systemd/journal/socket"@,
            identifier: "aegishv"@,
            max_message_bytes: 8192,
        },
        identity: IdentityView {
            enable: true,
            cache_ms: 5000,
            qmp_socket_dirs: seq!["/run/libvirt/qemu"@, "/var/run/libvirt/qemu"@, "/run/qemu"@],
            libvirt_xml_dir: Seq::empty(),
            require_stable_qmp_match: true,
            min_action_confidence: IdentityConfidence::High,
        },
        actions: ActionsView {
            timeout_ms: 2000,
            retries: 1,
            dump_root: "/var/lib/aegishv/dumps"@,
            qmp: Seq::empty(),
        },
        rules: Seq::empty(),
    }
}

impl Default for General {
    fn default() -> (r: Self)
        ensures
            r == (General {
                wx_window_ms: 5000,
                wx_cooldown_ms: 30000,
                wx_max_pages: 200000,
                page_size: 4096,
                flush_every: 64,
                quiet: false,
            }),
    {
        General {
            wx_window_ms: 5000,
            wx_cooldown_ms: 30000,
            wx_max_pages: 200000,
            page_size: 4096,
            flush_every: 64,
            quiet: false,
        }
    }
}

impl Default for Allow {
    fn default() -> (r: Self)
        ensures
            r.ignore_vm@.len() == 0,
    {
        Allow { ignore_vm: Vec::new() }
    }
}

impl Default for WxAllow {
    fn default() -> (r: Self)
        ensures
            r.entries@.len() == 0,
    {
        WxAllow { entries: Vec::new() }
    }
}

impl Default for WxAllowEntry {
    fn default() -> (r: Self)
        ensures
            r.vm@.len() == 0,
            r.gpa_prefix@.len() == 0,
    {
        WxAllowEntry { vm: String::new(), gpa_prefix: String::new() }
    }
}

impl Default for Pmu {
    fn default() -> (r: Self)
        ensures
            !r.enable,
            r.sample_ms == 1000,
            r.qemu_pid == 0,
            r.vm_regex@.len() == 0,
            r.rediscover_ms == 30000,
    {
        Pmu { enable: false, sample_ms: 1000, qemu_pid: 0, vm_regex: String::new(), rediscover_ms: 30000 }
    }
}

impl Default for MetricsConfig {
    fn default() -> (r: Self)
        ensures
            !r.allow_bind_failure,
    {
        MetricsConfig { allow_bind_failure: false }
    }
}

impl Default for Spool {
    fn default() -> (r: Self)
        ensures
            !r.enable,
            r.dir@ == "/var/lib/aegishv/spool"@,
            r.max_bytes == 67108864,
            r.segment_bytes == 4194304,
            r.compression == SpoolCompression::NoCompression,
    {
        Spool {
            enable: false,
            dir: owned("/var/lib/aegishv/spool"),
            max_bytes: 67108864,
            segment_bytes: 4194304,
            compression: SpoolCompression::NoCompression,
        }
    }
}

impl SpoolCompression {
    pub open spec fn name(self) -> Seq<char> {
        match self {
            SpoolCompression::NoCompression => "none"@,
            SpoolCompression::Rle => "rle"@,
        }
    }

    pub fn as_str(self) -> (r: &'static str)
        ensures
            r@ == self.name(),
    {
        match self {
            SpoolCompression::NoCompression => "none",
            SpoolCompression::Rle => "rle",
        }
    }
}

impl Default for Syslog {
    fn default() -> (r: Self)
        ensures
            !r.enable,
            r.address@ == "127.0.0.1:514"@,
            r.facility@ == "local0"@,
            r.max_message_bytes == 8192,
    {
        Syslog {
            enable: false,
            address: owned("127.0.0.1:514"),
            facility: owned("local0"),
            max_message_bytes: 8192,
        }
    }
}

impl Default for Journald {
    fn default() -> (r: Self)
        ensures
            !r.enable,
            r.socket@ == "/run/systemd/journal/socket"@,
            r.identifier@ == "aegishv"@,
            r.max_message_bytes == 8192,
    {
        Journald {
            enable: false,
            socket: owned("/run/systemd/journal/socket"),
            identifier: owned("aegishv"),
            max_message_bytes: 8192,
        }
    }
}

impl Default for Identity {
    fn default() -> (r: Self)
        ensures
            r.enable,
            r.cache_ms == 5000,
            r.qmp_socket_dirs@.len() == 3,
            r.qmp_socket_dirs@[0]@ == "/run/libvirt/qemu"@,
            r.qmp_socket_dirs@[1]@ == "/var/run/libvirt/qemu"@,
            r.qmp_socket_dirs@[2]@ == "/run/qemu"@,
            r.libvirt_xml_dir@.len() == 0,
            r.require_stable_qmp_match,
            r.min_action_confidence == IdentityConfidence::High,
    {
        let mut dirs: Vec<String> = Vec::new();
        dirs.push(owned("/run/libvirt/qemu"));
        dirs.push(owned("/var/run/libvirt/qemu"));
        dirs.push(owned("/run/qemu"));
        Identity {
            enable: true,
            cache_ms: 5000,
            qmp_socket_dirs: dirs,
            libvirt_xml_dir: String::new(),
            require_stable_qmp_match: true,
            min_action_confidence: IdentityConfidence::High,
        }
    }
}

impl Default for Actions {
    fn default() -> (r: Self)
        ensures
            r.timeout_ms == 2000,
            r.retries == 1,
            r.dump_root@ == "/var/lib/aegishv/dumps"@,
            r.qmp@.len() == 0,
    {
        Actions { timeout_ms: 2000, retries: 1, dump_root: owned("/var/lib/aegishv/dumps"), qmp: Vec::new() }
    }
}

impl Default for Policy {
    fn default() -> (r: Self)
        ensures
            r.rules@.len() == 0,
    {
        Policy { rules: Vec::new() }
    }
}

impl Default for Match {
    fn default() -> (r: Self)
        ensures
            r.category@.len() == 0,
            r.severity_at_least@.len() == 0,
            r.reason_regex@.len() == 0,
            r.vm_regex@.len() == 0,
            r.trap_type@.len() == 0,
    {
        Match {
            category: String::new(),
            severity_at_least: String::new(),
            reason_regex: String::new(),
            vm_regex: String::new(),
            trap_type: String::new(),
        }
    }
}

impl Default for Action {
    fn default() -> (r: Self)
        ensures
            r.kind@.len() == 0,
            r.output_path@.len() == 0,
            r.nic@.len() == 0,
    {
        Action { kind: String::new(), output_path: String::new(), nic: String::new() }
    }
}

impl Default for Config {
    fn default() -> (r: Self)
        ensures
            r.version == 1,
            r.general == General::default_spec(),
            r.allow.ignore_vm@.len() == 0,
            r.wx_allow.entries@.len() == 0,
            r.pmu.rediscover_ms == 30000,
            r.pmu.vm_regex@.len() == 0,
            !r.spool.enable,
            r.spool.max_bytes == 67108864,
            r.spool.segment_bytes == 4194304,
            !r.syslog.enable,
            r.syslog.facility@ == "local0"@,
            r.syslog.max_message_bytes == 8192,
            !r.journald.enable,
            r.journald.identifier@ == "aegishv"@,
            r.journald.max_message_bytes == 8192,
            r.identity.libvirt_xml_dir@.len() == 0,
            r.identity.require_stable_qmp_match,
            r.identity.min_action_confidence == IdentityConfidence::High,
            r.identity.cache_ms == 5000,
            r.actions.timeout_ms == 2000,
            r.actions.retries == 1,
            r.actions.dump_root@ == "/var/lib/aegishv/dumps"@,
            r.actions.qmp@.len() == 0,
            r.policy.rules@.len() == 0,
            r@ == default_config_view(),
    {
        let r = Config {
            version: 1,
            general: General::default(),
            allow: Allow::default(),
            wx_allow: WxAllow::default(),
            pmu: Pmu::default(),
            metrics: MetricsConfig::default(),
            spool: Spool::default(),
            syslog: Syslog::default(),
            journald: Journald::default(),
            identity: Identity::default(),
            actions: Actions::default(),
            policy: Policy::default(),
        };
        proof {
            assert(views(r.allow.ignore_vm@) =~= Seq::<Seq<char>>::empty());
            assert(views(r.identity.qmp_socket_dirs@) =~= seq!["/run/libvirt/qemu"@, "/var/run/libvirt/qemu"@, "/run/qemu"@]);
            assert(r.wx_allow.entries@.map_values(|e: WxAllowEntry| e@) =~= Seq::<WxEntryView>::empty());
            assert(r.actions.qmp@.map_values(|q: QmpMapping| q@) =~= Seq::<QmpView>::empty());
            assert(r.policy.rules@.map_values(|x: Rule| x@) =~= Seq::<RuleView>::empty());
            assert(r.pmu.vm_regex@ =~= Seq::<char>::empty());
            assert(r.identity.libvirt_xml_dir@ =~= Seq::<char>::empty());
            assert(r.pmu@ == default_config_view().pmu);
            assert(r.spool@ == default_config_view().spool);
            assert(r.syslog@ == default_config_view().syslog);
            assert(r.journald@ == default_config_view().journald);
            assert(r.identity@ == default_config_view().identity);
            assert(r.actions@ == default_config_view().actions);
        }
        r
    }
}

impl General {
    pub open spec fn default_spec() -> General {
        General {
            wx_window_ms: 5000,
            wx_cooldown_ms: 30000,
            wx_max_pages: 200000,
            page_size: 4096,
            flush_every: 64,
            quiet: false,
        }
    }
}

impl Default for Rule {
    fn default() -> (r: Self)
        ensures
            r.name@.len() == 0,
            r.id@.len() == 0,
            r.action is None,
            r.actions@.len() == 0,
            r.cooldown_ms == 0,
            r.priority == 100,
            r.mode@ == "enforce"@,
            r.enabled,
            r.match_.category@.len() == 0,
            r.match_.severity_at_least@.len() == 0,
            r.match_.reason_regex@.len() == 0,
            r.match_.vm_regex@.len() == 0,
            r.match_.trap_type@.len() == 0,
            r@ == default_rule_view(),
    {
        let r = Rule {
            name: String::new(),
            id: String::new(),
            match_: Match::default(),
            action: None,
            actions: Vec::new(),
            cooldown_ms: 0,
            priority: 100,
            mode: owned("enforce"),
            enabled: true,
        };
        proof {
            assert(r.actions@.map_values(|a: Action| a@) =~= Seq::<ActionView>::empty());
            assert(r.name@ =~= Seq::<char>::empty());
            assert(r.id@ =~= Seq::<char>::empty());
            assert(r.match_.category@ =~= Seq::<char>::empty());
            assert(r.match_.severity_at_least@ =~= Seq::<char>::empty());
            assert(r.match_.reason_regex@ =~= Seq::<char>::empty());
            assert(r.match_.vm_regex@ =~= Seq::<char>::empty());
            assert(r.match_.trap_type@ =~= Seq::<char>::empty());
        }
        r
    }
}

/// A copy of an action.
pub fn copy_action(a: &Action) -> (r: Action)
    ensures
        r == *a,
{
    Action { kind: a.kind.clone(), output_path: a.output_path.clone(), nic: a.nic.clone() }
}

/// The actions of a rule: the single `action` first, then the `actions` list.
pub open spec fn rule_actions(r: Rule) -> Seq<Action> {
    match r.action {
        Some(a) => seq![a] + r.actions@,
        None => r.actions@,
    }
}

impl Rule {
    pub fn all_actions(&self) -> (out: Vec<Action>)
        ensures
            out@ == rule_actions(*self),
    {
        let mut out: Vec<Action> = Vec::new();
        match &self.action {
            Some(a) => {
                out.push(copy_action(a));
            },
            None => {},
        }
        let ghost base = out@;
        let mut i: usize = 0;
        while i < self.actions.len()
            invariant
                i <= self.actions@.len(),
                out@ == base + self.actions@.take(i as int),
            decreases self.actions@.len() - i,
        {
            out.push(copy_action(&self.actions[i]));
            i = i + 1;
            assert(out@ =~= base + self.actions@.take(i as int));
        }
        assert(self.actions@.take(self.actions@.len() as int) =~= self.actions@);
        proof {
            if self.action is Some {
                assert(base =~= seq![self.action->0]);
            } else {
                assert(base =~= Seq::<Action>::empty());
                assert(out@ =~= self.actions@);
            }
        }
        out
    }
}

/// `v` clamped into `lo..=hi`.
pub open spec fn clamp(v: int, lo: int, hi: int) -> int {
    if v < lo {
        lo
    } else if v > hi {
        hi
    } else {
        v
    }
}

/// `v` clamped into `lo..=hi`.
pub fn clamp_u64(v: u64, lo: u64, hi: u64) -> (r: u64)
    requires
        lo <= hi,
    ensures
        r == clamp(v as int, lo as int, hi as int),
{
    if v < lo {
        lo
    } else if v > hi {
        hi
    } else {
        v
    }
}

/// `v` clamped into `lo..=hi`.
pub fn clamp_usize(v: usize, lo: usize, hi: usize) -> (r: usize)
    requires
        lo <= hi,
    ensures
        r == clamp(v as int, lo as int, hi as int),
{
    if v < lo {
        lo
    } else if v > hi {
        hi
    } else {
        v
    }
}

/// The syslog facility code of a facility name (ignoring surrounding blanks and case).
pub open spec fn facility_code(f: Seq<char>) -> Option<u8> {
    let n = ascii_lower(trim(f));
    if n == "user"@ {
        Some(1u8)
    } else if n == "daemon"@ {
        Some(3u8)
    } else if n == "local0"@ {
        Some(16u8)
    } else if n == "local1"@ {
        Some(17u8)
    } else if n == "local2"@ {
        Some(18u8)
    } else if n == "local3"@ {
        Some(19u8)
    } else if n == "local4"@ {
        Some(20u8)
    } else if n == "local5"@ {
        Some(21u8)
    } else if n == "local6"@ {
        Some(22u8)
    } else if n == "local7"@ {
        Some(23u8)
    } else {
        None
    }
}

pub fn syslog_facility_code(facility: &str) -> (r: Option<u8>)
    ensures
        r == facility_code(facility@),
{
    let t = crate::text::trim_owned(facility);
    let v = to_ascii_lower(t.as_str());
    if eq_lit(&v, "user") {
        Some(1)
    } else if eq_lit(&v, "daemon") {
        Some(3)
    } else if eq_lit(&v, "local0") {
        Some(16)
    } else if eq_lit(&v, "local1") {
        Some(17)
    } else if eq_lit(&v, "local2") {
        Some(18)
    } else if eq_lit(&v, "local3") {
        Some(19)
    } else if eq_lit(&v, "local4") {
        Some(20)
    } else if eq_lit(&v, "local5") {
        Some(21)
    } else if eq_lit(&v, "local6") {
        Some(22)
    } else if eq_lit(&v, "local7") {
        Some(23)
    } else {
        None
    }
}

/// A character allowed in a journald identifier.
pub open spec fn journald_ident_char(c: char) -> bool {
    ('a' <= c && c <= 'z') || ('A' <= c && c <= 'Z') || ('0' <= c && c <= '9') || c == '.' || c
        == '_' || c == '-'
}

/// 1 to 64 ASCII letters, digits, `.`, `_` or `-`.
pub open spec fn safe_journald_identifier(s: Seq<char>) -> bool {
    1 <= s.len() <= 64 && forall|i: int| 0 <= i < s.len() ==> journald_ident_char(#[trigger] s[i])
}

pub fn is_safe_journald_identifier(identifier: &str) -> (r: bool)
    ensures
        r == safe_journald_identifier(identifier@),
{
    let v = crate::text::to_chars(identifier);
    if v.len() < 1 || v.len() > 64 {
        return false;
    }
    let mut i: usize = 0;
    while i < v.len()
        invariant
            v@ == identifier@,
            i <= v@.len(),
            forall|k: int| 0 <= k < i ==> journald_ident_char(#[trigger] v@[k]),
        decreases v@.len() - i,
    {
        let c = v[i];
        if !(('a' <= c && c <= 'z') || ('A' <= c && c <= 'Z') || ('0' <= c && c <= '9') || c == '.'
            || c == '_' || c == '-') {
            return false;
        }
        i = i + 1;
    }
    true
}

/// The first error of `a`, else that of `b`.
pub open spec fn or_else(a: Option<Seq<char>>, b: Option<Seq<char>>) -> Option<Seq<char>> {
    if a is Some {
        a
    } else {
        b
    }
}

/// The first error that `f` reports for an item of `s`.
pub open spec fn first_err<A>(s: Seq<A>, f: spec_fn(A) -> Option<Seq<char>>) -> Option<Seq<char>>
    decreases s.len(),
{
    if s.len() == 0 {
        None
    } else {
        or_else(first_err(s.drop_last(), f), f(s.last()))
    }
}

pub proof fn lemma_first_err_step<A>(s: Seq<A>, f: spec_fn(A) -> Option<Seq<char>>, i: int)
    requires
        0 <= i < s.len(),
        first_err(s.take(i), f) is None,
    ensures
        first_err(s.take(i + 1), f) == f(s[i]),
{
    assert(s.take(i + 1).drop_last() =~= s.take(i));
}

pub proof fn lemma_first_err_prefix<A>(s: Seq<A>, f: spec_fn(A) -> Option<Seq<char>>, i: int)
    requires
        0 <= i <= s.len(),
        first_err(s.take(i), f) is Some,
    ensures
        first_err(s, f) == first_err(s.take(i), f),
    decreases s.len() - i,
{
    if i < s.len() {
        assert(s.take(i + 1).drop_last() =~= s.take(i));
        lemma_first_err_prefix(s, f, i + 1);
    } else {
        assert(s.take(i) =~= s);
    }
}

/// `msg` when the pattern does not compile.
pub open spec fn pattern_err(src: Seq<char>, msg: Seq<char>) -> Option<Seq<char>> {
    if compilable(src) {
        None
    } else {
        Some(msg)
    }
}

/// The blank-or-compiles check of an optional pattern.
pub open spec fn opt_pattern_err(src: Seq<char>, msg: Seq<char>) -> Option<Seq<char>> {
    if trim(src).len() > 0 {
        pattern_err(src, msg)
    } else {
        None
    }
}

pub open spec fn ignore_vm_err(p: String) -> Option<Seq<char>> {
    pattern_err(
        p@,
        "invalid allow.ignore_vm pattern '"@ + p@ + "': "@ + unsupported_syntax_message(),
    )
}

pub open spec fn wx_entry_err(e: WxAllowEntry) -> Option<Seq<char>> {
    or_else(
        opt_pattern_err(
            e.vm@,
            "invalid wx_allow vm pattern '"@ + e.vm@ + "': "@ + unsupported_syntax_message(),
        ),
        if trim(e.gpa_prefix@).len() > 0 && !starts_with(e.gpa_prefix@, "0x"@) {
            Some("invalid wx_allow gpa_prefix '"@ + e.gpa_prefix@ + "': expected 0x prefix"@)
        } else {
            None
        },
    )
}

pub open spec fn qmp_err(q: QmpMapping) -> Option<Seq<char>> {
    if trim(q.socket@).len() == 0 {
        Some("actions.qmp socket must not be empty"@)
    } else if trim(q.vm_id@).len() == 0 && trim(q.vm@).len() == 0 {
        Some("actions.qmp requires vm_id or vm pattern"@)
    } else {
        or_else(
            opt_pattern_err(
                q.vm_id@,
                "invalid actions.qmp vm_id pattern '"@ + q.vm_id@ + "': "@
                    + unsupported_syntax_message(),
            ),
            opt_pattern_err(
                q.vm@,
                "invalid actions.qmp vm pattern '"@ + q.vm@ + "': "@ + unsupported_syntax_message(),
            ),
        )
    }
}

/// The error for an action of rule `rule`, if it is invalid.
pub open spec fn action_err(a: Action, rule: Seq<char>) -> Option<Seq<char>> {
    let k = a.kind@;
    if k == "pause_vm"@ || k == "resume_vm"@ || k == "manual_approval"@ || k == "noop"@ {
        None
    } else if k == "dump_guest_memory"@ {
        if trim(a.output_path@).len() == 0 {
            Some("dump_guest_memory requires action.output_path in rule '"@ + rule + "'"@)
        } else {
            None
        }
    } else if k == "quarantine_nic"@ {
        if trim(a.nic@).len() == 0 {
            Some("quarantine_nic requires action.nic in rule '"@ + rule + "'"@)
        } else {
            None
        }
    } else {
        Some("invalid action kind '"@ + k + "' in rule '"@ + rule + "'"@)
    }
}

pub open spec fn rule_err(r: Rule) -> Option<Seq<char>> {
    let m = r.match_;
    let name = r.name@;
    if !(r.mode@ == "enforce"@ || r.mode@ == "dry_run"@ || r.mode@ == "suppress"@) {
        Some("invalid mode '"@ + r.mode@ + "' in rule '"@ + name + "'"@)
    } else if trim(m.category@).len() > 0 && category_parse(m.category@) is None {
        Some("invalid category '"@ + m.category@ + "' in rule '"@ + name + "'"@)
    } else if trim(m.severity_at_least@).len() > 0 && severity_parse(m.severity_at_least@) is None {
        Some("invalid severity '"@ + m.severity_at_least@ + "' in rule '"@ + name + "'"@)
    } else {
        or_else(
            opt_pattern_err(
                m.reason_regex@,
                "invalid reason_regex '"@ + m.reason_regex@ + "' in rule '"@ + name + "': "@
                    + unsupported_syntax_message(),
            ),
            or_else(
                opt_pattern_err(
                    m.vm_regex@,
                    "invalid vm_regex '"@ + m.vm_regex@ + "' in rule '"@ + name + "': "@
                        + unsupported_syntax_message(),
                ),
                first_err(rule_actions(r), |a: Action| action_err(a, name)),
            ),
        )
    }
}

/// `msg` unless `lo <= v <= hi`.
pub open spec fn range_err(v: int, lo: int, hi: int, msg: Seq<char>) -> Option<Seq<char>> {
    if lo <= v <= hi {
        None
    } else {
        Some(msg)
    }
}

/// The first problem of a configuration, in the order in which it is checked.
/// `xml_dir_exists` tells whether the libvirt XML directory exists and
/// `address_parses` whether the syslog address is a numeric `ip:port`.
pub open spec fn config_error(c: Config, xml_dir_exists: bool, address_parses: bool) -> Option<
    Seq<char>,
> {
    let e1 = first_err(c.allow.ignore_vm@, |p: String| ignore_vm_err(p));
    let e2 = first_err(c.wx_allow.entries@, |e: WxAllowEntry| wx_entry_err(e));
    let e3 = opt_pattern_err(
        c.pmu.vm_regex@,
        "invalid pmu.vm_regex '"@ + c.pmu.vm_regex@ + "': "@ + unsupported_syntax_message(),
    );
    let e4 = range_err(
        c.pmu.rediscover_ms as int,
        PMU_REDISCOVER_MS_MIN as int,
        PMU_REDISCOVER_MS_MAX as int,
        "invalid pmu.rediscover_ms "@ + dec(c.pmu.rediscover_ms as nat)
            + ": expected 1000..=3600000 milliseconds"@,
    );
    let e5 = if c.spool.enable && trim(c.spool.dir@).len() == 0 {
        Some("invalid spool.dir: enabled spool requires a non-empty directory"@)
    } else {
        None
    };
    let e6 = if trim(c.identity.libvirt_xml_dir@).len() > 0 && !xml_dir_exists {
        Some(
            "invalid identity.libvirt_xml_dir '"@ + c.identity.libvirt_xml_dir@
                + "': expected an existing directory of mocked libvirt domain XML files"@,
        )
    } else {
        None
    };
    let e7 = if c.identity.min_action_confidence == IdentityConfidence::Low {
        Some(low_confidence_message())
    } else {
        None
    };
    let e8 = range_err(
        c.spool.max_bytes as int,
        SPOOL_MAX_BYTES_MIN as int,
        SPOOL_MAX_BYTES_MAX as int,
        "invalid spool.max_bytes "@ + dec(c.spool.max_bytes as nat)
            + ": expected 4096..=1099511627776 bytes"@,
    );
    let e9 = range_err(
        c.spool.segment_bytes as int,
        SPOOL_SEGMENT_BYTES_MIN as int,
        c.spool.max_bytes as int,
        "invalid spool.segment_bytes "@ + dec(c.spool.segment_bytes as nat) + ": expected 4096..="@
            + dec(c.spool.max_bytes as nat) + " bytes"@,
    );
    let e10 = if c.syslog.enable && trim(c.syslog.address@).len() == 0 {
        Some("invalid syslog.address: enabled syslog requires an ip:port target"@)
    } else if c.syslog.enable && !address_parses {
        Some("invalid syslog.address '"@ + c.syslog.address@ + "': expected numeric ip:port"@)
    } else {
        None
    };
    let e11 = if facility_code(c.syslog.facility@) is None {
        Some(
            "invalid syslog.facility '"@ + c.syslog.facility@
                + "': expected user, daemon, or local0..local7"@,
        )
    } else {
        None
    };
    let e12 = range_err(
        c.syslog.max_message_bytes as int,
        SYSLOG_MAX_MESSAGE_BYTES_MIN as int,
        SYSLOG_MAX_MESSAGE_BYTES_MAX as int,
        "invalid syslog.max_message_bytes "@ + dec(c.syslog.max_message_bytes as nat)
            + ": expected 512..=65507 bytes"@,
    );
    let e13 = if c.journald.enable && trim(c.journald.socket@).len() == 0 {
        Some("invalid journald.socket: enabled journald requires a non-empty socket path"@)
    } else {
        None
    };
    let e14 = if !safe_journald_identifier(c.journald.identifier@) {
        Some(
            "invalid journald.identifier '"@ + c.journald.identifier@
                + "': expected 1..=64 ASCII letters, digits, '.', '_' or '-'"@,
        )
    } else {
        None
    };
    let e15 = range_err(
        c.journald.max_message_bytes as int,
        JOURNALD_MAX_MESSAGE_BYTES_MIN as int,
        JOURNALD_MAX_MESSAGE_BYTES_MAX as int,
        "invalid journald.max_message_bytes "@ + dec(c.journald.max_message_bytes as nat)
            + ": expected 512..=65536 bytes"@,
    );
    let e16 = first_err(c.actions.qmp@, |q: QmpMapping| qmp_err(q));
    let e17 = first_err(c.policy.rules@, |r: Rule| rule_err(r));
    or_else(e1, or_else(e2, or_else(e3, or_else(e4, or_else(e5, or_else(e6, or_else(e7,
    or_else(e8, or_else(e9, or_else(e10, or_else(e11, or_else(e12, or_else(e13, or_else(e14,
    or_else(e15, or_else(e16, e17))))))))))))))))
}

/// Refusal of a low action-confidence threshold.
pub open spec fn low_confidence_message() -> Seq<char> {
    "invalid identity.min_action_confidence: low confidence cannot authorize QMP actions"@
}

fn pattern_error_message(prefix: &str, src: &str, suffix: &str) -> (r: Option<String>)
    ensures
        r is None <==> compilable(src@),
        r matches Some(m) ==> m@ == prefix@ + src@ + suffix@ + unsupported_syntax_message(),
{
    match Pattern::compile(src) {
        Ok(_) => None,
        Err(e) => {
            let mut m = cat3(prefix, src, suffix);
            push_str(&mut m, e.as_str());
            Some(m)
        },
    }
}

fn opt_compile_error(prefix: &str, src: &str, suffix: &str) -> (r: Option<String>)
    ensures
        opt_pattern_err(src@, prefix@ + src@ + suffix@ + unsupported_syntax_message()) == match r {
            Some(m) => Some(m@),
            None => None,
        },
{
    if is_blank(src) {
        None
    } else {
        pattern_error_message(prefix, src, suffix)
    }
}

/// The view of an optional message.
pub open spec fn msg_view(r: Option<String>) -> Option<Seq<char>> {
    match r {
        Some(m) => Some(m@),
        None => None,
    }
}

fn validate_action(a: &Action, rule: &str) -> (r: Result<(), String>)
    ensures
        match r {
            Ok(()) => action_err(*a, rule@) is None,
            Err(m) => action_err(*a, rule@) == Some(m@),
        },
{
    let k = a.kind.as_str();
    if str_eq(k, "pause_vm") || str_eq(k, "resume_vm") || str_eq(k, "manual_approval") || str_eq(
        k,
        "noop",
    ) {
        Ok(())
    } else if str_eq(k, "dump_guest_memory") {
        if is_blank(a.output_path.as_str()) {
            Err(cat3("dump_guest_memory requires action.output_path in rule '", rule, "'"))
        } else {
            Ok(())
        }
    } else if str_eq(k, "quarantine_nic") {
        if is_blank(a.nic.as_str()) {
            Err(cat3("quarantine_nic requires action.nic in rule '", rule, "'"))
        } else {
            Ok(())
        }
    } else {
        Err(cat5("invalid action kind '", k, "' in rule '", rule, "'"))
    }
}

fn wx_entry_error(e: &WxAllowEntry) -> (r: Option<String>)
    ensures
        msg_view(r) == wx_entry_err(*e),
{
    let a = opt_compile_error("invalid wx_allow vm pattern '", e.vm.as_str(), "': ");
    if a.is_some() {
        return a;
    }
    if !is_blank(e.gpa_prefix.as_str()) && !str_starts_with(e.gpa_prefix.as_str(), "0x") {
        return Some(cat3("invalid wx_allow gpa_prefix '", e.gpa_prefix.as_str(), "': expected 0x prefix"));
    }
    None
}

fn qmp_error(q: &QmpMapping) -> (r: Option<String>)
    ensures
        msg_view(r) == qmp_err(*q),
{
    if is_blank(q.socket.as_str()) {
        return Some(owned("actions.qmp socket must not be empty"));
    }
    if is_blank(q.vm_id.as_str()) && is_blank(q.vm.as_str()) {
        return Some(owned("actions.qmp requires vm_id or vm pattern"));
    }
    let a = opt_compile_error("invalid actions.qmp vm_id pattern '", q.vm_id.as_str(), "': ");
    if a.is_some() {
        return a;
    }
    opt_compile_error("invalid actions.qmp vm pattern '", q.vm.as_str(), "': ")
}

fn rule_error(r: &Rule) -> (e: Option<String>)
    ensures
        msg_view(e) == rule_err(*r),
{
    let name = r.name.as_str();
    let m = &r.match_;
    let mode = r.mode.as_str();
    if !(str_eq(mode, "enforce") || str_eq(mode, "dry_run") || str_eq(mode, "suppress")) {
        return Some(cat5("invalid mode '", mode, "' in rule '", name, "'"));
    }
    if !is_blank(m.category.as_str()) && category_from_str(m.category.as_str()).is_none() {
        return Some(cat5("invalid category '", m.category.as_str(), "' in rule '", name, "'"));
    }
    if !is_blank(m.severity_at_least.as_str()) && severity_from_str(m.severity_at_least.as_str()).is_none() {
        return Some(cat5("invalid severity '", m.severity_at_least.as_str(), "' in rule '", name, "'"));
    }
    if !is_blank(m.reason_regex.as_str()) {
        match Pattern::compile(m.reason_regex.as_str()) {
            Ok(_) => {},
            Err(err) => {
                let mut msg = cat5("invalid reason_regex '", m.reason_regex.as_str(), "' in rule '", name, "': ");
                push_str(&mut msg, err.as_str());
                return Some(msg);
            },
        }
    }
    if !is_blank(m.vm_regex.as_str()) {
        match Pattern::compile(m.vm_regex.as_str()) {
            Ok(_) => {},
            Err(err) => {
                let mut msg = cat5("invalid vm_regex '", m.vm_regex.as_str(), "' in rule '", name, "': ");
                push_str(&mut msg, err.as_str());
                return Some(msg);
            },
        }
    }
    let actions = r.all_actions();
    let e = first_action_error(&actions, name);
    proof {
        assert((|a: Action| action_err(a, r.name@)) =~= (|a: Action| action_err(a, name@)));
    }
    e
}

fn first_action_error(actions: &Vec<Action>, rule: &str) -> (e: Option<String>)
    ensures
        msg_view(e) == first_err(actions@, |a: Action| action_err(a, rule@)),
{
    let ghost f = |a: Action| action_err(a, rule@);
    let mut i: usize = 0;
    while i < actions.len()
        invariant
            i <= actions@.len(),
            f == (|a: Action| action_err(a, rule@)),
            first_err(actions@.take(i as int), f) is None,
        decreases actions@.len() - i,
    {
        proof {
            lemma_first_err_step(actions@, f, i as int);
        }
        match validate_action(&actions[i], rule) {
            Ok(()) => {},
            Err(msg) => {
                proof {
                    lemma_first_err_prefix(actions@, f, i as int + 1);
                }
                return Some(msg);
            },
        }
        i = i + 1;
    }
    proof {
        assert(actions@.take(actions@.len() as int) =~= actions@);
    }
    None
}

fn first_ignore_vm_error(v: &Vec<String>) -> (e: Option<String>)
    ensures
        msg_view(e) == first_err(v@, |p: String| ignore_vm_err(p)),
{
    let ghost f = |p: String| ignore_vm_err(p);
    let mut i: usize = 0;
    while i < v.len()
        invariant
            i <= v@.len(),
            f == (|p: String| ignore_vm_err(p)),
            first_err(v@.take(i as int), f) is None,
        decreases v@.len() - i,
    {
        proof {
            lemma_first_err_step(v@, f, i as int);
        }
        match pattern_error_message("invalid allow.ignore_vm pattern '", v[i].as_str(), "': ") {
            Some(m) => {
                proof {
                    lemma_first_err_prefix(v@, f, i as int + 1);
                }
                return Some(m);
            },
            None => {},
        }
        i = i + 1;
    }
    proof {
        assert(v@.take(v@.len() as int) =~= v@);
    }
    None
}

fn first_wx_entry_error(v: &Vec<WxAllowEntry>) -> (e: Option<String>)
    ensures
        msg_view(e) == first_err(v@, |x: WxAllowEntry| wx_entry_err(x)),
{
    let ghost f = |x: WxAllowEntry| wx_entry_err(x);
    let mut i: usize = 0;
    while i < v.len()
        invariant
            i <= v@.len(),
            f == (|x: WxAllowEntry| wx_entry_err(x)),
            first_err(v@.take(i as int), f) is None,
        decreases v@.len() - i,
    {
        proof {
            lemma_first_err_step(v@, f, i as int);
        }
        match wx_entry_error(&v[i]) {
            Some(m) => {
                proof {
                    lemma_first_err_prefix(v@, f, i as int + 1);
                }
                return Some(m);
            },
            None => {},
        }
        i = i + 1;
    }
    proof {
        assert(v@.take(v@.len() as int) =~= v@);
    }
    None
}

fn first_qmp_error(v: &Vec<QmpMapping>) -> (e: Option<String>)
    ensures
        msg_view(e) == first_err(v@, |x: QmpMapping| qmp_err(x)),
{
    let ghost f = |x: QmpMapping| qmp_err(x);
    let mut i: usize = 0;
    while i < v.len()
        invariant
            i <= v@.len(),
            f == (|x: QmpMapping| qmp_err(x)),
            first_err(v@.take(i as int), f) is None,
        decreases v@.len() - i,
    {
        proof {
            lemma_first_err_step(v@, f, i as int);
        }
        match qmp_error(&v[i]) {
            Some(m) => {
                proof {
                    lemma_first_err_prefix(v@, f, i as int + 1);
                }
                return Some(m);
            },
            None => {},
        }
        i = i + 1;
    }
    proof {
        assert(v@.take(v@.len() as int) =~= v@);
    }
    None
}

fn first_rule_error(v: &Vec<Rule>) -> (e: Option<String>)
    ensures
        msg_view(e) == first_err(v@, |x: Rule| rule_err(x)),
{
    let ghost f = |x: Rule| rule_err(x);
    let mut i: usize = 0;
    while i < v.len()
        invariant
            i <= v@.len(),
            f == (|x: Rule| rule_err(x)),
            first_err(v@.take(i as int), f) is None,
        decreases v@.len() - i,
    {
        proof {
            lemma_first_err_step(v@, f, i as int);
        }
        match rule_error(&v[i]) {
            Some(m) => {
                proof {
                    lemma_first_err_prefix(v@, f, i as int + 1);
                }
                return Some(m);
            },
            None => {},
        }
        i = i + 1;
    }
    proof {
        assert(v@.take(v@.len() as int) =~= v@);
    }
    None
}

impl Config {
    /// Validates the configuration; `libvirt_xml_dir_exists` tells whether the
    /// configured libvirt XML directory exists, and `syslog_address_parses`
    /// whether the syslog address is a numeric `ip:port`.
    pub fn validate(&self, libvirt_xml_dir_exists: bool, syslog_address_parses: bool) -> (r: Result<
        (),
        String,
    >)
        ensures
            match r {
                Ok(()) => config_error(*self, libvirt_xml_dir_exists, syslog_address_parses) is None,
                Err(m) => config_error(*self, libvirt_xml_dir_exists, syslog_address_parses) == Some(
                    m@,
                ),
            },
    {
        match first_ignore_vm_error(&self.allow.ignore_vm) {
            Some(m) => {
                return Err(m);
            },
            None => {},
        }
        match first_wx_entry_error(&self.wx_allow.entries) {
            Some(m) => {
                return Err(m);
            },
            None => {},
        }
        match opt_compile_error("invalid pmu.vm_regex '", self.pmu.vm_regex.as_str(), "': ") {
            Some(m) => {
                return Err(m);
            },
            None => {},
        }
        if !(PMU_REDISCOVER_MS_MIN <= self.pmu.rediscover_ms && self.pmu.rediscover_ms
            <= PMU_REDISCOVER_MS_MAX) {
            let n = u64_to_dec(self.pmu.rediscover_ms);
            return Err(cat3("invalid pmu.rediscover_ms ", n.as_str(), ": expected 1000..=3600000 milliseconds"));
        }
        if self.spool.enable && is_blank(self.spool.dir.as_str()) {
            return Err(owned("invalid spool.dir: enabled spool requires a non-empty directory"));
        }
        if !is_blank(self.identity.libvirt_xml_dir.as_str()) && !libvirt_xml_dir_exists {
            return Err(
                cat3(
                    "invalid identity.libvirt_xml_dir '",
                    self.identity.libvirt_xml_dir.as_str(),
                    "': expected an existing directory of mocked libvirt domain XML files",
                ),
            );
        }
        if self.identity.min_action_confidence == IdentityConfidence::Low {
            return Err(owned("invalid identity.min_action_confidence: low confidence cannot authorize QMP actions"));
        }
        if !(SPOOL_MAX_BYTES_MIN <= self.spool.max_bytes && self.spool.max_bytes <= SPOOL_MAX_BYTES_MAX) {
            let n = u64_to_dec(self.spool.max_bytes);
            return Err(cat3("invalid spool.max_bytes ", n.as_str(), ": expected 4096..=1099511627776 bytes"));
        }
        if !(SPOOL_SEGMENT_BYTES_MIN <= self.spool.segment_bytes && self.spool.segment_bytes
            <= self.spool.max_bytes) {
            let n = u64_to_dec(self.spool.segment_bytes);
            let mx = u64_to_dec(self.spool.max_bytes);
            return Err(cat5("invalid spool.segment_bytes ", n.as_str(), ": expected 4096..=", mx.as_str(), " bytes"));
        }
        if self.syslog.enable {
            if is_blank(self.syslog.address.as_str()) {
                return Err(owned("invalid syslog.address: enabled syslog requires an ip:port target"));
            }
            if !syslog_address_parses {
                return Err(cat3("invalid syslog.address '", self.syslog.address.as_str(), "': expected numeric ip:port"));
            }
        }
        if syslog_facility_code(self.syslog.facility.as_str()).is_none() {
            return Err(cat3("invalid syslog.facility '", self.syslog.facility.as_str(), "': expected user, daemon, or local0..local7"));
        }
        if !(SYSLOG_MAX_MESSAGE_BYTES_MIN <= self.syslog.max_message_bytes
            && self.syslog.max_message_bytes <= SYSLOG_MAX_MESSAGE_BYTES_MAX) {
            let n = u64_to_dec(self.syslog.max_message_bytes as u64);
            return Err(cat3("invalid syslog.max_message_bytes ", n.as_str(), ": expected 512..=65507 bytes"));
        }
        if self.journald.enable && is_blank(self.journald.socket.as_str()) {
            return Err(owned("invalid journald.socket: enabled journald requires a non-empty socket path"));
        }
        if !is_safe_journald_identifier(self.journald.identifier.as_str()) {
            return Err(cat3("invalid journald.identifier '", self.journald.identifier.as_str(), "': expected 1..=64 ASCII letters, digits, '.', '_' or '-'"));
        }
        if !(JOURNALD_MAX_MESSAGE_BYTES_MIN <= self.journald.max_message_bytes
            && self.journald.max_message_bytes <= JOURNALD_MAX_MESSAGE_BYTES_MAX) {
            let n = u64_to_dec(self.journald.max_message_bytes as u64);
            return Err(cat3("invalid journald.max_message_bytes ", n.as_str(), ": expected 512..=65536 bytes"));
        }
        match first_qmp_error(&self.actions.qmp) {
            Some(m) => {
                return Err(m);
            },
            None => {},
        }
        match first_rule_error(&self.policy.rules) {
            Some(m) => {
                return Err(m);
            },
            None => {},
        }
        Ok(())
    }
}

/// The id a rule gets from normalisation: its own, or `rule-<n>` (1-based) when blank.
pub open spec fn normalized_rule_id(r: Rule, idx: int) -> Seq<char> {
    if trim(r.id@).len() == 0 {
        "rule-"@ + dec((idx + 1) as nat)
    } else {
        r.id@
    }
}

/// The name a rule gets from normalisation: its own, or its id when blank.
pub open spec fn normalized_rule_name(r: Rule, idx: int) -> Seq<char> {
    if trim(r.name@).len() == 0 {
        normalized_rule_id(r, idx)
    } else {
        r.name@
    }
}

/// The page size after normalisation: a supported size, else 4096.
pub open spec fn normalized_page_size(p: u64) -> u64 {
    if p == 4096 || p == 2097152 || p == 1073741824 {
        p
    } else {
        4096
    }
}

impl Config {
    /// Clamps the numeric settings into their supported ranges and gives
    /// rules without an id or name a default one.
    pub fn normalize(&mut self)
        ensures
            final(self).general.wx_window_ms == clamp(old(self).general.wx_window_ms as int, 1, 86400000),
            final(self).general.wx_cooldown_ms == clamp(old(self).general.wx_cooldown_ms as int, 0, 86400000),
            final(self).general.wx_max_pages == clamp(old(self).general.wx_max_pages as int, 1024, 10000000),
            final(self).general.flush_every == clamp(old(self).general.flush_every as int, 1, 8192),
            final(self).general.page_size == normalized_page_size(old(self).general.page_size),
            final(self).general.quiet == old(self).general.quiet,
            final(self).pmu == (Pmu { sample_ms: final(self).pmu.sample_ms, ..old(self).pmu }),
            final(self).pmu.sample_ms == clamp(old(self).pmu.sample_ms as int, 100, 60000),
            final(self).identity == (Identity { cache_ms: final(self).identity.cache_ms, ..old(self).identity }),
            final(self).identity.cache_ms == clamp(old(self).identity.cache_ms as int, 100, 300000),
            final(self).actions == (Actions {
                timeout_ms: final(self).actions.timeout_ms,
                retries: final(self).actions.retries,
                ..old(self).actions
            }),
            final(self).actions.timeout_ms == clamp(old(self).actions.timeout_ms as int, 100, 120000),
            final(self).actions.retries == (if old(self).actions.retries > 10 {
                10
            } else {
                old(self).actions.retries
            }),
            final(self).version == old(self).version,
            final(self).allow == old(self).allow,
            final(self).wx_allow == old(self).wx_allow,
            final(self).metrics == old(self).metrics,
            final(self).spool == old(self).spool,
            final(self).syslog == old(self).syslog,
            final(self).journald == old(self).journald,
            final(self).policy.rules@.len() == old(self).policy.rules@.len(),
            forall|i: int|
                0 <= i < old(self).policy.rules@.len() ==> {
                    let r = #[trigger] final(self).policy.rules@[i];
                    let o = old(self).policy.rules@[i];
                    &&& r == (Rule { id: r.id, name: r.name, ..o })
                    &&& r.id@ == normalized_rule_id(o, i)
                    &&& r.name@ == normalized_rule_name(o, i)
                },
    {
        self.general.wx_window_ms = clamp_u64(self.general.wx_window_ms, 1, 86400000);
        self.general.wx_cooldown_ms = clamp_u64(self.general.wx_cooldown_ms, 0, 86400000);
        self.general.wx_max_pages = clamp_usize(self.general.wx_max_pages, 1024, 10000000);
        self.general.flush_every = clamp_usize(self.general.flush_every, 1, 8192);
        let p = self.general.page_size;
        if !(p == 4096 || p == 2097152 || p == 1073741824) {
            self.general.page_size = 4096;
        }
        self.pmu.sample_ms = clamp_u64(self.pmu.sample_ms, 100, 60000);
        self.identity.cache_ms = clamp_u64(self.identity.cache_ms, 100, 300000);
        self.actions.timeout_ms = clamp_u64(self.actions.timeout_ms, 100, 120000);
        if self.actions.retries > 10 {
            self.actions.retries = 10;
        }
        let mut rules: Vec<Rule> = Vec::new();
        std::mem::swap(&mut rules, &mut self.policy.rules);
        let n = rules.len();
        let ghost orig = rules@;
        let mut i: usize = 0;
        while i < n
            invariant
                n == orig.len(),
                i <= n,
                rules@.len() == n,
                forall|k: int| i <= k < n ==> #[trigger] rules@[k] == orig[k],
                forall|k: int|
                    0 <= k < i ==> {
                        let r = #[trigger] rules@[k];
                        let o = orig[k];
                        &&& r == (Rule { id: r.id, name: r.name, ..o })
                        &&& r.id@ == normalized_rule_id(o, k)
                        &&& r.name@ == normalized_rule_name(o, k)
                    },
            decreases n - i,
        {
            let mut r = rules.remove(i);
            if is_blank(r.id.as_str()) {
                let num = u64_to_dec((i as u64) + 1);
                let mut id = owned("rule-");
                push_str(&mut id, num.as_str());
                r.id = id;
            }
            if is_blank(r.name.as_str()) {
                r.name = r.id.clone();
            }
            rules.insert(i, r);
            i = i + 1;
        }
        self.policy.rules = rules;
    }
}

} // verus!
