//! The policy that the control plane may change while the node runs.
//!
//! The live configuration carries a version. A pushed update is taken only if
//! its version is higher; fields that the update leaves out stay as they are.
//! The allow-list of ports is never empty: an update that would empty it is
//! refused as a whole. The heartbeat interval is never zero.

use std::collections::HashSet;
use vstd::prelude::*;

verus! {

broadcast use vstd::std_specs::hash::group_hash_axioms;

/// The shortest heartbeat interval, in seconds.
pub const MIN_HEARTBEAT_INTERVAL: u32 = 1;

/// The hot-reloadable policy.
pub struct DynamicConfig {
    heartbeat_interval: u32,
    allowed_ports: Vec<u16>,
    timestamp_tolerance: u32,
    log_level: String,
    config_version: u64,
}

/// The policy as plain mathematical values.
pub struct DynamicConfigView {
    pub heartbeat_interval: u32,
    pub allowed_ports: Seq<u16>,
    pub timestamp_tolerance: u32,
    pub log_level: Seq<char>,
    pub config_version: u64,
}

/// What the node is started with and keeps until it ends.
pub struct StaticConfig {
    /// The base URL of the control plane.
    pub aether_url: String,
    /// The bearer token for the control plane.
    pub management_token: String,
    /// The key that requests are signed with.
    pub hmac_key: Vec<u8>,
    pub listen_port: u16,
    /// The public address of the node, where it is pinned.
    pub public_ip: Option<String>,
    pub node_name: String,
    pub node_region: Option<String>,
    /// The seconds between two heartbeats, to start with.
    pub heartbeat_interval: u32,
    /// The allowed target ports, to start with.
    pub allowed_ports: Vec<u16>,
    /// The tolerance for request timestamps in seconds, to start with.
    pub timestamp_tolerance: u32,
    pub enable_tls: bool,
    pub tls_cert: String,
    pub tls_key: String,
    pub log_level: String,
    pub log_json: bool,
}

/// An update pushed by the control plane. A field that is `None` is left as
/// it is.
pub struct RemoteConfig {
    pub heartbeat_interval: Option<u32>,
    pub allowed_ports: Option<Vec<u16>>,
    pub timestamp_tolerance: Option<u32>,
    pub log_level: Option<String>,
}

/// An update as plain mathematical values.
pub struct RemoteConfigView {
    pub heartbeat_interval: Option<u32>,
    pub allowed_ports: Option<Seq<u16>>,
    pub timestamp_tolerance: Option<u32>,
    pub log_level: Option<Seq<char>>,
}

/// What one request reads of the policy, taken at one moment.
pub struct Snapshot {
    pub allowed_ports: HashSet<u16>,
    pub timestamp_tolerance: u32,
    pub heartbeat_interval: u32,
    pub config_version: u64,
}

/// What became of a pushed update.
#[derive(Clone, Copy, Debug, PartialEq, Eq)]
pub enum ApplyOutcome {
    /// The version was not higher than the live one: nothing changed.
    Stale,
    /// The update would have emptied the allow-list: nothing changed.
    Rejected,
    /// The update was taken.
    Applied {
        /// The log level is now another one: the caller reloads its logger.
        log_level_changed: bool,
    },
}

impl View for RemoteConfig {
    type V = RemoteConfigView;

    open spec fn view(&self) -> RemoteConfigView {
        RemoteConfigView {
            heartbeat_interval: self.heartbeat_interval,
            allowed_ports: match self.allowed_ports {
                Some(p) => Some(p@),
                None => None,
            },
            timestamp_tolerance: self.timestamp_tolerance,
            log_level: match self.log_level {
                Some(l) => Some(l@),
                None => None,
            },
        }
    }
}

impl View for DynamicConfig {
    type V = DynamicConfigView;

    closed spec fn view(&self) -> DynamicConfigView {
        DynamicConfigView {
            heartbeat_interval: self.heartbeat_interval,
            allowed_ports: self.allowed_ports@,
            timestamp_tolerance: self.timestamp_tolerance,
            log_level: self.log_level@,
            config_version: self.config_version,
        }
    }
}

/// The interval that is used for a wanted one: at least the minimum.
pub open spec fn clamped_interval(wanted: u32) -> u32 {
    if wanted < MIN_HEARTBEAT_INTERVAL {
        MIN_HEARTBEAT_INTERVAL
    } else {
        wanted
    }
}

/// The ports that an allow-list holds.
pub open spec fn port_set(ports: Seq<u16>) -> Set<u16> {
    Set::new(|p: u16| exists|k: int| 0 <= k < ports.len() && ports[k] == p)
}

/// What holds of every live configuration.
pub open spec fn valid_config(c: DynamicConfigView) -> bool {
    &&& c.allowed_ports.len() > 0
    &&& c.heartbeat_interval >= MIN_HEARTBEAT_INTERVAL
}

/// Whether an update with `version` is taken by a configuration at
/// `live_version`.
pub open spec fn is_newer(live_version: u64, version: u64) -> bool {
    version > live_version
}

/// Whether an update would empty the allow-list.
pub open spec fn empties_ports(remote: RemoteConfigView) -> bool {
    remote.allowed_ports is Some && remote.allowed_ports->0.len() == 0
}

/// Whether an update with `version` is taken by `c`: its version is higher
/// and it would not empty the allow-list.
pub open spec fn is_taken(c: DynamicConfigView, remote: RemoteConfigView, version: u64) -> bool {
    is_newer(c.config_version, version) && !empties_ports(remote)
}

/// The configuration after `remote` with `version` was pushed to `c`. An
/// update that is not taken changes nothing, not even the version.
pub open spec fn applied(
    c: DynamicConfigView,
    remote: RemoteConfigView,
    version: u64,
) -> DynamicConfigView {
    if !is_taken(c, remote, version) {
        c
    } else {
        DynamicConfigView {
            heartbeat_interval: match remote.heartbeat_interval {
                Some(h) => clamped_interval(h),
                None => c.heartbeat_interval,
            },
            allowed_ports: match remote.allowed_ports {
                Some(p) => p,
                None => c.allowed_ports,
            },
            timestamp_tolerance: match remote.timestamp_tolerance {
                Some(t) => t,
                None => c.timestamp_tolerance,
            },
            log_level: match remote.log_level {
                Some(l) => l,
                None => c.log_level,
            },
            config_version: version,
        }
    }
}

/// What `apply` reports for `remote` with `version` pushed to `c`.
pub open spec fn apply_outcome(
    c: DynamicConfigView,
    remote: RemoteConfigView,
    version: u64,
) -> ApplyOutcome {
    if !is_newer(c.config_version, version) {
        ApplyOutcome::Stale
    } else if empties_ports(remote) {
        ApplyOutcome::Rejected
    } else {
        ApplyOutcome::Applied {
            log_level_changed: remote.log_level is Some && remote.log_level->0 != c.log_level,
        }
    }
}

/// A number of seconds as the policy holds it: held at the largest value
/// that fits.
pub open spec fn saturated(seconds: u64) -> u32 {
    if seconds > u32::MAX {
        u32::MAX
    } else {
        seconds as u32
    }
}

/// A number as a port, if it is one.
pub open spec fn as_port(number: u64) -> Option<u16> {
    if number <= u16::MAX {
        Some(number as u16)
    } else {
        None
    }
}

/// Of the numbers of a pushed allow-list, those that are ports, in their
/// order.
pub open spec fn listed_as_ports(numbers: Seq<u64>) -> Seq<u16> {
    numbers.filter_map(|n: u64| as_port(n))
}

/// The update that pushed values stand for.
pub open spec fn remote_config_of(
    heartbeat_interval: Option<u64>,
    allowed_ports: Option<Seq<u64>>,
    timestamp_tolerance: Option<u64>,
    log_level: Option<Seq<char>>,
) -> RemoteConfigView {
    RemoteConfigView {
        heartbeat_interval: match heartbeat_interval {
            Some(h) => Some(saturated(h)),
            None => None,
        },
        allowed_ports: match allowed_ports {
            Some(p) => Some(listed_as_ports(p)),
            None => None,
        },
        timestamp_tolerance: match timestamp_tolerance {
            Some(t) => Some(saturated(t)),
            None => None,
        },
        log_level,
    }
}

fn saturate(seconds: u64) -> (held: u32)
    ensures
        held == saturated(seconds),
{
    if seconds > 0xffff_ffff {
        0xffff_ffff
    } else {
        seconds as u32
    }
}

/// Of the numbers of a pushed allow-list, those that are ports.
pub fn ports_among(numbers: &Vec<u64>) -> (ports: Vec<u16>)
    ensures
        ports@ == listed_as_ports(numbers@),
{
    let ghost read = |n: u64| as_port(n);
    let mut ports: Vec<u16> = Vec::new();
    let mut i: usize = 0;
    while i < numbers.len()
        invariant
            i <= numbers.len(),
            read == (|n: u64| as_port(n)),
            ports@ == numbers@.take(i as int).filter_map(read),
        decreases numbers.len() - i,
    {
        let ghost before = numbers@.take(i as int);
        let ghost next = numbers@.take(i + 1);
        assert(next.drop_last() =~= before);
        assert(next.last() == numbers@[i as int]);
        let n = numbers[i];
        if n <= 0xffff {
            ports.push(n as u16);
            assert(ports@ =~= before.filter_map(read) + seq![n as u16]);
        }
        i += 1;
    }
    assert(numbers@.take(numbers.len() as int) =~= numbers@);
    ports
}

/// The update that pushed values stand for. Seconds that do not fit are
/// held at the largest value that fits; numbers that are no ports are left
/// out of the allow-list.
pub fn remote_config_from(
    heartbeat_interval: Option<u64>,
    allowed_ports: Option<Vec<u64>>,
    timestamp_tolerance: Option<u64>,
    log_level: Option<String>,
) -> (remote: RemoteConfig)
    ensures
        remote@ == remote_config_of(
            heartbeat_interval,
            match allowed_ports {
                Some(p) => Some(p@),
                None => None,
            },
            timestamp_tolerance,
            match log_level {
                Some(l) => Some(l@),
                None => None,
            },
        ),
{
    RemoteConfig {
        heartbeat_interval: match heartbeat_interval {
            Some(h) => Some(saturate(h)),
            None => None,
        },
        allowed_ports: match allowed_ports {
            Some(p) => Some(ports_among(&p)),
            None => None,
        },
        timestamp_tolerance: match timestamp_tolerance {
            Some(t) => Some(saturate(t)),
            None => None,
        },
        log_level,
    }
}

impl DynamicConfig {
    /// The configuration that a node starts with, at version 0. There is
    /// none for an empty allow-list.
    pub fn new(
        heartbeat_interval: u32,
        allowed_ports: Vec<u16>,
        timestamp_tolerance: u32,
        log_level: String,
    ) -> (config: Option<DynamicConfig>)
        ensures
            config is Some <==> allowed_ports@.len() > 0,
            config is Some ==> config->0@ == (DynamicConfigView {
                heartbeat_interval: clamped_interval(heartbeat_interval),
                allowed_ports: allowed_ports@,
                timestamp_tolerance,
                log_level: log_level@,
                config_version: 0,
            }) && valid_config(config->0@),
    {
        if allowed_ports.len() == 0 {
            return None;
        }
        let interval = if heartbeat_interval < MIN_HEARTBEAT_INTERVAL {
            MIN_HEARTBEAT_INTERVAL
        } else {
            heartbeat_interval
        };
        Some(
            DynamicConfig {
                heartbeat_interval: interval,
                allowed_ports,
                timestamp_tolerance,
                log_level,
                config_version: 0,
            },
        )
    }

    /// The configuration that a node with `config` starts with.
    pub fn from_config(config: &StaticConfig) -> (live: Option<DynamicConfig>)
        ensures
            live is Some <==> config.allowed_ports@.len() > 0,
            live is Some ==> live->0@ == (DynamicConfigView {
                heartbeat_interval: clamped_interval(config.heartbeat_interval),
                allowed_ports: config.allowed_ports@,
                timestamp_tolerance: config.timestamp_tolerance,
                log_level: config.log_level@,
                config_version: 0,
            }) && valid_config(live->0@),
    {
        DynamicConfig::new(
            config.heartbeat_interval,
            config.allowed_ports.clone(),
            config.timestamp_tolerance,
            config.log_level.clone(),
        )
    }

    /// Takes a pushed update if its version is higher than the live one and
    /// it would not empty the allow-list. An update that is not taken
    /// changes nothing.
    pub fn apply(&mut self, remote: &RemoteConfig, version: u64) -> (outcome: ApplyOutcome)
        ensures
            final(self)@ == applied(old(self)@, remote@, version),
            outcome == apply_outcome(old(self)@, remote@, version),
            valid_config(old(self)@) ==> valid_config(final(self)@),
    {
        if version <= self.config_version {
            return ApplyOutcome::Stale;
        }
        if let Some(ports) = &remote.allowed_ports {
            if ports.len() == 0 {
                return ApplyOutcome::Rejected;
            }
            self.allowed_ports = ports.clone();
        }
        if let Some(h) = remote.heartbeat_interval {
            self.heartbeat_interval = if h < MIN_HEARTBEAT_INTERVAL {
                MIN_HEARTBEAT_INTERVAL
            } else {
                h
            };
        }
        if let Some(t) = remote.timestamp_tolerance {
            self.timestamp_tolerance = t;
        }
        let mut log_level_changed = false;
        if let Some(level) = &remote.log_level {
            if *level != self.log_level {
                log_level_changed = true;
            }
            self.log_level = level.clone();
        }
        self.config_version = version;
        ApplyOutcome::Applied { log_level_changed }
    }

    /// The seconds between two heartbeats.
    pub fn heartbeat_interval(&self) -> (seconds: u32)
        ensures
            seconds == self@.heartbeat_interval,
    {
        self.heartbeat_interval
    }

    /// The seconds by which a request's timestamp may differ from the clock.
    pub fn timestamp_tolerance(&self) -> (seconds: u32)
        ensures
            seconds == self@.timestamp_tolerance,
    {
        self.timestamp_tolerance
    }

    /// The version of the last update that was taken.
    pub fn config_version(&self) -> (version: u64)
        ensures
            version == self@.config_version,
    {
        self.config_version
    }

    /// The log level, as the control plane named it.
    pub fn log_level(&self) -> (level: String)
        ensures
            level@ == self@.log_level,
    {
        self.log_level.clone()
    }

    /// The allowed ports as a set.
    pub fn allowed_ports(&self) -> (ports: HashSet<u16>)
        ensures
            ports@ == port_set(self@.allowed_ports),
    {
        let mut ports: HashSet<u16> = HashSet::new();
        let mut i: usize = 0;
        while i < self.allowed_ports.len()
            invariant
                i <= self.allowed_ports.len(),
                forall|p: u16|
                    ports@.contains(p) <==> exists|k: int|
                        0 <= k < i && self.allowed_ports@[k] == p,
            decreases self.allowed_ports.len() - i,
        {
            ports.insert(self.allowed_ports[i]);
            i += 1;
        }
        assert(ports@ =~= port_set(self.allowed_ports@));
        ports
    }

    /// A consistent copy of what a request needs, for the whole of that
    /// request.
    pub fn snapshot(&self) -> (snap: Snapshot)
        ensures
            snap.allowed_ports@ == port_set(self@.allowed_ports),
            snap.timestamp_tolerance == self@.timestamp_tolerance,
            snap.heartbeat_interval == self@.heartbeat_interval,
            snap.config_version == self@.config_version,
    {
        Snapshot {
            allowed_ports: self.allowed_ports(),
            timestamp_tolerance: self.timestamp_tolerance,
            heartbeat_interval: self.heartbeat_interval,
            config_version: self.config_version,
        }
    }
}

/// An update keeps a valid configuration valid.
pub proof fn apply_keeps_valid(c: DynamicConfigView, remote: RemoteConfigView, version: u64)
    requires
        valid_config(c),
    ensures
        valid_config(applied(c, remote, version)),
{
}

/// The version never goes down; where an update is taken it goes up to the
/// version of that update, and where not, nothing changes.
pub proof fn version_only_rises(c: DynamicConfigView, remote: RemoteConfigView, version: u64)
    ensures
        applied(c, remote, version).config_version >= c.config_version,
        is_taken(c, remote, version) ==> applied(c, remote, version).config_version == version
            && version > c.config_version,
        !is_taken(c, remote, version) ==> applied(c, remote, version) == c,
{
}

/// After an update with version `first`, an update whose version is not
/// higher than `first` changes nothing, whatever it holds. This holds
/// wherever the first update was taken or the later one is not: an update
/// that was refused leaves the version where it was, and so leaves room for
/// a later one below it.
pub proof fn older_update_changes_nothing(
    c: DynamicConfigView,
    first_remote: RemoteConfigView,
    first: u64,
    later_remote: RemoteConfigView,
    later: u64,
)
    requires
        later <= first,
        is_taken(c, first_remote, first) || !is_taken(c, later_remote, later),
    ensures
        applied(applied(c, first_remote, first), later_remote, later) == applied(
            c,
            first_remote,
            first,
        ),
        !(apply_outcome(applied(c, first_remote, first), later_remote, later) is Applied),
        is_taken(c, first_remote, first) ==> apply_outcome(
            applied(c, first_remote, first),
            later_remote,
            later,
        ) == ApplyOutcome::Stale,
{
}

/// An update that would empty the allow-list changes nothing at all.
pub proof fn emptying_update_is_refused(c: DynamicConfigView, remote: RemoteConfigView, version: u64)
    requires
        empties_ports(remote),
    ensures
        applied(c, remote, version) == c,
        !(apply_outcome(c, remote, version) is Applied),
{
}

} // verus!
