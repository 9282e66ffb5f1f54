//! Startup configuration of the balancer.
//!
//! A configuration file is TOML; the outside parser turns its text into
//! a tree, modelled here as `ConfigValue`. Everything the balancer
//! decides from that tree — which fields are required, how rates become
//! cooldown deltas, how addresses are normalized, how the backend list
//! is assembled — is verified here. Configuration is read once at
//! startup and never re-read.

use vstd::prelude::*;
use vstd::string::StrSliceExecFns;
use vstd::string::StringExecFns;
use crate::rpc::Rpc;
use crate::rpc::pool_view;

verus! {

/// A parsed configuration value. Mirrors what the balancer reads from
/// a TOML document: booleans, integers, strings, arrays and tables
/// (as key-value lists in document order). Values of kinds the
/// balancer never reads (floats, datetimes) appear as `Other`.
#[derive(Debug)]
pub enum ConfigValue {
    Bool(bool),
    Int(i64),
    Str(String),
    Array(Vec<ConfigValue>),
    Table(Vec<(String, ConfigValue)>),
    Other,
}

/// The first value under `key` in a key-value list.
pub open spec fn spec_lookup(entries: Seq<(String, ConfigValue)>, key: Seq<char>) -> Option<
    ConfigValue,
>
    decreases entries.len(),
{
    if entries.len() == 0 {
        None
    } else if entries[0].0@ == key {
        Some(entries[0].1)
    } else {
        spec_lookup(entries.drop_first(), key)
    }
}

/// The value under `key` of a table; `None` of anything that is not a
/// table or lacks the key.
pub open spec fn spec_get(v: ConfigValue, key: Seq<char>) -> Option<ConfigValue> {
    match v {
        ConfigValue::Table(entries) => spec_lookup(entries@, key),
        _ => None,
    }
}

/// The boolean under `key`, if the key holds one.
pub open spec fn spec_get_bool(v: ConfigValue, key: Seq<char>) -> Option<bool> {
    match spec_get(v, key) {
        Some(ConfigValue::Bool(b)) => Some(b),
        _ => None,
    }
}

/// The integer under `key`, if the key holds one.
pub open spec fn spec_get_int(v: ConfigValue, key: Seq<char>) -> Option<i64> {
    match spec_get(v, key) {
        Some(ConfigValue::Int(i)) => Some(i),
        _ => None,
    }
}

/// The string under `key`, if the key holds one.
pub open spec fn spec_get_str(v: ConfigValue, key: Seq<char>) -> Option<Seq<char>> {
    match spec_get(v, key) {
        Some(ConfigValue::Str(s)) => Some(s@),
        _ => None,
    }
}

impl ConfigValue {
    /// Looks `key` up in this value, which must be read as a table.
    pub fn get<'a>(&'a self, key: &String) -> (r: Option<&'a ConfigValue>)
        ensures
            match r {
                Some(v) => spec_get(*self, key@) == Some(*v),
                None => spec_get(*self, key@) is None,
            },
    {
        match self {
            ConfigValue::Table(entries) => {
                let n = entries.len();
                let mut i: usize = 0;
                proof {
                    assert(entries@.skip(0) =~= entries@);
                }
                while i < n
                    invariant
                        i <= n,
                        n == entries@.len(),
                        *self == ConfigValue::Table(*entries),
                        spec_lookup(entries@, key@) == spec_lookup(
                            entries@.skip(i as int),
                            key@,
                        ),
                    decreases n - i,
                {
                    proof {
                        assert(entries@.skip(i as int)[0] == entries@[i as int]);
                        assert(entries@.skip(i as int).drop_first() =~= entries@.skip(i + 1));
                    }
                    if entries[i].0 == *key {
                        let v = &entries[i].1;
                        proof {
                            assert(spec_lookup(entries@.skip(i as int), key@) == Some(
                                entries@[i as int].1,
                            ));
                            assert(*v == entries@[i as int].1);
                            assert(spec_get(*self, key@) == Some(*v));
                        }
                        return Some(v);
                    }
                    i += 1;
                }
                proof {
                    assert(entries@.skip(n as int) =~= Seq::<(String, ConfigValue)>::empty());
                }
                None
            },
            _ => None,
        }
    }

    /// The boolean under `key`.
    pub fn get_bool(&self, key: &String) -> (r: Option<bool>)
        ensures
            r == spec_get_bool(*self, key@),
    {
        match self.get(key) {
            Some(ConfigValue::Bool(b)) => Some(*b),
            _ => None,
        }
    }

    /// The integer under `key`.
    pub fn get_int(&self, key: &String) -> (r: Option<i64>)
        ensures
            r == spec_get_int(*self, key@),
    {
        match self.get(key) {
            Some(ConfigValue::Int(i)) => Some(*i),
            _ => None,
        }
    }

    /// The string under `key`.
    pub fn get_str(&self, key: &String) -> (r: Option<String>)
        ensures
            match r {
                Some(s) => spec_get_str(*self, key@) == Some(s@),
                None => spec_get_str(*self, key@) is None,
            },
    {
        match self.get(key) {
            Some(ConfigValue::Str(s)) => Some(s.clone()),
            _ => None,
        }
    }
}

/// Whether `localhost` occurs at position `i` of the address.
pub open spec fn localhost_at(s: Seq<char>, i: int) -> bool {
    i + 9 <= s.len() && s.subrange(i, i + 9) == "localhost"@
}

/// The address with every occurrence of `localhost` replaced by the
/// loopback address, leftmost first.
pub open spec fn spec_replace_localhost(s: Seq<char>) -> Seq<char>
    decreases s.len(),
{
    if localhost_at(s, 0) {
        "127.0.0.1"@ + spec_replace_localhost(s.skip(9))
    } else if s.len() == 0 {
        s
    } else {
        seq![s[0]] + spec_replace_localhost(s.drop_first())
    }
}

/// Replacement walks over a match-free prefix unchanged.
proof fn lemma_replace_nomatch_prefix(s: Seq<char>, m: int)
    requires
        0 <= m <= s.len(),
        forall|p: int| 0 <= p < m ==> !localhost_at(s, p),
    ensures
        spec_replace_localhost(s) == s.subrange(0, m) + spec_replace_localhost(s.skip(m)),
    decreases m,
{
    if m == 0 {
        assert(s.skip(0) =~= s);
        assert(s.subrange(0, 0) + spec_replace_localhost(s) =~= spec_replace_localhost(s));
    } else {
        assert(!localhost_at(s, 0));
        let d = s.drop_first();
        assert forall|p: int| 0 <= p < m - 1 implies !localhost_at(d, p) by {
            if p + 9 <= d.len() {
                assert(d.subrange(p, p + 9) =~= s.subrange(p + 1, p + 10));
                assert(!localhost_at(s, p + 1));
            }
        }
        lemma_replace_nomatch_prefix(d, m - 1);
        assert(d.skip(m - 1) =~= s.skip(m));
        assert(seq![s[0]] + (d.subrange(0, m - 1) + spec_replace_localhost(s.skip(m))) =~= (
        seq![s[0]] + d.subrange(0, m - 1)) + spec_replace_localhost(s.skip(m)));
        assert(seq![s[0]] + d.subrange(0, m - 1) =~= s.subrange(0, m));
    }
}

/// Exec test for `localhost_at`.
fn is_localhost_at(s: &String, n: usize, i: usize) -> (b: bool)
    requires
        n == s@.len(),
        i <= n,
    ensures
        b == localhost_at(s@, i as int),
{
    proof {
        reveal_strlit("localhost");
        assert("localhost"@ =~= seq!['l', 'o', 'c', 'a', 'l', 'h', 'o', 's', 't']);
    }
    if n - i < 9 {
        return false;
    }
    let t = s.as_str();
    let b = t.get_char(i) == 'l' && t.get_char(i + 1) == 'o' && t.get_char(i + 2) == 'c'
        && t.get_char(i + 3) == 'a' && t.get_char(i + 4) == 'l' && t.get_char(i + 5) == 'h'
        && t.get_char(i + 6) == 'o' && t.get_char(i + 7) == 's' && t.get_char(i + 8) == 't';
    proof {
        if b {
            assert(s@.subrange(i as int, i + 9) =~= "localhost"@);
        } else {
            if s@.subrange(i as int, i + 9) == "localhost"@ {
                assert forall|k: int| 0 <= k < 9 implies s@[i + k] == "localhost"@[k] by {
                    assert(s@.subrange(i as int, i + 9)[k] == s@[i + k]);
                }
                assert(false);
            }
        }
    }
    b
}

/// The configured address with `localhost` replaced by the loopback
/// address.
pub fn replace_localhost(s: &String) -> (r: String)
    ensures
        r@ == spec_replace_localhost(s@),
{
    let t = s.as_str();
    let n = t.unicode_len();
    let mut out = String::new();
    let mut seg: usize = 0;
    let mut i: usize = 0;
    proof {
        assert(s@.skip(0) =~= s@);
        assert(Seq::<char>::empty() + spec_replace_localhost(s@) =~= spec_replace_localhost(s@));
    }
    while i < n
        invariant
            seg <= i <= n,
            n == s@.len(),
            t@ == s@,
            forall|p: int| seg <= p < i ==> !localhost_at(s@, p),
            spec_replace_localhost(s@) == out@ + spec_replace_localhost(s@.skip(seg as int)),
        decreases n - i,
    {
        if is_localhost_at(s, n, i) {
            proof {
                let sk = s@.skip(seg as int);
                assert forall|p: int| 0 <= p < i - seg implies !localhost_at(sk, p) by {
                    if p + 9 <= sk.len() {
                        assert(sk.subrange(p, p + 9) =~= s@.subrange(
                            seg + p,
                            seg + p + 9,
                        ));
                        assert(!localhost_at(s@, seg + p));
                    }
                }
                lemma_replace_nomatch_prefix(sk, i - seg);
                assert(sk.subrange(0, i - seg) =~= s@.subrange(seg as int, i as int));
                assert(sk.skip(i - seg) =~= s@.skip(i as int));
                assert(s@.skip(i as int).subrange(0, 9) =~= s@.subrange(i as int, i + 9));
                assert(localhost_at(s@.skip(i as int), 0));
                assert(s@.skip(i as int).skip(9) =~= s@.skip(i + 9));
            }
            out.append(s.as_str().substring_char(seg, i));
            out.append("127.0.0.1");
            i = i + 9;
            seg = i;
        } else {
            i = i + 1;
        }
    }
    proof {
        let sk = s@.skip(seg as int);
        assert forall|p: int| 0 <= p < n - seg implies !localhost_at(sk, p) by {
            if p + 9 <= sk.len() {
                assert(sk.subrange(p, p + 9) =~= s@.subrange(seg + p, seg + p + 9));
                assert(!localhost_at(s@, seg + p));
            }
        }
        lemma_replace_nomatch_prefix(sk, n - seg);
        assert(sk.subrange(0, n - seg) =~= s@.subrange(seg as int, n as int));
        assert(sk.skip(n - seg) =~= Seq::<char>::empty());
        assert(spec_replace_localhost(Seq::<char>::empty()) =~= Seq::<char>::empty());
    }
    out.append(s.as_str().substring_char(seg, n));
    proof {
        assert(out@ =~= spec_replace_localhost(s@));
    }
    out
}

/// Whether the address already names a port.
fn contains_colon(s: &String) -> (b: bool)
    ensures
        b == s@.contains(':'),
{
    let t = s.as_str();
    let n = t.unicode_len();
    let mut i: usize = 0;
    while i < n
        invariant
            i <= n,
            n == s@.len(),
            t@ == s@,
            forall|k: int| 0 <= k < i ==> s@[k] != ':',
        decreases n - i,
    {
        if t.get_char(i) == ':' {
            proof {
                assert(s@[i as int] == ':');
            }
            return true;
        }
        i += 1;
    }
    false
}

/// A configured listen address, normalized: `localhost` becomes the
/// loopback address, and the default port is appended when the address
/// names none.
pub open spec fn spec_normalized_address(a: Seq<char>, port: Seq<char>) -> Seq<char> {
    let r = spec_replace_localhost(a);
    if r.contains(':') {
        r
    } else {
        r + ":"@ + port
    }
}

/// Normalizes a configured listen address against a default port.
pub fn normalize_address(addr: &String, port: &String) -> (r: String)
    ensures
        r@ == spec_normalized_address(addr@, port@),
{
    let mut rep = replace_localhost(addr);
    if contains_colon(&rep) {
        rep
    } else {
        rep.append(":");
        rep.append(port.as_str());
        rep
    }
}

/// The pieces of a comma-separated list, in order; an empty list is one
/// empty piece, as the splitting of the command line yields it.
pub open spec fn spec_split_csv(s: Seq<char>) -> Seq<Seq<char>>
    decreases s.len(),
{
    if s.len() == 0 {
        seq![Seq::<char>::empty()]
    } else {
        let rest = spec_split_csv(s.drop_last());
        if s.last() == ',' {
            rest.push(Seq::<char>::empty())
        } else {
            rest.update(rest.len() - 1, rest.last().push(s.last()))
        }
    }
}

/// Splits a comma-separated list.
pub fn split_csv(s: &String) -> (r: Vec<String>)
    ensures
        r@.map_values(|x: String| x@) == spec_split_csv(s@),
{
    let t = s.as_str();
    let n = t.unicode_len();
    let mut out: Vec<String> = Vec::new();
    let mut cur = String::new();
    let mut i: usize = 0;
    while i < n
        invariant
            i <= n,
            n == s@.len(),
            t@ == s@,
            spec_split_csv(s@.subrange(0, i as int)) == out@.map_values(|x: String| x@).push(
                cur@,
            ),
        decreases n - i,
    {
        let ghost pre = s@.subrange(0, i as int);
        let ghost outpre = out@;
        let ghost curpre = cur@;
        let c = t.get_char(i);
        if c == ',' {
            out.push(cur);
            cur = String::new();
            proof {
                let f = |x: String| x@;
                assert(out@.map_values(f) =~= outpre.map_values(f).push(curpre));
            }
        } else {
            cur.append(t.substring_char(i, i + 1));
            proof {
                assert(s@.subrange(i as int, i + 1) =~= seq![s@[i as int]]);
                assert(cur@ =~= curpre.push(s@[i as int]));
            }
        }
        proof {
            let f = |x: String| x@;
            let now = s@.subrange(0, i + 1);
            let prev = spec_split_csv(pre);
            assert(now.drop_last() =~= pre);
            assert(now.last() == s@[i as int]);
            if c == ',' {
                assert(spec_split_csv(now) =~= prev.push(Seq::<char>::empty()));
                assert(spec_split_csv(now) =~= out@.map_values(f).push(cur@));
            } else {
                assert(spec_split_csv(now) =~= prev.update(
                    prev.len() - 1,
                    prev.last().push(s@[i as int]),
                ));
                assert(prev.last() == curpre);
                assert(prev.update(prev.len() - 1, curpre.push(s@[i as int])) =~= outpre.map_values(
                    f,
                ).push(curpre.push(s@[i as int])));
                assert(spec_split_csv(now) =~= out@.map_values(f).push(cur@));
            }
        }
        i += 1;
    }
    proof {
        assert(s@.subrange(0, n as int) =~= s@);
    }
    out.push(cur);
    proof {
        assert(out@.map_values(|x: String| x@) =~= spec_split_csv(s@));
    }
    out
}

/// Microseconds that must pass between two selections of a backend,
/// from its configured requests-per-second cap; 0 disables throttling.
pub fn delta_from_max_per_second(max_per_second: u64) -> (d: u64)
    ensures
        d == if max_per_second == 0 {
            0u64
        } else {
            (1_000_000u64 / max_per_second) as u64
        },
{
    if max_per_second == 0 {
        0
    } else {
        1_000_000 / max_per_second
    }
}

/// The configured expected block time padded by a tenth, to account for
/// propagation and execution delay; saturating at the type's limit. A
/// configured 0 means block-time-driven features are off.
pub fn padded_block_time(expected: u64) -> (t: u64)
    ensures
        t == if expected as int + (expected as int) / 10 > u64::MAX as int {
            u64::MAX as int
        } else {
            expected as int + (expected as int) / 10
        },
{
    let tenth = expected / 10;
    if expected > u64::MAX - tenth {
        u64::MAX
    } else {
        expected + tenth
    }
}

/// Admin-surface settings.
#[derive(Debug)]
pub struct AdminSettings {
    pub enabled: bool,
    pub address: String,
    pub readonly: bool,
    pub jwt: bool,
    /// The raw token-verification secret; empty when `jwt` is off.
    pub key: String,
}

/// Mathematical model of `AdminSettings`.
#[verifier::ext_equal]
pub ghost struct AdminSettingsView {
    pub enabled: bool,
    pub address: Seq<char>,
    pub readonly: bool,
    pub jwt: bool,
    pub key: Seq<char>,
}

impl View for AdminSettings {
    type V = AdminSettingsView;

    open spec fn view(&self) -> AdminSettingsView {
        AdminSettingsView {
            enabled: self.enabled,
            address: self.address@,
            readonly: self.readonly,
            jwt: self.jwt,
            key: self.key@,
        }
    }
}

/// Metrics-surface settings.
#[derive(Debug)]
pub struct MetricsSettings {
    pub enabled: bool,
    pub address: String,
}

/// Mathematical model of `MetricsSettings`.
#[verifier::ext_equal]
pub ghost struct MetricsSettingsView {
    pub enabled: bool,
    pub address: Seq<char>,
}

impl View for MetricsSettings {
    type V = MetricsSettingsView;

    open spec fn view(&self) -> MetricsSettingsView {
        MetricsSettingsView { enabled: self.enabled, address: self.address@ }
    }
}

/// Settings of the response cache's store, as plain values; the
/// storage engine itself is a collaborator outside the core.
#[derive(Debug)]
pub struct CacheSettings {
    pub db_path: String,
    pub cache_capacity: u64,
    pub compression: bool,
    pub print_profile: bool,
    pub flush_every_ms: u64,
    /// Trade throughput for disk space when set.
    pub low_space_mode: bool,
}

/// Mathematical model of `CacheSettings`.
#[verifier::ext_equal]
pub ghost struct CacheSettingsView {
    pub db_path: Seq<char>,
    pub cache_capacity: u64,
    pub compression: bool,
    pub print_profile: bool,
    pub flush_every_ms: u64,
    pub low_space_mode: bool,
}

impl View for CacheSettings {
    type V = CacheSettingsView;

    open spec fn view(&self) -> CacheSettingsView {
        CacheSettingsView {
            db_path: self.db_path@,
            cache_capacity: self.cache_capacity,
            compression: self.compression,
            print_profile: self.print_profile,
            flush_every_ms: self.flush_every_ms,
            low_space_mode: self.low_space_mode,
        }
    }
}

/// Everything the balancer is configured with at startup.
#[derive(Debug)]
pub struct Settings {
    pub rpc_list: Vec<Rpc>,
    pub poverty_list: Vec<Rpc>,
    pub is_ws: bool,
    pub do_clear: bool,
    pub address: String,
    pub health_check: bool,
    pub header_check: bool,
    pub ttl: u128,
    pub expected_block_time: u64,
    pub supress_rpc_check: bool,
    pub max_retries: u32,
    pub health_check_ttl: u64,
    /// Whether startup probes seed the active/poverty split.
    pub sort_on_startup: bool,
    pub sled_config: CacheSettings,
    pub admin: AdminSettings,
    pub metrics: MetricsSettings,
}

/// Mathematical model of `Settings`.
#[verifier::ext_equal]
pub ghost struct SettingsView {
    pub rpc_list: Seq<crate::rpc::RpcView>,
    pub poverty_list: Seq<crate::rpc::RpcView>,
    pub is_ws: bool,
    pub do_clear: bool,
    pub address: Seq<char>,
    pub health_check: bool,
    pub header_check: bool,
    pub ttl: u128,
    pub expected_block_time: u64,
    pub supress_rpc_check: bool,
    pub max_retries: u32,
    pub health_check_ttl: u64,
    pub sort_on_startup: bool,
    pub sled_config: CacheSettingsView,
    pub admin: AdminSettingsView,
    pub metrics: MetricsSettingsView,
}

impl View for Settings {
    type V = SettingsView;

    open spec fn view(&self) -> SettingsView {
        SettingsView {
            rpc_list: pool_view(self.rpc_list@),
            poverty_list: pool_view(self.poverty_list@),
            is_ws: self.is_ws,
            do_clear: self.do_clear,
            address: self.address@,
            health_check: self.health_check,
            header_check: self.header_check,
            ttl: self.ttl,
            expected_block_time: self.expected_block_time,
            supress_rpc_check: self.supress_rpc_check,
            max_retries: self.max_retries,
            health_check_ttl: self.health_check_ttl,
            sort_on_startup: self.sort_on_startup,
            sled_config: self.sled_config@,
            admin: self.admin@,
            metrics: self.metrics@,
        }
    }
}

/// The stock metrics settings.
pub open spec fn is_default_metrics(m: MetricsSettingsView) -> bool {
    &&& m.enabled == true
    &&& m.address == "127.0.0.1:3001"@
}

/// The stock admin settings.
pub open spec fn is_default_admin(a: AdminSettingsView) -> bool {
    &&& a.enabled == true
    &&& a.address == "127.0.0.1:3001"@
    &&& a.readonly == false
    &&& a.jwt == false
    &&& a.key == Seq::<char>::empty()
}

/// The store's stock settings.
pub open spec fn is_default_cache(c: CacheSettingsView) -> bool {
    &&& c.db_path == "default.sled"@
    &&& c.cache_capacity == 1024 * 1024 * 1024
    &&& c.compression == false
    &&& c.print_profile == false
    &&& c.flush_every_ms == 500
    &&& c.low_space_mode == true
}

impl Default for MetricsSettings {
    /// Metrics on, at the default local metrics address.
    fn default() -> (r: MetricsSettings)
        ensures
            is_default_metrics(r@),
    {
        MetricsSettings { enabled: true, address: String::from_str("127.0.0.1:3001") }
    }
}

impl Default for AdminSettings {
    /// Admin on, read-write, no token check, at the default local admin
    /// address.
    fn default() -> (r: AdminSettings)
        ensures
            is_default_admin(r@),
    {
        AdminSettings {
            enabled: true,
            address: String::from_str("127.0.0.1:3001"),
            readonly: false,
            jwt: false,
            key: String::new(),
        }
    }
}

impl Default for CacheSettings {
    /// The store's own defaults: a local path, a gigabyte of cache,
    /// flushing twice a second, favouring disk space.
    fn default() -> (r: CacheSettings)
        ensures
            is_default_cache(r@),
    {
        CacheSettings {
            db_path: String::from_str("default.sled"),
            cache_capacity: 1024 * 1024 * 1024,
            compression: false,
            print_profile: false,
            flush_every_ms: 500,
            low_space_mode: true,
        }
    }
}

impl Default for Settings {
    /// No backends yet, local listen address, caching and retries at
    /// their stock values.
    fn default() -> (r: Settings)
        ensures
            r@.rpc_list == Seq::<crate::rpc::RpcView>::empty(),
            r@.poverty_list == Seq::<crate::rpc::RpcView>::empty(),
            r@.is_ws == true,
            r@.do_clear == false,
            r@.address == "127.0.0.1:3000"@,
            r@.health_check == false,
            r@.header_check == true,
            r@.ttl == 1000,
            r@.expected_block_time == 12500,
            r@.supress_rpc_check == true,
            r@.max_retries == 32,
            r@.health_check_ttl == 1000,
            r@.sort_on_startup == false,
            is_default_cache(r@.sled_config),
            is_default_admin(r@.admin),
            is_default_metrics(r@.metrics),
    {
        Settings {
            rpc_list: Vec::new(),
            poverty_list: Vec::new(),
            is_ws: true,
            do_clear: false,
            address: String::from_str("127.0.0.1:3000"),
            health_check: false,
            header_check: true,
            ttl: 1000,
            expected_block_time: 12500,
            supress_rpc_check: true,
            max_retries: 32,
            health_check_ttl: 1000,
            sort_on_startup: false,
            sled_config: CacheSettings::default(),
            admin: AdminSettings::default(),
            metrics: MetricsSettings::default(),
        }
    }
}

} // verus!

use crate::rpc::RpcView;
use crate::rpc::StatusView;
use crate::rpc::UNKNOWN_LATENCY;

verus! {

/// Rejected configuration: a required key is missing or holds the
/// wrong kind of value. The message names the key for the operator.
#[derive(Debug)]
pub struct ConfigError {
    pub message: String,
}

/// Table names that configure the balancer itself; every other table
/// of the document configures one backend.
pub open spec fn reserved_name(k: Seq<char>) -> bool {
    ||| k == "blutgang"@
    ||| k == "sled"@
    ||| k == "admin"@
    ||| k == "metrics"@
}

/// What one backend's table must hold.
pub open spec fn valid_rpc_table(v: ConfigValue) -> bool {
    &&& spec_get_int(v, "max_consecutive"@) is Some
    &&& spec_get_int(v, "max_per_second"@) is Some
    &&& spec_get_str(v, "url"@) is Some
    &&& match spec_get(v, "ws_url"@) {
        Some(w) => w is Str,
        None => true,
    }
}

/// What the `blutgang` table must hold.
pub open spec fn valid_blutgang_table(b: ConfigValue) -> bool {
    &&& spec_get_bool(b, "do_clear"@) is Some
    &&& spec_get_str(b, "address"@) is Some
    &&& spec_get_bool(b, "sort_on_startup"@) is Some
    &&& spec_get_int(b, "ma_length"@) is Some
    &&& spec_get_bool(b, "health_check"@) is Some
    &&& spec_get_bool(b, "header_check"@) is Some
    &&& spec_get_int(b, "ttl"@) is Some
    &&& spec_get_int(b, "expected_block_time"@) is Some
    &&& spec_get_int(b, "max_retries"@) is Some
    &&& (spec_get_bool(b, "health_check"@) == Some(true) ==> spec_get_int(
        b,
        "health_check_ttl"@,
    ) is Some)
    &&& spec_get_bool(b, "supress_rpc_check"@) is Some
}

/// What the `sled` table must hold.
pub open spec fn valid_sled_table(t: ConfigValue) -> bool {
    &&& spec_get_str(t, "db_path"@) is Some
    &&& spec_get_int(t, "cache_capacity"@) is Some
    &&& spec_get_bool(t, "compression"@) is Some
    &&& spec_get_bool(t, "print_profile"@) is Some
    &&& spec_get_int(t, "flush_every_ms"@) is Some
    &&& spec_get_str(t, "mode"@) is Some
}

/// What the `admin` table must hold.
pub open spec fn valid_admin_table(a: ConfigValue) -> bool {
    &&& spec_get_bool(a, "enabled"@) is Some
    &&& (spec_get_bool(a, "enabled"@) == Some(true) ==> {
        &&& spec_get_str(a, "address"@) is Some
        &&& spec_get_bool(a, "readonly"@) is Some
        &&& spec_get_bool(a, "jwt"@) is Some
        &&& (spec_get_bool(a, "jwt"@) == Some(true) ==> spec_get_str(a, "key"@) is Some)
    })
}

/// The key-value list of the document's root table.
pub open spec fn root_entries(t: ConfigValue) -> Seq<(String, ConfigValue)> {
    match t {
        ConfigValue::Table(entries) => entries@,
        _ => Seq::<(String, ConfigValue)>::empty(),
    }
}

/// Whether the admin surface is switched on; the configuration format
/// switches the metrics surface by this same toggle.
pub open spec fn admin_enabled(t: ConfigValue) -> bool {
    spec_get_bool(spec_get(t, "admin"@).unwrap(), "enabled"@) == Some(true)
}

/// Each non-reserved table of the document configures one backend and
/// must hold that backend's required keys.
pub open spec fn all_rpc_tables_valid(t: ConfigValue) -> bool {
    forall|j: int|
        0 <= j < root_entries(t).len() && !reserved_name(root_entries(t)[j].0@)
            ==> valid_rpc_table(#[trigger] root_entries(t)[j].1)
}

/// What a whole configuration document must hold to be accepted.
pub open spec fn valid_config(t: ConfigValue) -> bool {
    &&& t is Table
    &&& spec_get(t, "blutgang"@) is Some
    &&& valid_blutgang_table(spec_get(t, "blutgang"@).unwrap())
    &&& spec_get(t, "sled"@) is Some
    &&& valid_sled_table(spec_get(t, "sled"@).unwrap())
    &&& spec_get(t, "admin"@) is Some
    &&& valid_admin_table(spec_get(t, "admin"@).unwrap())
    &&& spec_get(t, "metrics"@) is Some
    &&& (admin_enabled(t) ==> spec_get_str(spec_get(t, "metrics"@).unwrap(), "address"@) is Some)
    &&& all_rpc_tables_valid(t)
}

/// A record as it is first configured: no probe yet, counters zeroed.
pub open spec fn fresh_rpc_view(
    url: Seq<char>,
    ws_url: Option<Seq<char>>,
    max_consecutive: u32,
    min_time_delta: u128,
    ma_length: usize,
) -> RpcView {
    RpcView {
        url,
        ws_url,
        status: StatusView {
            latency: UNKNOWN_LATENCY,
            latency_data: Seq::<u64>::empty(),
            failed_probes: 0,
        },
        max_consecutive,
        consecutive: 0,
        min_time_delta,
        last_used: 0,
        ma_length,
    }
}

/// The cooldown delta of one backend table, from its requests-per-
/// second cap.
pub open spec fn spec_delta_of(v: ConfigValue) -> u128 {
    let mps = spec_get_int(v, "max_per_second"@).unwrap() as u64;
    if mps == 0 {
        0
    } else {
        (1_000_000u64 as int / mps as int) as u128
    }
}

/// The streaming endpoint of one backend table, when it has one.
pub open spec fn spec_ws_of(v: ConfigValue) -> Option<Seq<char>> {
    match spec_get(v, "ws_url"@) {
        Some(ConfigValue::Str(s)) => Some(s@),
        _ => None,
    }
}

/// The record one backend table configures.
pub open spec fn spec_rpc_of_table(v: ConfigValue, ma: usize) -> RpcView {
    fresh_rpc_view(
        spec_get_str(v, "url"@).unwrap(),
        spec_ws_of(v),
        spec_get_int(v, "max_consecutive"@).unwrap() as u32,
        spec_delta_of(v),
        ma,
    )
}

/// The backends of the first `n` root entries, in document order.
pub open spec fn spec_rpc_list(entries: Seq<(String, ConfigValue)>, ma: usize, n: int) -> Seq<
    RpcView,
>
    decreases n,
{
    if n <= 0 {
        Seq::<RpcView>::empty()
    } else {
        let rest = spec_rpc_list(entries, ma, n - 1);
        if reserved_name(entries[n - 1].0@) {
            rest
        } else {
            rest.push(spec_rpc_of_table(entries[n - 1].1, ma))
        }
    }
}

/// Whether every backend of the first `n` root entries names a
/// streaming endpoint; one without disables streaming features.
pub open spec fn spec_all_ws(entries: Seq<(String, ConfigValue)>, n: int) -> bool
    decreases n,
{
    if n <= 0 {
        true
    } else {
        spec_all_ws(entries, n - 1) && (reserved_name(entries[n - 1].0@) || spec_get(
            entries[n - 1].1,
            "ws_url"@,
        ) is Some)
    }
}

/// The padded expected block time, as a spec value.
pub open spec fn spec_padded_block_time(e: u64) -> u64 {
    if e as int + (e as int) / 10 > u64::MAX as int {
        u64::MAX
    } else {
        (e as int + (e as int) / 10) as u64
    }
}

/// How an accepted document determines every settings field.
pub open spec fn settings_of_config(t: ConfigValue, s: SettingsView) -> bool {
    let b = spec_get(t, "blutgang"@).unwrap();
    let sl = spec_get(t, "sled"@).unwrap();
    let a = spec_get(t, "admin"@).unwrap();
    let mt = spec_get(t, "metrics"@).unwrap();
    let entries = root_entries(t);
    let ma = spec_get_int(b, "ma_length"@).unwrap() as usize;
    let ebt_raw = spec_get_int(b, "expected_block_time"@).unwrap() as u64;
    let health = spec_get_bool(b, "health_check"@).unwrap();
    let admin_on = spec_get_bool(a, "enabled"@).unwrap();
    let jwt_on = admin_on && spec_get_bool(a, "jwt"@).unwrap();
    &&& s.rpc_list == spec_rpc_list(entries, ma, entries.len() as int)
    &&& s.poverty_list == Seq::<RpcView>::empty()
    &&& s.is_ws == (ebt_raw != 0 && spec_all_ws(entries, entries.len() as int))
    &&& s.do_clear == spec_get_bool(b, "do_clear"@).unwrap()
    &&& s.address == spec_normalized_address(spec_get_str(b, "address"@).unwrap(), "3000"@)
    &&& s.health_check == health
    &&& s.header_check == spec_get_bool(b, "header_check"@).unwrap()
    &&& s.ttl == spec_get_int(b, "ttl"@).unwrap() as u128
    &&& s.expected_block_time == (if ebt_raw == 0 {
        0u64
    } else {
        spec_padded_block_time(ebt_raw)
    })
    &&& s.supress_rpc_check == spec_get_bool(b, "supress_rpc_check"@).unwrap()
    &&& s.max_retries == spec_get_int(b, "max_retries"@).unwrap() as u32
    &&& s.health_check_ttl == (if health {
        spec_get_int(b, "health_check_ttl"@).unwrap() as u64
    } else {
        u64::MAX
    })
    &&& s.sort_on_startup == spec_get_bool(b, "sort_on_startup"@).unwrap()
    &&& s.sled_config == CacheSettingsView {
        db_path: spec_get_str(sl, "db_path"@).unwrap(),
        cache_capacity: spec_get_int(sl, "cache_capacity"@).unwrap() as u64,
        compression: spec_get_bool(sl, "compression"@).unwrap(),
        print_profile: spec_get_bool(sl, "print_profile"@).unwrap(),
        flush_every_ms: spec_get_int(sl, "flush_every_ms"@).unwrap() as u64,
        low_space_mode: spec_get_str(sl, "mode"@).unwrap() == "LowSpace"@,
    }
    &&& s.admin == (if admin_on {
        AdminSettingsView {
            enabled: true,
            address: spec_replace_localhost(spec_get_str(a, "address"@).unwrap()),
            readonly: spec_get_bool(a, "readonly"@).unwrap(),
            jwt: spec_get_bool(a, "jwt"@).unwrap(),
            key: if jwt_on {
                spec_get_str(a, "key"@).unwrap()
            } else {
                Seq::<char>::empty()
            },
        }
    } else {
        AdminSettingsView {
            enabled: false,
            address: "127.0.0.1:3001"@,
            readonly: false,
            jwt: false,
            key: Seq::<char>::empty(),
        }
    })
    &&& s.metrics == (if admin_on {
        MetricsSettingsView {
            enabled: true,
            address: spec_replace_localhost(spec_get_str(mt, "address"@).unwrap()),
        }
    } else {
        MetricsSettingsView { enabled: false, address: "127.0.0.1:3001"@ }
    })
}

} // verus!

verus! {

/// A rejection naming the offending key.
fn cfg_err(m: &str) -> (e: ConfigError) {
    ConfigError { message: String::from_str(m) }
}

/// One backend's record from its table.
fn rpc_from_table(v: &ConfigValue, ma: usize) -> (r: Result<Rpc, ConfigError>)
    ensures
        r is Ok <==> valid_rpc_table(*v),
        r matches Ok(rpc) ==> rpc@ == spec_rpc_of_table(*v, ma),
{
    let maxc = match v.get_int(&String::from_str("max_consecutive")) {
        Some(i) => i,
        None => {
            return Err(cfg_err("Missing max_consecutive from an RPC!"));
        },
    };
    let mps = match v.get_int(&String::from_str("max_per_second")) {
        Some(i) => i,
        None => {
            return Err(cfg_err("Missing max_per_second from an RPC!"));
        },
    };
    let url = match v.get_str(&String::from_str("url")) {
        Some(s) => s,
        None => {
            return Err(cfg_err("Missing URL from RPC!"));
        },
    };
    let ws_url = match v.get(&String::from_str("ws_url")) {
        Some(ConfigValue::Str(s)) => Some(s.clone()),
        Some(_) => {
            return Err(cfg_err("Could not parse ws_url as str!"));
        },
        None => None,
    };
    let delta = delta_from_max_per_second(#[verifier::truncate] (mps as u64));
    let rpc = Rpc::new(url, ws_url, #[verifier::truncate] (maxc as u32), delta as u128, ma);
    proof {
        assert(rpc@ =~= spec_rpc_of_table(*v, ma));
    }
    Ok(rpc)
}

impl Settings {
    /// Builds the settings an accepted configuration document
    /// describes, and rejects exactly the documents that lack a
    /// required key or hold it with the wrong kind of value. Startup
    /// probing, and the seeding of the pools it feeds, follow outside
    /// under the `sort_on_startup` flag.
    pub fn create_from_config(tree: &ConfigValue) -> (r: Result<Settings, ConfigError>)
        ensures
            r is Ok <==> valid_config(*tree),
            r matches Ok(s) ==> settings_of_config(*tree, s@),
    {
        let entries = match tree {
            ConfigValue::Table(e) => e,
            _ => {
                return Err(cfg_err("Could not parse config as a table!"));
            },
        };
        let blutgang = match tree.get(&String::from_str("blutgang")) {
            Some(b) => b,
            None => {
                return Err(cfg_err("Missing blutgang table!"));
            },
        };
        let do_clear = match blutgang.get_bool(&String::from_str("do_clear")) {
            Some(b) => b,
            None => {
                return Err(cfg_err("Missing do_clear toggle!"));
            },
        };
        let address_raw = match blutgang.get_str(&String::from_str("address")) {
            Some(s) => s,
            None => {
                return Err(cfg_err("Missing address!"));
            },
        };
        let address = normalize_address(&address_raw, &String::from_str("3000"));
        let sort_on_startup = match blutgang.get_bool(&String::from_str("sort_on_startup")) {
            Some(b) => b,
            None => {
                return Err(cfg_err("Missing sort_on_startup toggle!"));
            },
        };
        let ma_raw = match blutgang.get_int(&String::from_str("ma_length")) {
            Some(i) => i,
            None => {
                return Err(cfg_err("Missing ma_length!"));
            },
        };
        let ma = #[verifier::truncate] (ma_raw as usize);
        let health_check = match blutgang.get_bool(&String::from_str("health_check")) {
            Some(b) => b,
            None => {
                return Err(cfg_err("Missing health_check toggle!"));
            },
        };
        let header_check = match blutgang.get_bool(&String::from_str("header_check")) {
            Some(b) => b,
            None => {
                return Err(cfg_err("Missing header_check toggle!"));
            },
        };
        let ttl_raw = match blutgang.get_int(&String::from_str("ttl")) {
            Some(i) => i,
            None => {
                return Err(cfg_err("Missing ttl!"));
            },
        };
        let ebt_raw_i = match blutgang.get_int(&String::from_str("expected_block_time")) {
            Some(i) => i,
            None => {
                return Err(cfg_err("Missing expected_block_time!"));
            },
        };
        let ebt_raw = #[verifier::truncate] (ebt_raw_i as u64);
        let expected_block_time = if ebt_raw == 0 {
            0
        } else {
            padded_block_time(ebt_raw)
        };
        let max_retries_raw = match blutgang.get_int(&String::from_str("max_retries")) {
            Some(i) => i,
            None => {
                return Err(cfg_err("Missing max_retries!"));
            },
        };
        let health_check_ttl = if health_check {
            match blutgang.get_int(&String::from_str("health_check_ttl")) {
                Some(i) => #[verifier::truncate] (i as u64),
                None => {
                    return Err(cfg_err("Missing health_check_ttl!"));
                },
            }
        } else {
            u64::MAX
        };
        let supress_rpc_check = match blutgang.get_bool(&String::from_str("supress_rpc_check")) {
            Some(b) => b,
            None => {
                return Err(cfg_err("Missing supress_rpc_check!"));
            },
        };
        let sled_tbl = match tree.get(&String::from_str("sled")) {
            Some(t) => t,
            None => {
                return Err(cfg_err("Missing sled table!"));
            },
        };
        let db_path = match sled_tbl.get_str(&String::from_str("db_path")) {
            Some(s) => s,
            None => {
                return Err(cfg_err("Missing db_path!"));
            },
        };
        let cache_capacity = match sled_tbl.get_int(&String::from_str("cache_capacity")) {
            Some(i) => #[verifier::truncate] (i as u64),
            None => {
                return Err(cfg_err("Missing cache_capacity!"));
            },
        };
        let compression = match sled_tbl.get_bool(&String::from_str("compression")) {
            Some(b) => b,
            None => {
                return Err(cfg_err("Missing compression toggle!"));
            },
        };
        let print_profile = match sled_tbl.get_bool(&String::from_str("print_profile")) {
            Some(b) => b,
            None => {
                return Err(cfg_err("Missing print profile toggle!"));
            },
        };
        let flush_every_ms = match sled_tbl.get_int(&String::from_str("flush_every_ms")) {
            Some(i) => #[verifier::truncate] (i as u64),
            None => {
                return Err(cfg_err("Missing flush_every_ms!"));
            },
        };
        let mode_str = match sled_tbl.get_str(&String::from_str("mode")) {
            Some(s) => s,
            None => {
                return Err(cfg_err("Missing sled_mode!"));
            },
        };
        let low_space_mode = mode_str == String::from_str("LowSpace");
        let sled_config = CacheSettings {
            db_path,
            cache_capacity,
            compression,
            print_profile,
            flush_every_ms,
            low_space_mode,
        };
        let admin_tbl = match tree.get(&String::from_str("admin")) {
            Some(a) => a,
            None => {
                return Err(cfg_err("Missing admin table!"));
            },
        };
        let admin_on = match admin_tbl.get_bool(&String::from_str("enabled")) {
            Some(b) => b,
            None => {
                return Err(cfg_err("Missing admin enabled toggle!"));
            },
        };
        let admin = if admin_on {
            let a_addr = match admin_tbl.get_str(&String::from_str("address")) {
                Some(s) => s,
                None => {
                    return Err(cfg_err("Missing admin address!"));
                },
            };
            let readonly = match admin_tbl.get_bool(&String::from_str("readonly")) {
                Some(b) => b,
                None => {
                    return Err(cfg_err("Missing readonly toggle!"));
                },
            };
            let jwt = match admin_tbl.get_bool(&String::from_str("jwt")) {
                Some(b) => b,
                None => {
                    return Err(cfg_err("Missing JWT token toggle!"));
                },
            };
            let key = if jwt {
                match admin_tbl.get_str(&String::from_str("key")) {
                    Some(s) => s,
                    None => {
                        return Err(cfg_err("Missing key key!"));
                    },
                }
            } else {
                String::new()
            };
            AdminSettings { enabled: true, address: replace_localhost(&a_addr), readonly, jwt, key }
        } else {
            AdminSettings {
                enabled: false,
                address: String::from_str("127.0.0.1:3001"),
                readonly: false,
                jwt: false,
                key: String::new(),
            }
        };
        let metrics_tbl = match tree.get(&String::from_str("metrics")) {
            Some(m) => m,
            None => {
                return Err(cfg_err("Missing metrics table!"));
            },
        };
        let metrics = if admin_on {
            let m_addr = match metrics_tbl.get_str(&String::from_str("address")) {
                Some(s) => s,
                None => {
                    return Err(cfg_err("Missing metrics address!"));
                },
            };
            MetricsSettings { enabled: true, address: replace_localhost(&m_addr) }
        } else {
            MetricsSettings { enabled: false, address: String::from_str("127.0.0.1:3001") }
        };
        let n = entries.len();
        let mut rpc_list: Vec<Rpc> = Vec::new();
        let mut all_ws = true;
        let mut j: usize = 0;
        while j < n
            invariant
                j <= n,
                n == entries@.len(),
                *tree == ConfigValue::Table(*entries),
                pool_view(rpc_list@) =~= spec_rpc_list(entries@, ma, j as int),
                all_ws == spec_all_ws(entries@, j as int),
                forall|p: int|
                    0 <= p < j && !reserved_name(entries@[p].0@) ==> valid_rpc_table(
                        #[trigger] entries@[p].1,
                    ),
            decreases n - j,
        {
            let name = &entries[j].0;
            let is_reserved = *name == String::from_str("blutgang") || *name == String::from_str(
                "sled",
            ) || *name == String::from_str("admin") || *name == String::from_str("metrics");
            if !is_reserved {
                let v = &entries[j].1;
                match rpc_from_table(v, ma) {
                    Ok(rpc) => {
                        let has_ws = match v.get(&String::from_str("ws_url")) {
                            Some(_) => true,
                            None => false,
                        };
                        if !has_ws {
                            all_ws = false;
                        }
                        rpc_list.push(rpc);
                    },
                    Err(e) => {
                        proof {
                            assert(root_entries(*tree) == entries@);
                            assert(!valid_rpc_table(root_entries(*tree)[j as int].1));
                        }
                        return Err(e);
                    },
                }
            }
            proof {
                assert(pool_view(rpc_list@) =~= spec_rpc_list(entries@, ma, j + 1));
                assert(all_ws == spec_all_ws(entries@, j + 1));
            }
            j += 1;
        }
        let is_ws = ebt_raw != 0 && all_ws;
        let settings = Settings {
            rpc_list,
            poverty_list: Vec::new(),
            is_ws,
            do_clear,
            address,
            health_check,
            header_check,
            ttl: #[verifier::truncate] (ttl_raw as u128),
            expected_block_time,
            supress_rpc_check,
            max_retries: #[verifier::truncate] (max_retries_raw as u32),
            health_check_ttl,
            sort_on_startup,
            sled_config,
            admin,
            metrics,
        };
        proof {
            assert(valid_config(*tree));
            assert(settings@.poverty_list =~= Seq::<RpcView>::empty());
            assert(settings@.sled_config =~= CacheSettingsView {
                db_path: spec_get_str(spec_get(*tree, "sled"@).unwrap(), "db_path"@).unwrap(),
                cache_capacity: spec_get_int(
                    spec_get(*tree, "sled"@).unwrap(),
                    "cache_capacity"@,
                ).unwrap() as u64,
                compression: spec_get_bool(
                    spec_get(*tree, "sled"@).unwrap(),
                    "compression"@,
                ).unwrap(),
                print_profile: spec_get_bool(
                    spec_get(*tree, "sled"@).unwrap(),
                    "print_profile"@,
                ).unwrap(),
                flush_every_ms: spec_get_int(
                    spec_get(*tree, "sled"@).unwrap(),
                    "flush_every_ms"@,
                ).unwrap() as u64,
                low_space_mode: spec_get_str(spec_get(*tree, "sled"@).unwrap(), "mode"@).unwrap()
                    == "LowSpace"@,
            });
            assert(settings_of_config(*tree, settings@));
        }
        Ok(settings)
    }
}

} // verus!

verus! {

impl Settings {
    /// Builds the settings from a configuration file's text. The text
    /// runs through the outside TOML parser; every decision on whatever
    /// tree the parser hands back is `create_from_config`, so an
    /// accepted result always agrees exactly with some parsed document.
    pub fn create_from_file(conf_file: &String) -> (r: Result<Settings, ConfigError>)
        ensures
            r matches Ok(s) ==> exists|t: ConfigValue|
                valid_config(t) && #[trigger] settings_of_config(t, s@),
    {
        match crate::trusted::parse_toml(conf_file.as_str()) {
            Some(v) => {
                let tree = crate::trusted::toml_to_config(&v);
                match Settings::create_from_config(&tree) {
                    Ok(s) => {
                        proof {
                            assert(valid_config(tree) && settings_of_config(tree, s@));
                        }
                        Ok(s)
                    },
                    Err(e) => Err(e),
                }
            },
            None => Err(cfg_err("Error parsing TOML")),
        }
    }
}

} // verus!

verus! {

/// The command-line arguments, as plain values; flag parsing itself is
/// glue outside the crate.
#[derive(Debug)]
pub struct CliArgs {
    /// Comma-separated backend URLs.
    pub rpc_list: String,
    pub address: String,
    pub port: String,
    pub db_path: String,
    pub cache_capacity: u64,
    pub print_profile: bool,
    pub flush_every_ms: u64,
    pub clear: bool,
    pub compression: bool,
    pub health_check: bool,
    pub header_check: bool,
    pub ttl: u128,
    pub max_retries: u32,
    pub health_check_ttl: u64,
    pub supress_rpc_check: bool,
    pub admin_enabled: bool,
    pub admin_address: String,
    pub readonly: bool,
    pub jwt: bool,
    pub key: String,
    pub metrics_address: String,
    pub ma_length: usize,
    pub max_per_second: u64,
}

/// The cooldown delta a per-second cap yields.
pub open spec fn spec_delta_of_mps(mps: u64) -> u128 {
    if mps == 0 {
        0
    } else {
        (1_000_000u64 as int / mps as int) as u128
    }
}

/// The backends of the command line: one fresh record per URL, each
/// with a consecutive budget of 6 and the shared cooldown delta.
pub open spec fn spec_args_rpc_list(pieces: Seq<Seq<char>>, mps: u64, ma: usize) -> Seq<RpcView> {
    pieces.map_values(|u: Seq<char>| fresh_rpc_view(u, None, 6u32, spec_delta_of_mps(mps), ma))
}

/// The listen address of the command line: the port is appended when
/// the address names none.
pub open spec fn spec_args_address(a: Seq<char>, port: Seq<char>) -> Seq<char> {
    if a.contains(':') {
        a
    } else {
        a + ":"@ + port
    }
}

impl Settings {
    /// Builds the settings the command-line arguments describe: one
    /// fresh backend per URL of the comma-separated list, each with a
    /// consecutive budget of 6 and the shared rate cap; streaming
    /// features stay off, as no streaming endpoints can be named here.
    pub fn create_from_args(args: CliArgs) -> (s: Settings)
        ensures
            s@.rpc_list == spec_args_rpc_list(
                spec_split_csv(args.rpc_list@),
                args.max_per_second,
                args.ma_length,
            ),
            s@.poverty_list == Seq::<RpcView>::empty(),
            s@.is_ws == false,
            s@.do_clear == args.clear,
            s@.address == spec_args_address(args.address@, args.port@),
            s@.health_check == args.health_check,
            s@.header_check == args.header_check,
            s@.ttl == args.ttl,
            s@.expected_block_time == 0,
            s@.supress_rpc_check == args.supress_rpc_check,
            s@.max_retries == args.max_retries,
            s@.health_check_ttl == args.health_check_ttl,
            s@.sort_on_startup == false,
            s@.sled_config == (CacheSettingsView {
                db_path: args.db_path@,
                cache_capacity: args.cache_capacity,
                compression: args.compression,
                print_profile: args.print_profile,
                flush_every_ms: args.flush_every_ms,
                low_space_mode: false,
            }),
            s@.admin == (if args.admin_enabled {
                AdminSettingsView {
                    enabled: true,
                    address: args.admin_address@,
                    readonly: args.readonly,
                    jwt: args.jwt,
                    key: args.key@,
                }
            } else {
                AdminSettingsView {
                    enabled: false,
                    address: "::1:3001"@,
                    readonly: false,
                    jwt: false,
                    key: Seq::<char>::empty(),
                }
            }),
            s@.metrics == (if args.admin_enabled {
                MetricsSettingsView { enabled: true, address: args.metrics_address@ }
            } else {
                MetricsSettingsView { enabled: false, address: "::1:9091"@ }
            }),
    {
        let delta = delta_from_max_per_second(args.max_per_second);
        let urls = split_csv(&args.rpc_list);
        let ghost pieces = spec_split_csv(args.rpc_list@);
        let ghost want = spec_args_rpc_list(pieces, args.max_per_second, args.ma_length);
        let n = urls.len();
        let mut rpc_list: Vec<Rpc> = Vec::new();
        let mut i: usize = 0;
        while i < n
            invariant
                i <= n,
                n == urls@.len(),
                urls@.map_values(|x: String| x@) == pieces,
                delta as u128 == spec_delta_of_mps(args.max_per_second),
                want == spec_args_rpc_list(pieces, args.max_per_second, args.ma_length),
                rpc_list@.len() == i,
                pool_view(rpc_list@) =~= want.subrange(0, i as int),
            decreases n - i,
        {
            let rpc = Rpc::new(urls[i].clone(), None, 6, delta as u128, args.ma_length);
            proof {
                assert(pieces[i as int] == urls@[i as int]@);
                assert(want[i as int] == fresh_rpc_view(
                    pieces[i as int],
                    None,
                    6u32,
                    spec_delta_of_mps(args.max_per_second),
                    args.ma_length,
                ));
                assert(rpc@ =~= want[i as int]);
            }
            rpc_list.push(rpc);
            proof {
                assert(pool_view(rpc_list@) =~= want.subrange(0, i + 1));
            }
            i += 1;
        }
        proof {
            assert(pool_view(rpc_list@) =~= want);
        }
        let address = if contains_colon(&args.address) {
            args.address
        } else {
            let mut a = args.address;
            a.append(":");
            a.append(args.port.as_str());
            a
        };
        let admin = if args.admin_enabled {
            AdminSettings {
                enabled: true,
                address: args.admin_address,
                readonly: args.readonly,
                jwt: args.jwt,
                key: args.key,
            }
        } else {
            AdminSettings {
                enabled: false,
                address: String::from_str("::1:3001"),
                readonly: false,
                jwt: false,
                key: String::new(),
            }
        };
        let metrics = if args.admin_enabled {
            MetricsSettings { enabled: true, address: args.metrics_address }
        } else {
            MetricsSettings { enabled: false, address: String::from_str("::1:9091") }
        };
        let settings = Settings {
            rpc_list,
            poverty_list: Vec::new(),
            is_ws: false,
            do_clear: args.clear,
            address,
            health_check: args.health_check,
            header_check: args.header_check,
            ttl: args.ttl,
            expected_block_time: 0,
            supress_rpc_check: args.supress_rpc_check,
            max_retries: args.max_retries,
            health_check_ttl: args.health_check_ttl,
            sort_on_startup: false,
            sled_config: CacheSettings {
                db_path: args.db_path,
                cache_capacity: args.cache_capacity,
                compression: args.compression,
                print_profile: args.print_profile,
                flush_every_ms: args.flush_every_ms,
                low_space_mode: false,
            },
            admin,
            metrics,
        };
        proof {
            assert(settings@.poverty_list =~= Seq::<RpcView>::empty());
        }
        settings
    }
}

} // verus!
