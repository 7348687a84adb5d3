//! Scan configuration and the size rules that decide which folders are
//! expanded and which are shown.
use vstd::prelude::*;

use crate::text::{chars_of, hex16, hex16_spec};

verus! {

/// How file sizes are measured.
#[derive(Debug, Clone, Copy, PartialEq, Eq, Hash, Structural)]
pub enum SizeMeasurementMode {
    LogicalOnly,
    LogicalAndAllocated,
}

/// How often a running scan reports per-directory totals.
#[derive(Debug, Clone, Copy, PartialEq, Eq, Hash, Structural)]
pub struct LiveUpdateConfig {
    pub enabled: bool,
    pub throttle_ms: u64,
    pub min_bytes_delta: u64,
    pub max_batch_size: usize,
}

impl LiveUpdateConfig {
    /// The default live-update policy.
    pub open spec fn default_spec() -> LiveUpdateConfig {
        LiveUpdateConfig {
            enabled: true,
            throttle_ms: 250,
            min_bytes_delta: 8_000_000,
            max_batch_size: 128,
        }
    }
}

impl Default for LiveUpdateConfig {
    fn default() -> (r: Self)
        ensures
            r == LiveUpdateConfig::default_spec(),
    {
        LiveUpdateConfig {
            enabled: true,
            throttle_ms: 250,
            min_bytes_delta: 8_000_000,
            max_batch_size: 128,
        }
    }
}

/// The rules of one scan.
#[derive(Debug, Clone, Copy, PartialEq, Eq, Hash, Structural)]
pub struct ScanConfig {
    pub requested_depth: usize,
    pub preload_depth: usize,
    pub show_hidden: bool,
    pub expand_above_bytes: Option<u64>,
    pub min_visible_folder_bytes: Option<u64>,
    pub stay_on_filesystem: bool,
    pub follow_symlinks: bool,
    pub dedupe_hard_links: bool,
    pub size_measurement_mode: SizeMeasurementMode,
    pub live_updates: LiveUpdateConfig,
}

impl ScanConfig {
    /// The default scan rules.
    pub open spec fn default_spec() -> ScanConfig {
        ScanConfig {
            requested_depth: 1,
            preload_depth: 1,
            show_hidden: false,
            expand_above_bytes: Some(1_000_000_000),
            min_visible_folder_bytes: Some(100_000_000),
            stay_on_filesystem: true,
            follow_symlinks: false,
            dedupe_hard_links: true,
            size_measurement_mode: SizeMeasurementMode::LogicalOnly,
            live_updates: LiveUpdateConfig::default_spec(),
        }
    }

    /// The configuration with the preload depth capped at the requested depth.
    pub open spec fn normalized_spec(self) -> ScanConfig {
        if self.preload_depth > self.requested_depth {
            ScanConfig { preload_depth: self.requested_depth, ..self }
        } else {
            self
        }
    }

    /// A folder of `size` bytes at `depth` is expanded one more level: it lies
    /// above the requested depth and strictly exceeds the expansion threshold.
    pub open spec fn should_expand_folder_spec(self, size: u64, depth: usize) -> bool {
        depth < self.requested_depth && match self.expand_above_bytes {
            Some(threshold) => size > threshold,
            None => false,
        }
    }

    /// A folder of `size` bytes is shown: there is no minimum, or it reaches it.
    pub open spec fn should_show_folder_spec(self, size: u64) -> bool {
        match self.min_visible_folder_bytes {
            Some(threshold) => size >= threshold,
            None => true,
        }
    }

    /// A name is hidden: hidden entries are not shown and the name starts with
    /// a dot without being `.` or `..`.
    pub open spec fn is_hidden_name_spec(self, name: Seq<char>) -> bool {
        !self.show_hidden && is_dot_name(name)
    }

    /// The configuration with the preload depth capped at the requested depth.
    pub fn normalized(self) -> (r: Self)
        ensures
            r == self.normalized_spec(),
            r.preload_depth <= r.requested_depth,
    {
        let mut config = self;
        if config.preload_depth > config.requested_depth {
            config.preload_depth = config.requested_depth;
        }
        config
    }

    /// A text that identifies this configuration: sixteen hexadecimal digits of
    /// the hash of its words (`config_words`), which hold every field.
    pub fn fingerprint(&self) -> (r: String)
        ensures
            exists|h: u64| r@ == hex16_spec(h as nat),
    {
        let words = self.words();
        let h = config_hash(&words);
        hex16(h)
    }

    /// The words that stand for this configuration (`config_words`).
    pub fn words(&self) -> (r: Vec<u64>)
        ensures
            r@ == config_words(*self),
    {
        let mut w: Vec<u64> = Vec::new();
        w.push(self.requested_depth as u64);
        w.push(self.preload_depth as u64);
        w.push(bool_word(self.show_hidden));
        w.push(option_tag(self.expand_above_bytes));
        w.push(option_value(self.expand_above_bytes));
        w.push(option_tag(self.min_visible_folder_bytes));
        w.push(option_value(self.min_visible_folder_bytes));
        w.push(bool_word(self.stay_on_filesystem));
        w.push(bool_word(self.follow_symlinks));
        w.push(bool_word(self.dedupe_hard_links));
        w.push(mode_word(self.size_measurement_mode));
        w.push(bool_word(self.live_updates.enabled));
        w.push(self.live_updates.throttle_ms);
        w.push(self.live_updates.min_bytes_delta);
        w.push(self.live_updates.max_batch_size as u64);
        assert(w@ =~= config_words(*self));
        w
    }

    /// Whether a folder of `size` bytes found at `depth` is expanded one more level.
    pub fn should_expand_folder(&self, size: u64, depth: usize) -> (r: bool)
        ensures
            r == self.should_expand_folder_spec(size, depth),
    {
        depth < self.requested_depth && match self.expand_above_bytes {
            Some(threshold) => size > threshold,
            None => false,
        }
    }

    /// Whether a folder of `size` bytes is shown.
    pub fn should_show_folder(&self, size: u64) -> (r: bool)
        ensures
            r == self.should_show_folder_spec(size),
    {
        match self.min_visible_folder_bytes {
            Some(threshold) => size >= threshold,
            None => true,
        }
    }

    /// Whether an entry called `name` is hidden under this configuration.
    pub fn is_hidden_name(&self, name: &str) -> (r: bool)
        ensures
            r == self.is_hidden_name_spec(name@),
    {
        !self.show_hidden && dot_name(name)
    }
}

impl Default for ScanConfig {
    fn default() -> (r: Self)
        ensures
            r == ScanConfig::default_spec(),
    {
        ScanConfig {
            requested_depth: 1,
            preload_depth: 1,
            show_hidden: false,
            expand_above_bytes: Some(1_000_000_000),
            min_visible_folder_bytes: Some(100_000_000),
            stay_on_filesystem: true,
            follow_symlinks: false,
            dedupe_hard_links: true,
            size_measurement_mode: SizeMeasurementMode::LogicalOnly,
            live_updates: LiveUpdateConfig::default(),
        }
    }
}

/// A name that starts with a dot and is neither `.` nor `..`.
pub open spec fn is_dot_name(name: Seq<char>) -> bool {
    name.len() > 0 && name[0] == '.' && name != seq!['.'] && name != seq!['.', '.']
}

/// Whether `name` starts with a dot and is neither `.` nor `..`.
pub fn dot_name(name: &str) -> (r: bool)
    ensures
        r == is_dot_name(name@),
{
    let v = chars_of(name);
    if v.len() == 0 || v[0] != '.' {
        return false;
    }
    if v.len() == 1 {
        assert(v@ =~= seq!['.']);
        return false;
    }
    if v.len() == 2 && v[1] == '.' {
        assert(v@ =~= seq!['.', '.']);
        return false;
    }
    assert(v@ != seq!['.']) by {
        if v@ == seq!['.'] {
            assert(v@.len() == 1);
        }
    }
    assert(v@ != seq!['.', '.']) by {
        if v@ == seq!['.', '.'] {
            assert(v@[1] == '.');
        }
    }
    true
}

/// Hashes the words of a configuration with std's `DefaultHasher`
/// (`BuildHasher::hash_one`). Nothing is stated of the value: it depends on
/// the machine's word size and byte order and on the standard library's
/// release.
#[verifier::external_body]
fn config_hash(words: &Vec<u64>) -> u64 {
    std::hash::BuildHasher::hash_one(
        &std::hash::BuildHasherDefault::<std::collections::hash_map::DefaultHasher>::default(),
        words,
    )
}

/// A flag as a word: one for set, zero for clear.
pub open spec fn bool_word_spec(b: bool) -> u64 {
    if b { 1 } else { 0 }
}

fn bool_word(b: bool) -> (r: u64)
    ensures
        r == bool_word_spec(b),
{
    if b { 1 } else { 0 }
}

/// Whether an optional threshold is set, as a word.
pub open spec fn option_tag_spec(o: Option<u64>) -> u64 {
    match o {
        Some(_) => 1,
        None => 0,
    }
}

fn option_tag(o: Option<u64>) -> (r: u64)
    ensures
        r == option_tag_spec(o),
{
    match o {
        Some(_) => 1,
        None => 0,
    }
}

/// An optional threshold's value, zero when it is not set.
pub open spec fn option_value_spec(o: Option<u64>) -> u64 {
    match o {
        Some(v) => v,
        None => 0,
    }
}

fn option_value(o: Option<u64>) -> (r: u64)
    ensures
        r == option_value_spec(o),
{
    match o {
        Some(v) => v,
        None => 0,
    }
}

/// A measurement mode as a word.
pub open spec fn mode_word_spec(m: SizeMeasurementMode) -> u64 {
    match m {
        SizeMeasurementMode::LogicalOnly => 0,
        SizeMeasurementMode::LogicalAndAllocated => 1,
    }
}

fn mode_word(m: SizeMeasurementMode) -> (r: u64)
    ensures
        r == mode_word_spec(m),
{
    match m {
        SizeMeasurementMode::LogicalOnly => 0,
        SizeMeasurementMode::LogicalAndAllocated => 1,
    }
}

/// The words hashed into a configuration's fingerprint: every field, in
/// declaration order (an optional threshold as whether it is set and its
/// value).
pub open spec fn config_words(c: ScanConfig) -> Seq<u64> {
    seq![
        c.requested_depth as u64,
        c.preload_depth as u64,
        bool_word_spec(c.show_hidden),
        option_tag_spec(c.expand_above_bytes),
        option_value_spec(c.expand_above_bytes),
        option_tag_spec(c.min_visible_folder_bytes),
        option_value_spec(c.min_visible_folder_bytes),
        bool_word_spec(c.stay_on_filesystem),
        bool_word_spec(c.follow_symlinks),
        bool_word_spec(c.dedupe_hard_links),
        mode_word_spec(c.size_measurement_mode),
        bool_word_spec(c.live_updates.enabled),
        c.live_updates.throttle_ms,
        c.live_updates.min_bytes_delta,
        c.live_updates.max_batch_size as u64,
    ]
}

/// The fingerprint covers the whole configuration: the words it hashes
/// determine every field, so configurations that differ in any field (depths,
/// thresholds, hidden names, filesystem and link rules, hard links,
/// measurement mode, live updates) hash different words. Equal
/// configurations hash the same words.
pub proof fn fingerprint_words_determine_config(a: ScanConfig, b: ScanConfig)
    ensures
        config_words(a) == config_words(b) <==> a == b,
{
    if config_words(a) == config_words(b) {
        let wa = config_words(a);
        let wb = config_words(b);
        assert(wa[0] == wb[0] && wa[1] == wb[1] && wa[2] == wb[2] && wa[3] == wb[3] && wa[4] == wb[4]);
        assert(wa[5] == wb[5] && wa[6] == wb[6] && wa[7] == wb[7] && wa[8] == wb[8] && wa[9] == wb[9]);
        assert(wa[10] == wb[10] && wa[11] == wb[11] && wa[12] == wb[12] && wa[13] == wb[13] && wa[14]
            == wb[14]);
        assert(a.live_updates == b.live_updates);
    }
}

/// Normalization caps the preload depth and changes nothing more when applied again.
pub proof fn normalized_is_idempotent(config: ScanConfig)
    ensures
        config.normalized_spec().preload_depth <= config.normalized_spec().requested_depth,
        config.normalized_spec().normalized_spec() == config.normalized_spec(),
        config.normalized_spec().requested_depth == config.requested_depth,
{
}

/// The expansion threshold is strict and the visibility threshold inclusive:
/// a folder exactly at the expansion threshold is not expanded, and a folder
/// exactly at the visibility threshold is shown.
pub proof fn thresholds_strict_and_inclusive(config: ScanConfig, depth: usize)
    requires
        depth < config.requested_depth,
    ensures
        config.expand_above_bytes matches Some(t) ==> !config.should_expand_folder_spec(t, depth),
        config.expand_above_bytes matches Some(t) ==> (t < u64::MAX
            ==> config.should_expand_folder_spec((t + 1) as u64, depth)),
        config.min_visible_folder_bytes matches Some(m) ==> config.should_show_folder_spec(m),
        config.min_visible_folder_bytes matches Some(m) ==> (m > 0
            ==> !config.should_show_folder_spec((m - 1) as u64)),
{
}

} // verus!
