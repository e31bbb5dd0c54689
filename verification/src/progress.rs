//! Progress accounting for snap sync: per data type totals and synced counts, completion,
//! and a reporter that summarises progress.

use vstd::prelude::*;
use std::time::{Duration, Instant};
use crate::clock::{instant_now, elapsed_since, duration_between, duration_at_least, duration_as_secs};
use crate::results::{decimal, decimal_text};

verus! {

/// Types of data being synced.
#[derive(Debug, Clone, Copy, PartialEq, Eq, Structural)]
pub enum DataType {
    Accounts,
    StorageSlots,
    ByteCodes,
    TrieNodes,
}

/// Progress tracking for snap sync.
#[derive(Debug, Clone, Copy, PartialEq, Eq)]
pub struct SyncProgress {
    /// Total accounts to sync
    pub total_accounts: u64,
    /// Accounts synced so far
    pub accounts_synced: u64,
    /// Total storage slots to sync
    pub total_storage_slots: u64,
    /// Storage slots synced so far
    pub storage_slots_synced: u64,
    /// Total byte codes to sync
    pub total_byte_codes: u64,
    /// Byte codes synced so far
    pub byte_codes_synced: u64,
    /// Total trie nodes to sync
    pub total_trie_nodes: u64,
    /// Trie nodes synced so far
    pub trie_nodes_synced: u64,
}

/// The progress with every count zero.
pub open spec fn empty_progress() -> SyncProgress {
    SyncProgress {
        total_accounts: 0,
        accounts_synced: 0,
        total_storage_slots: 0,
        storage_slots_synced: 0,
        total_byte_codes: 0,
        byte_codes_synced: 0,
        total_trie_nodes: 0,
        trie_nodes_synced: 0,
    }
}

impl Default for SyncProgress {
    fn default() -> (p: Self)
        ensures
            p == empty_progress(),
    {
        SyncProgress {
            total_accounts: 0,
            accounts_synced: 0,
            total_storage_slots: 0,
            storage_slots_synced: 0,
            total_byte_codes: 0,
            byte_codes_synced: 0,
            total_trie_nodes: 0,
            trie_nodes_synced: 0,
        }
    }
}

impl SyncProgress {
    /// Items to sync over all data types.
    pub open spec fn spec_total_items(&self) -> int {
        self.total_accounts + self.total_storage_slots + self.total_byte_codes + self.total_trie_nodes
    }

    /// Items synced over all data types.
    pub open spec fn spec_synced_items(&self) -> int {
        self.accounts_synced + self.storage_slots_synced + self.byte_codes_synced + self.trie_nodes_synced
    }

    /// Whether every data type has synced at least its total.
    pub open spec fn spec_is_complete(&self) -> bool {
        &&& self.accounts_synced >= self.total_accounts
        &&& self.storage_slots_synced >= self.total_storage_slots
        &&& self.byte_codes_synced >= self.total_byte_codes
        &&& self.trie_nodes_synced >= self.total_trie_nodes
    }

    /// The synced count of one data type.
    pub open spec fn synced_of(&self, data_type: DataType) -> u64 {
        match data_type {
            DataType::Accounts => self.accounts_synced,
            DataType::StorageSlots => self.storage_slots_synced,
            DataType::ByteCodes => self.byte_codes_synced,
            DataType::TrieNodes => self.trie_nodes_synced,
        }
    }

    /// The progress after `count` more items of `data_type` were synced.
    pub open spec fn spec_updated(&self, data_type: DataType, count: u64) -> SyncProgress {
        match data_type {
            DataType::Accounts => SyncProgress { accounts_synced: (self.accounts_synced + count) as u64, ..*self },
            DataType::StorageSlots => SyncProgress { storage_slots_synced: (self.storage_slots_synced + count) as u64, ..*self },
            DataType::ByteCodes => SyncProgress { byte_codes_synced: (self.byte_codes_synced + count) as u64, ..*self },
            DataType::TrieNodes => SyncProgress { trie_nodes_synced: (self.trie_nodes_synced + count) as u64, ..*self },
        }
    }

    /// Check if sync is complete: every data type has synced at least its total.
    pub fn is_complete(&self) -> (r: bool)
        ensures
            r == self.spec_is_complete(),
    {
        self.accounts_synced >= self.total_accounts && self.storage_slots_synced
            >= self.total_storage_slots && self.byte_codes_synced >= self.total_byte_codes
            && self.trie_nodes_synced >= self.total_trie_nodes
    }

    /// Records `count` more synced items of `data_type`.
    pub fn update_progress(&mut self, data_type: DataType, count: u64)
        requires
            old(self).synced_of(data_type) + count <= u64::MAX,
        ensures
            *final(self) == old(self).spec_updated(data_type, count),
    {
        match data_type {
            DataType::Accounts => self.accounts_synced = self.accounts_synced + count,
            DataType::StorageSlots => self.storage_slots_synced = self.storage_slots_synced + count,
            DataType::ByteCodes => self.byte_codes_synced = self.byte_codes_synced + count,
            DataType::TrieNodes => self.trie_nodes_synced = self.trie_nodes_synced + count,
        }
    }
}


/// Recording synced items only adds: the count of the recorded data type grows by exactly the
/// recorded number, every other count and every total stays, so the synced items grow by that
/// number and a complete sync stays complete.
pub proof fn lemma_update_only_adds(p: SyncProgress, data_type: DataType, count: u64)
    requires
        p.synced_of(data_type) + count <= u64::MAX,
    ensures
        p.spec_updated(data_type, count).synced_of(data_type) == p.synced_of(data_type) + count,
        forall|t: DataType| t != data_type ==> #[trigger] p.spec_updated(data_type, count).synced_of(t) == p.synced_of(t),
        p.spec_updated(data_type, count).spec_total_items() == p.spec_total_items(),
        p.spec_updated(data_type, count).spec_synced_items() == p.spec_synced_items() + count,
        p.spec_is_complete() ==> p.spec_updated(data_type, count).spec_is_complete(),
{
}

/// `num / den` rounded to the nearest integer, an exact half going to the even neighbour.
pub open spec fn round_half_even(num: int, den: int) -> int {
    let q = num / den;
    let r = num % den;
    if 2 * r > den || (2 * r == den && q % 2 == 1) { q + 1 } else { q }
}

/// `part / whole` as a percentage in tenths, rounded to the nearest tenth with an exact half
/// going to the even tenth; zero when `whole` is zero.
pub open spec fn percent_tenths(part: int, whole: int) -> int {
    if whole <= 0 {
        0
    } else {
        round_half_even(part * 1000, whole)
    }
}

/// `items / secs` in tenths of items per second, rounded to the nearest tenth with an exact
/// half going to the even tenth; zero when `secs` is zero.
pub open spec fn rate_tenths(items: int, secs: int) -> int {
    if secs <= 0 {
        0
    } else {
        round_half_even(items * 10, secs)
    }
}

/// The figures shown by a progress summary. Percentages and rates are split into their
/// whole part and their tenths digit.
#[derive(Debug, Clone, Copy, PartialEq, Eq)]
pub struct SummaryFigures {
    pub overall_whole: u128,
    pub overall_tenth: u128,
    pub accounts_synced: u64,
    pub accounts_total: u64,
    pub accounts_whole: u128,
    pub accounts_tenth: u128,
    pub storage_synced: u64,
    pub storage_total: u64,
    pub storage_whole: u128,
    pub storage_tenth: u128,
    pub byte_codes_synced: u64,
    pub byte_codes_total: u64,
    pub byte_codes_whole: u128,
    pub byte_codes_tenth: u128,
    pub trie_nodes_synced: u64,
    pub trie_nodes_total: u64,
    pub trie_nodes_whole: u128,
    pub trie_nodes_tenth: u128,
    pub elapsed_secs: u64,
    pub rate_whole: u128,
    pub rate_tenth: u128,
}

/// Whether `whole` and `tenth` spell the tenths count `t`.
pub open spec fn splits(whole: u128, tenth: u128, t: int) -> bool {
    whole == t / 10 && tenth == t % 10
}

/// The figures a summary of `p` shows after `elapsed_secs` seconds.
pub open spec fn summary_figures_match(f: SummaryFigures, p: SyncProgress, elapsed_secs: u64) -> bool {
    &&& splits(f.overall_whole, f.overall_tenth, percent_tenths(p.spec_synced_items(), p.spec_total_items()))
    &&& f.accounts_synced == p.accounts_synced && f.accounts_total == p.total_accounts
    &&& splits(f.accounts_whole, f.accounts_tenth, percent_tenths(p.accounts_synced as int, p.total_accounts as int))
    &&& f.storage_synced == p.storage_slots_synced && f.storage_total == p.total_storage_slots
    &&& splits(f.storage_whole, f.storage_tenth, percent_tenths(p.storage_slots_synced as int, p.total_storage_slots as int))
    &&& f.byte_codes_synced == p.byte_codes_synced && f.byte_codes_total == p.total_byte_codes
    &&& splits(f.byte_codes_whole, f.byte_codes_tenth, percent_tenths(p.byte_codes_synced as int, p.total_byte_codes as int))
    &&& f.trie_nodes_synced == p.trie_nodes_synced && f.trie_nodes_total == p.total_trie_nodes
    &&& splits(f.trie_nodes_whole, f.trie_nodes_tenth, percent_tenths(p.trie_nodes_synced as int, p.total_trie_nodes as int))
    &&& f.elapsed_secs == elapsed_secs
    &&& splits(f.rate_whole, f.rate_tenth, rate_tenths(p.spec_synced_items(), elapsed_secs as int))
}

/// `whole` and `tenth` as a decimal number with one digit after the point.
pub open spec fn one_decimal(whole: u128, tenth: u128) -> Seq<char> {
    decimal(whole as nat) + seq!['.'] + decimal(tenth as nat)
}

/// One line of a summary: `label: synced/total (W.T%)`.
pub open spec fn data_line(label: Seq<char>, synced: u64, total: u64, whole: u128, tenth: u128) -> Seq<char> {
    label + ": "@ + decimal(synced as nat) + seq!['/'] + decimal(total as nat) + " ("@ + one_decimal(whole, tenth) + "%)"@
}

/// The text of a summary: "Snap Sync Progress: W.T% complete", one line per data type
/// ("Accounts", "Storage", "Byte Codes", "Trie Nodes") and "Elapsed: Ns, Rate: W.T items/s",
/// separated by line breaks.
pub open spec fn summary_text(f: SummaryFigures) -> Seq<char> {
    "Snap Sync Progress: "@ + one_decimal(f.overall_whole, f.overall_tenth) + "% complete\n"@
        + data_line("Accounts"@, f.accounts_synced, f.accounts_total, f.accounts_whole, f.accounts_tenth) + seq!['\n']
        + data_line("Storage"@, f.storage_synced, f.storage_total, f.storage_whole, f.storage_tenth) + seq!['\n']
        + data_line("Byte Codes"@, f.byte_codes_synced, f.byte_codes_total, f.byte_codes_whole, f.byte_codes_tenth)
        + seq!['\n']
        + data_line("Trie Nodes"@, f.trie_nodes_synced, f.trie_nodes_total, f.trie_nodes_whole, f.trie_nodes_tenth)
        + seq!['\n'] + "Elapsed: "@ + decimal(f.elapsed_secs as nat) + "s, Rate: "@ + one_decimal(f.rate_whole, f.rate_tenth)
        + " items/s"@
}

/// Appends `whole` and `tenth` with a point between them.
fn push_one_decimal(s: &mut String, whole: u128, tenth: u128)
    ensures
        final(s)@ == old(s)@ + one_decimal(whole, tenth),
{
    let w = decimal_text(whole);
    s.append(w.as_str());
    s.append(".");
    let t = decimal_text(tenth);
    s.append(t.as_str());
    proof {
        reveal_strlit(".");
    }
    assert(s@ =~= old(s)@ + one_decimal(whole, tenth));
}

/// Appends one line of a summary (see [`data_line`]).
fn push_data_line(s: &mut String, label: &str, synced: u64, total: u64, whole: u128, tenth: u128)
    ensures
        final(s)@ == old(s)@ + data_line(label@, synced, total, whole, tenth),
{
    s.append(label);
    s.append(": ");
    let a = decimal_text(synced as u128);
    s.append(a.as_str());
    s.append("/");
    let b = decimal_text(total as u128);
    s.append(b.as_str());
    s.append(" (");
    push_one_decimal(s, whole, tenth);
    s.append("%)");
    proof {
        reveal_strlit("/");
    }
    assert(s@ =~= old(s)@ + data_line(label@, synced, total, whole, tenth));
}

/// The summary text of the figures `f` (see [`summary_text`]).
pub(crate) fn format_progress_summary(f: &SummaryFigures) -> (s: String)
    ensures
        s@ == summary_text(*f),
{
    let mut s = String::from_str("Snap Sync Progress: ");
    push_one_decimal(&mut s, f.overall_whole, f.overall_tenth);
    s.append("% complete\n");
    push_data_line(&mut s, "Accounts", f.accounts_synced, f.accounts_total, f.accounts_whole, f.accounts_tenth);
    s.append("\n");
    push_data_line(&mut s, "Storage", f.storage_synced, f.storage_total, f.storage_whole, f.storage_tenth);
    s.append("\n");
    push_data_line(&mut s, "Byte Codes", f.byte_codes_synced, f.byte_codes_total, f.byte_codes_whole, f.byte_codes_tenth);
    s.append("\n");
    push_data_line(&mut s, "Trie Nodes", f.trie_nodes_synced, f.trie_nodes_total, f.trie_nodes_whole, f.trie_nodes_tenth);
    s.append("\n");
    s.append("Elapsed: ");
    let secs = decimal_text(f.elapsed_secs as u128);
    s.append(secs.as_str());
    s.append("s, Rate: ");
    push_one_decimal(&mut s, f.rate_whole, f.rate_tenth);
    s.append(" items/s");
    proof {
        reveal_strlit("\n");
    }
    assert(s@ =~= summary_text(*f));
    s
}

/// `num / den` rounded to the nearest integer, an exact half going to the even neighbour.
fn round_half_even_of(num: u128, den: u128) -> (t: u128)
    requires
        den > 0,
    ensures
        t == round_half_even(num as int, den as int),
{
    let q = num / den;
    let r = num % den;
    let half_up = if r >= den - r { r > den - r || q % 2 == 1 } else { false };
    if half_up {
        assert(q * den <= num) by (nonlinear_arith)
            requires
                q == num / den,
                den > 0,
        ;
        assert(q < u128::MAX) by (nonlinear_arith)
            requires
                q * den <= num,
                den >= 2,
                num <= u128::MAX,
        ;
        q + 1
    } else {
        q
    }
}

/// `part / whole` as a percentage in tenths (see [`percent_tenths`]).
fn percent_tenths_of(part: u128, whole: u128) -> (t: u128)
    requires
        part <= 0x1_0000_0000_0000_0000 * 4,
        whole <= 0x1_0000_0000_0000_0000 * 4,
    ensures
        t == percent_tenths(part as int, whole as int),
{
    if whole == 0 {
        0
    } else {
        round_half_even_of(part * 1000, whole)
    }
}

/// `items / secs` in tenths per second (see [`rate_tenths`]).
fn rate_tenths_of(items: u128, secs: u64) -> (t: u128)
    requires
        items <= 0x1_0000_0000_0000_0000 * 4,
    ensures
        t == rate_tenths(items as int, secs as int),
{
    if secs == 0 {
        0
    } else {
        round_half_even_of(items * 10, secs as u128)
    }
}

/// Reports the progress of a snap sync download.
pub struct SnapSyncProgressReporter {
    /// Current sync progress.
    progress: SyncProgress,
    /// Start time of the sync operation.
    start_time: Instant,
    /// Time of the last report.
    last_update: Instant,
    /// Interval between reports.
    update_interval: Duration,
    /// Whether progress is reported.
    enabled: bool,
}

impl SnapSyncProgressReporter {
    /// The progress tracked so far.
    pub closed spec fn spec_progress(&self) -> SyncProgress {
        self.progress
    }

    /// Whether progress is reported.
    pub closed spec fn spec_enabled(&self) -> bool {
        self.enabled
    }

    /// The interval between reports.
    pub closed spec fn spec_update_interval(&self) -> Duration {
        self.update_interval
    }

    /// When the reporter was created.
    pub closed spec fn spec_start_time(&self) -> Instant {
        self.start_time
    }

    /// When progress was last reported.
    pub closed spec fn spec_last_update(&self) -> Instant {
        self.last_update
    }

    /// A reporter with all counts zero, started now.
    pub fn new(update_interval: Duration, enabled: bool) -> (r: Self)
        ensures
            r.spec_progress() == empty_progress(),
            r.spec_enabled() == enabled,
            r.spec_update_interval() == update_interval,
            r.spec_last_update() == r.spec_start_time(),
    {
        let now = instant_now();
        SnapSyncProgressReporter {
            progress: SyncProgress::default(),
            start_time: now,
            last_update: now,
            update_interval,
            enabled,
        }
    }

    /// Records `count` more synced items of `data_type`. The counts are kept whether or not
    /// reporting is enabled. When reporting is enabled and the update interval has passed
    /// since the last report, the report time moves to now and the answer is `true`: a report
    /// of the progress is due. Whether the interval has passed depends on the clock; a report
    /// is never due while reporting is disabled.
    pub fn update_progress(&mut self, data_type: DataType, count: u64) -> (due: bool)
        requires
            old(self).spec_progress().synced_of(data_type) + count <= u64::MAX,
        ensures
            final(self).spec_progress() == old(self).spec_progress().spec_updated(data_type, count),
            final(self).spec_enabled() == old(self).spec_enabled(),
            final(self).spec_update_interval() == old(self).spec_update_interval(),
            final(self).spec_start_time() == old(self).spec_start_time(),
            due ==> old(self).spec_enabled(),
            !due ==> final(self).spec_last_update() == old(self).spec_last_update(),
    {
        self.progress.update_progress(data_type, count);
        if self.enabled {
            let now = instant_now();
            let since = duration_between(&self.last_update, &now);
            if duration_at_least(&since, &self.update_interval) {
                self.last_update = now;
                return true;
            }
        }
        false
    }

    /// The progress to report now, whatever the interval: `None` while reporting is disabled.
    pub fn force_report(&self) -> (r: Option<SyncProgress>)
        ensures
            r == if self.spec_enabled() { Some(self.spec_progress()) } else { None },
    {
        if !self.enabled {
            return None;
        }
        Some(self.progress)
    }

    /// Sets the totals to sync per data type; the synced counts stay. A disabled reporter keeps
    /// its totals.
    pub fn set_total_counts(&mut self, accounts: u64, storage_slots: u64, byte_codes: u64, trie_nodes: u64)
        ensures
            final(self).spec_progress() == if old(self).spec_enabled() {
                SyncProgress {
                    total_accounts: accounts,
                    total_storage_slots: storage_slots,
                    total_byte_codes: byte_codes,
                    total_trie_nodes: trie_nodes,
                    ..old(self).spec_progress()
                }
            } else {
                old(self).spec_progress()
            },
            final(self).spec_enabled() == old(self).spec_enabled(),
            final(self).spec_update_interval() == old(self).spec_update_interval(),
            final(self).spec_start_time() == old(self).spec_start_time(),
            final(self).spec_last_update() == old(self).spec_last_update(),
    {
        if !self.enabled {
            return;
        }
        self.progress.total_accounts = accounts;
        self.progress.total_storage_slots = storage_slots;
        self.progress.total_byte_codes = byte_codes;
        self.progress.total_trie_nodes = trie_nodes;
    }

    /// The progress tracked so far.
    pub fn progress(&self) -> (p: SyncProgress)
        ensures
            p == self.spec_progress(),
    {
        self.progress
    }

    /// Whether the sync is complete.
    pub fn is_complete(&self) -> (r: bool)
        ensures
            r == self.spec_progress().spec_is_complete(),
    {
        self.progress.is_complete()
    }

    /// The time since the reporter was created, by the monotonic clock read now.
    pub fn elapsed_time(&self) -> Duration {
        elapsed_since(&self.start_time)
    }

    /// Enables or disables reporting.
    pub fn set_enabled(&mut self, enabled: bool)
        ensures
            final(self).spec_enabled() == enabled,
            final(self).spec_progress() == old(self).spec_progress(),
            final(self).spec_update_interval() == old(self).spec_update_interval(),
            final(self).spec_start_time() == old(self).spec_start_time(),
            final(self).spec_last_update() == old(self).spec_last_update(),
    {
        self.enabled = enabled;
    }

    /// Changes the interval between reports.
    pub fn set_update_interval(&mut self, interval: Duration)
        ensures
            final(self).spec_update_interval() == interval,
            final(self).spec_progress() == old(self).spec_progress(),
            final(self).spec_enabled() == old(self).spec_enabled(),
            final(self).spec_start_time() == old(self).spec_start_time(),
            final(self).spec_last_update() == old(self).spec_last_update(),
    {
        self.update_interval = interval;
    }

    /// The figures of a summary of the current progress after `elapsed_secs` seconds.
    pub fn summary_figures(&self, elapsed_secs: u64) -> (f: SummaryFigures)
        ensures
            summary_figures_match(f, self.spec_progress(), elapsed_secs),
    {
        let p = self.progress;
        let total: u128 = p.total_accounts as u128 + p.total_storage_slots as u128 + p.total_byte_codes as u128
            + p.total_trie_nodes as u128;
        let synced: u128 = p.accounts_synced as u128 + p.storage_slots_synced as u128
            + p.byte_codes_synced as u128 + p.trie_nodes_synced as u128;
        let overall = percent_tenths_of(synced, total);
        let acc = percent_tenths_of(p.accounts_synced as u128, p.total_accounts as u128);
        let sto = percent_tenths_of(p.storage_slots_synced as u128, p.total_storage_slots as u128);
        let code = percent_tenths_of(p.byte_codes_synced as u128, p.total_byte_codes as u128);
        let node = percent_tenths_of(p.trie_nodes_synced as u128, p.total_trie_nodes as u128);
        let rate = rate_tenths_of(synced, elapsed_secs);
        SummaryFigures {
            overall_whole: overall / 10,
            overall_tenth: overall % 10,
            accounts_synced: p.accounts_synced,
            accounts_total: p.total_accounts,
            accounts_whole: acc / 10,
            accounts_tenth: acc % 10,
            storage_synced: p.storage_slots_synced,
            storage_total: p.total_storage_slots,
            storage_whole: sto / 10,
            storage_tenth: sto % 10,
            byte_codes_synced: p.byte_codes_synced,
            byte_codes_total: p.total_byte_codes,
            byte_codes_whole: code / 10,
            byte_codes_tenth: code % 10,
            trie_nodes_synced: p.trie_nodes_synced,
            trie_nodes_total: p.total_trie_nodes,
            trie_nodes_whole: node / 10,
            trie_nodes_tenth: node % 10,
            elapsed_secs,
            rate_whole: rate / 10,
            rate_tenth: rate % 10,
        }
    }

    /// A summary of the current progress after `elapsed_secs` seconds.
    pub fn summary_at(&self, elapsed_secs: u64) -> (s: String)
        ensures
            exists|f: SummaryFigures|
                summary_figures_match(f, self.spec_progress(), elapsed_secs) && s@
                    == summary_text(f),
    {
        let f = self.summary_figures(elapsed_secs);
        format_progress_summary(&f)
    }

    /// A summary of the current progress, with the time elapsed by the clock read now.
    pub fn get_summary(&self) -> (s: String)
        ensures
            exists|f: SummaryFigures, secs: u64|
                summary_figures_match(f, self.spec_progress(), secs) && s@
                    == summary_text(f),
    {
        let secs = duration_as_secs(&elapsed_since(&self.start_time));
        self.summary_at(secs)
    }
}

} // verus!
