use crate::common::decimal::Decimal;
use crate::common::monitorstatus::{Status, StatusView};
use vstd::prelude::*;

verus! {

/// When a check's measurement is handed to the database.
///
/// | level    | outcome `Ok` | outcome `Error` | outcome `Unknown` |
/// |----------|--------------|-----------------|-------------------|
/// | `Never`  | skip         | skip            | skip              |
/// | `Errors` | skip         | persist         | skip              |
/// | `All`    | persist      | persist         | persist           |
#[derive(Debug, Clone, Copy, PartialEq, Eq, Structural)]
pub enum DatabaseStoreLevel {
    /// Nothing is stored.
    Never,
    /// A measurement is stored when its check ends in an error.
    Errors,
    /// Every measurement is stored.
    All,
}

impl DatabaseStoreLevel {
    /// Whether this level lets the measurement of a check with the given outcome be stored.
    pub open spec fn authorizes(self, outcome: StatusView) -> bool {
        match self {
            DatabaseStoreLevel::Never => false,
            DatabaseStoreLevel::Errors => outcome is Error,
            DatabaseStoreLevel::All => true,
        }
    }

    /// Whether this level lets the measurement of a check that ended in `outcome` be stored.
    pub fn permits(&self, outcome: &Status) -> (store: bool)
        ensures
            store == self.authorizes(outcome@),
            *self == DatabaseStoreLevel::Never ==> !store,
            *self == DatabaseStoreLevel::All ==> store,
    {
        match self {
            DatabaseStoreLevel::Never => false,
            DatabaseStoreLevel::Errors => outcome.is_error(),
            DatabaseStoreLevel::All => true,
        }
    }
}

/// Whether a check's measurement is stored: the monitor must have storing switched on, and
/// its level must authorize the outcome.
pub open spec fn store_authorized(
    store_enabled: bool,
    level: DatabaseStoreLevel,
    outcome: StatusView,
) -> bool {
    store_enabled && level.authorizes(outcome)
}

/// With the level `Never` nothing is stored, whatever the outcome and the switch; with the
/// level `All` and storing switched on every outcome is stored.
pub proof fn lemma_store_level_extremes(store_enabled: bool, outcome: StatusView)
    ensures
        !store_authorized(store_enabled, DatabaseStoreLevel::Never, outcome),
        store_authorized(store_enabled, DatabaseStoreLevel::All, outcome) == store_enabled,
{
}

/// The configuration of one load average monitor.
#[derive(Debug, PartialEq, Eq)]
pub struct MonitorConfig {
    /// The monitor's name, unique among the configured monitors.
    pub name: String,
    /// The cron expression that says when the monitor's check runs.
    pub schedule: String,
    /// Ceiling of the one-minute load average; `None` is no constraint.
    pub threshold_1min: Option<Decimal>,
    /// Ceiling of the five-minute load average; `None` is no constraint.
    pub threshold_5min: Option<Decimal>,
    /// Ceiling of the ten-minute load average; `None` is no constraint.
    pub threshold_10min: Option<Decimal>,
    /// Whether readouts are stored at all.
    pub store_values: bool,
    /// When a readout is stored.
    pub store_level: DatabaseStoreLevel,
}

/// The mathematical value of a [`MonitorConfig`].
pub struct MonitorConfigView {
    pub name: Seq<char>,
    pub schedule: Seq<char>,
    pub threshold_1min: Option<Decimal>,
    pub threshold_5min: Option<Decimal>,
    pub threshold_10min: Option<Decimal>,
    pub store_values: bool,
    pub store_level: DatabaseStoreLevel,
}

impl View for MonitorConfig {
    type V = MonitorConfigView;

    open spec fn view(&self) -> MonitorConfigView {
        MonitorConfigView {
            name: self.name@,
            schedule: self.schedule@,
            threshold_1min: self.threshold_1min,
            threshold_5min: self.threshold_5min,
            threshold_10min: self.threshold_10min,
            store_values: self.store_values,
            store_level: self.store_level,
        }
    }
}

impl Clone for MonitorConfig {
    fn clone(&self) -> (copy: MonitorConfig)
        ensures
            copy@ == self@,
    {
        MonitorConfig {
            name: self.name.clone(),
            schedule: self.schedule.clone(),
            threshold_1min: self.threshold_1min,
            threshold_5min: self.threshold_5min,
            threshold_10min: self.threshold_10min,
            store_values: self.store_values,
            store_level: self.store_level,
        }
    }
}

} // verus!
