use crate::common::applicationerror::ApplicationError;
use crate::common::configuration::{store_authorized, DatabaseStoreLevel};
use crate::common::decimal::{decimal_text, Decimal};
use crate::common::monitorstatus::{Status, StatusView};
use crate::proc::loadavg::ProcsLoadavg;
use crate::services::cron::{cron_accepts, try_schedule};
use crate::services::monitors::monitor::Monitor;
use crate::services::registry::{registered, updated, Registry};
use vstd::prelude::*;
use vstd::string::StringExecFns;

verus! {

/// The message of a load average that lies above its ceiling.
pub open spec fn exceeded_message(current: int, max: int) -> Seq<char> {
    "Load average "@ + decimal_text(current) + " is greater than max load average "@
        + decimal_text(max)
}

/// The outcome of holding one load average against its ceiling. Without a ceiling, or
/// without a measurement, the check passes; with both it fails exactly when the measurement
/// is strictly greater.
pub open spec fn threshold_status(max: Option<Decimal>, current: Option<Decimal>) -> StatusView {
    match (max, current) {
        (Some(max), Some(current)) => if current@ > max@ {
            StatusView::Error { message: exceeded_message(current@, max@) }
        } else {
            StatusView::Okay
        },
        _ => StatusView::Okay,
    }
}

/// The message of a failed check: the outcome of each of the three averages, always in the
/// order one, five and ten minutes.
pub open spec fn failed_message(
    status_1min: StatusView,
    status_5min: StatusView,
    status_10min: StatusView,
) -> Seq<char> {
    "Load average check failed: 1min: "@ + status_1min.text() + ", 5min: "@ + status_5min.text()
        + ", 10min: "@ + status_10min.text()
}

/// The outcome of the whole check: `Okay` if all three averages pass, else an error that
/// lists all three outcomes.
pub open spec fn combined_status(
    status_1min: StatusView,
    status_5min: StatusView,
    status_10min: StatusView,
) -> StatusView {
    if status_1min is Okay && status_5min is Okay && status_10min is Okay {
        StatusView::Okay
    } else {
        StatusView::Error { message: failed_message(status_1min, status_5min, status_10min) }
    }
}

/// The message of a check whose readout could not be had.
pub open spec fn unreadable_message(cause: Seq<char>) -> Seq<char> {
    "Error getting load average: "@ + cause
}

/// The message of a job that could not be made.
pub open spec fn job_error_message(cause: Seq<char>) -> Seq<char> {
    "Could not create job: "@ + cause
}

/// A monitor that holds the system's load averages against optional ceilings.
#[derive(Debug, PartialEq, Eq)]
pub struct LoadAvgMonitor {
    /// The name of the monitor.
    pub name: String,
    /// Ceiling of the one-minute load average; `None` is no constraint.
    pub loadavg1min_max: Option<Decimal>,
    /// Ceiling of the five-minute load average; `None` is no constraint.
    pub loadavg5min_max: Option<Decimal>,
    /// Ceiling of the ten-minute load average; `None` is no constraint.
    pub loadavg10min_max: Option<Decimal>,
    /// The database store level.
    pub database_store_level: DatabaseStoreLevel,
    /// Whether readouts are stored at all.
    pub store_current_loadavg: bool,
}

/// The mathematical value of a [`LoadAvgMonitor`].
pub struct LoadAvgMonitorView {
    pub name: Seq<char>,
    pub loadavg1min_max: Option<Decimal>,
    pub loadavg5min_max: Option<Decimal>,
    pub loadavg10min_max: Option<Decimal>,
    pub database_store_level: DatabaseStoreLevel,
    pub store_current_loadavg: bool,
}

impl View for LoadAvgMonitor {
    type V = LoadAvgMonitorView;

    open spec fn view(&self) -> LoadAvgMonitorView {
        LoadAvgMonitorView {
            name: self.name@,
            loadavg1min_max: self.loadavg1min_max,
            loadavg5min_max: self.loadavg5min_max,
            loadavg10min_max: self.loadavg10min_max,
            database_store_level: self.database_store_level,
            store_current_loadavg: self.store_current_loadavg,
        }
    }
}

/// A monitor together with the schedule on which its check is to run.
#[derive(Debug, PartialEq, Eq)]
pub struct MonitorJob {
    /// The cron expression, one that the scheduler accepts.
    pub schedule: String,
    /// The monitor whose check runs on each tick.
    pub monitor: LoadAvgMonitor,
}

/// The mathematical value of a [`MonitorJob`].
pub struct MonitorJobView {
    pub schedule: Seq<char>,
    pub monitor: LoadAvgMonitorView,
}

impl View for MonitorJob {
    type V = MonitorJobView;

    open spec fn view(&self) -> MonitorJobView {
        MonitorJobView { schedule: self.schedule@, monitor: self.monitor@ }
    }
}

impl LoadAvgMonitorView {
    /// The outcome of a check on the readout `loadavg`.
    pub open spec fn classified(self, loadavg: ProcsLoadavg) -> StatusView {
        combined_status(
            threshold_status(self.loadavg1min_max, loadavg.loadavg1min),
            threshold_status(self.loadavg5min_max, loadavg.loadavg5min),
            threshold_status(self.loadavg10min_max, loadavg.loadavg10min),
        )
    }

    /// The outcome of a check, given the readout or the reason why there is none.
    pub open spec fn outcome(self, reading: Result<ProcsLoadavg, String>) -> StatusView {
        match reading {
            Ok(loadavg) => self.classified(loadavg),
            Err(cause) => StatusView::Error { message: unreadable_message(cause@) },
        }
    }

    /// Whether the readout of a check is to be stored.
    pub open spec fn stores(self, reading: Result<ProcsLoadavg, String>) -> bool {
        reading is Ok && store_authorized(
            self.store_current_loadavg,
            self.database_store_level,
            self.outcome(reading),
        )
    }
}

impl Clone for LoadAvgMonitor {
    fn clone(&self) -> (copy: LoadAvgMonitor)
        ensures
            copy@ == self@,
    {
        LoadAvgMonitor {
            name: self.name.clone(),
            loadavg1min_max: self.loadavg1min_max,
            loadavg5min_max: self.loadavg5min_max,
            loadavg10min_max: self.loadavg10min_max,
            database_store_level: self.database_store_level,
            store_current_loadavg: self.store_current_loadavg,
        }
    }
}

impl LoadAvgMonitor {
    /// Creates a load average monitor and registers its name in `status`, where it stands
    /// as `Unknown` until the first check (a name that is registered already keeps its
    /// status).
    pub fn new(
        name: &str,
        loadavg1min_max: Option<Decimal>,
        loadavg5min_max: Option<Decimal>,
        loadavg10min_max: Option<Decimal>,
        status: &mut Registry,
        database_store_level: &DatabaseStoreLevel,
        store_current_loadavg: bool,
    ) -> (monitor: LoadAvgMonitor)
        ensures
            monitor@ == (LoadAvgMonitorView {
                name: name@,
                loadavg1min_max,
                loadavg5min_max,
                loadavg10min_max,
                database_store_level: *database_store_level,
                store_current_loadavg,
            }),
            final(status)@ == registered(old(status)@, name@),
            final(status)@.contains_key(name@),
            !old(status)@.contains_key(name@) ==> final(status)@[name@] == StatusView::Unknown,
    {
        status.register(name);
        LoadAvgMonitor {
            name: String::from_str(name),
            loadavg1min_max,
            loadavg5min_max,
            loadavg10min_max,
            database_store_level: *database_store_level,
            store_current_loadavg,
        }
    }

    /// Holds one load average against its ceiling.
    ///
    /// Without a ceiling the check passes for every measurement. With a ceiling and a
    /// measurement it passes if and only if the measurement is at most the ceiling.
    pub fn check_loadavg_values(max: Option<Decimal>, current: Option<Decimal>) -> (status: Status)
        ensures
            status@ == threshold_status(max, current),
            max is None ==> status@ == StatusView::Okay,
            current is None ==> status@ == StatusView::Okay,
            max is Some && current is Some ==> (status@ is Okay <==> current->Some_0@ <= max->Some_0@),
            max is Some && current is Some ==> (status@ is Error <==> current->Some_0@ > max->Some_0@),
            !(status@ is Unknown),
    {
        let Some(current) = current else {
            return Status::Okay;
        };
        let Some(max) = max else {
            return Status::Okay;
        };
        if current.exceeds(&max) {
            let mut message = String::from_str("Load average ");
            message.append(current.to_text().as_str());
            message.append(" is greater than max load average ");
            message.append(max.to_text().as_str());
            return Status::Error { message };
        }
        Status::Okay
    }

    /// Classifies a readout: the check fails if and only if at least one of the three
    /// averages lies above its ceiling, and the error then lists all three outcomes.
    pub fn classify(&self, loadavg: &ProcsLoadavg) -> (status: Status)
        ensures
            status@ == self@.classified(*loadavg),
            status@ is Error <==> (threshold_status(self@.loadavg1min_max, loadavg.loadavg1min) is Error
                || threshold_status(self@.loadavg5min_max, loadavg.loadavg5min) is Error
                || threshold_status(self@.loadavg10min_max, loadavg.loadavg10min) is Error),
            status@ is Okay || status@ is Error,
            self@.loadavg1min_max is None && self@.loadavg5min_max is None
                && self@.loadavg10min_max is None ==> status@ == StatusView::Okay,
    {
        let status_1min = LoadAvgMonitor::check_loadavg_values(
            self.loadavg1min_max,
            loadavg.loadavg1min,
        );
        let status_5min = LoadAvgMonitor::check_loadavg_values(
            self.loadavg5min_max,
            loadavg.loadavg5min,
        );
        let status_10min = LoadAvgMonitor::check_loadavg_values(
            self.loadavg10min_max,
            loadavg.loadavg10min,
        );
        if !status_1min.is_okay() || !status_5min.is_okay() || !status_10min.is_okay() {
            let mut message = String::from_str("Load average check failed: 1min: ");
            message.append(status_1min.describe().as_str());
            message.append(", 5min: ");
            message.append(status_5min.describe().as_str());
            message.append(", 10min: ");
            message.append(status_10min.describe().as_str());
            Status::Error { message }
        } else {
            Status::Okay
        }
    }

    /// Checks a readout and writes the outcome as this monitor's status.
    pub fn check_loadavg(&self, status: &mut Registry, loadavg: &ProcsLoadavg)
        ensures
            final(status)@ == updated(old(status)@, self@.name, self@.classified(*loadavg)),
            final(status)@.dom() == old(status)@.dom(),
    {
        let outcome = self.classify(loadavg);
        self.set_status(status, &outcome);
    }

    /// Whether the readout of a check that ended in `outcome` is to be stored: storing must
    /// be switched on for this monitor, and its store level must authorize the outcome.
    pub fn check_store_current_loadavg(&self, outcome: &Status) -> (store: bool)
        ensures
            store == store_authorized(
                self@.store_current_loadavg,
                self@.database_store_level,
                outcome@,
            ),
    {
        self.store_current_loadavg && self.database_store_level.permits(outcome)
    }

    /// Evaluates what the gathering of the load averages gave: the readout, or the reason
    /// why there is none. The result is the status of the check, a failed gathering being
    /// an error, and whether the readout is to be stored. Nothing is written: whoever
    /// shares the registry evaluates first and holds it only to write the status.
    pub fn evaluate(&self, reading: &Result<ProcsLoadavg, String>) -> (found: (Status, bool))
        ensures
            found.0@ == self@.outcome(*reading),
            found.0@ is Okay || found.0@ is Error,
            found.1 == self@.stores(*reading),
            self@.database_store_level == DatabaseStoreLevel::Never ==> !found.1,
            reading is Ok && self@.store_current_loadavg && self@.database_store_level
                == DatabaseStoreLevel::All ==> found.1,
    {
        match reading {
            Ok(loadavg) => {
                let outcome = self.classify(loadavg);
                let store = self.check_store_current_loadavg(&outcome);
                (outcome, store)
            },
            Err(cause) => {
                let mut message = String::from_str("Error getting load average: ");
                message.append(cause.as_str());
                (Status::Error { message }, false)
            },
        }
    }

    /// Runs one check on what the gathering of the load averages gave: the readout, or the
    /// reason why there is none. The outcome becomes this monitor's status, a failed
    /// gathering as an error. The result says whether the readout is to be stored.
    pub fn check(&self, status: &mut Registry, reading: &Result<ProcsLoadavg, String>) -> (store:
        bool)
        ensures
            final(status)@ == updated(old(status)@, self@.name, self@.outcome(*reading)),
            final(status)@.dom() == old(status)@.dom(),
            store == self@.stores(*reading),
            self@.database_store_level == DatabaseStoreLevel::Never ==> !store,
            reading is Ok && self@.store_current_loadavg && self@.database_store_level
                == DatabaseStoreLevel::All ==> store,
    {
        let (outcome, store) = self.evaluate(reading);
        self.set_status(status, &outcome);
        store
    }

    /// The job of this monitor on `schedule`, or the error if the scheduler refuses the
    /// schedule.
    pub fn get_loadavg_monitor_job(&self, schedule: &str) -> (job: Result<
        MonitorJob,
        ApplicationError,
    >)
        ensures
            job is Ok <==> cron_accepts(schedule@),
            job matches Ok(made) ==> made@ == (MonitorJobView {
                schedule: schedule@,
                monitor: self@,
            }),
            job matches Err(error) ==> error@ == job_error_message("ParseSchedule"@),
    {
        let outcome = try_schedule(schedule);
        self.job_from_outcome(schedule, outcome)
    }

    /// The job of this monitor on `schedule`, given what the scheduler said of the
    /// schedule: nothing, or the reason why it refuses it.
    pub fn job_from_outcome(&self, schedule: &str, outcome: Result<(), String>) -> (job: Result<
        MonitorJob,
        ApplicationError,
    >)
        ensures
            match outcome {
                Ok(_) => job matches Ok(made) && made@ == (MonitorJobView {
                    schedule: schedule@,
                    monitor: self@,
                }),
                Err(cause) => job matches Err(error) && error@ == job_error_message(cause@),
            },
    {
        match outcome {
            Ok(_) => Ok(MonitorJob { schedule: String::from_str(schedule), monitor: self.clone() }),
            Err(cause) => {
                let mut message = String::from_str("Could not create job: ");
                message.append(cause.as_str());
                Err(ApplicationError { message })
            },
        }
    }
}

impl Monitor for LoadAvgMonitor {
    open spec fn name(&self) -> Seq<char> {
        self.name@
    }

    open spec fn store_level(&self) -> DatabaseStoreLevel {
        self.database_store_level
    }

    fn get_name(&self) -> (name: &str) {
        self.name.as_str()
    }

    fn get_database_store_level(&self) -> (level: DatabaseStoreLevel) {
        self.database_store_level
    }
}

} // verus!
