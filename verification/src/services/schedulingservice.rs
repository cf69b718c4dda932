use crate::common::applicationerror::ApplicationError;
use crate::common::configuration::MonitorConfig;
use crate::common::monitorstatus::{MonitorStatusView, StatusView};
use crate::services::cron::cron_accepts;
use crate::services::monitors::loadavgmonitor::{
    job_error_message, LoadAvgMonitor, LoadAvgMonitorView, MonitorJob, MonitorJobView,
};
use crate::services::registry::{
    last_update, lemma_updates_are_not_lost, registered, updated_all, Registry,
};
use vstd::prelude::*;

verus! {

/// A monitor for which no job could be made, with the reason.
#[derive(Debug, PartialEq, Eq)]
pub struct SkippedMonitor {
    /// The name of the monitor.
    pub name: String,
    /// Why it has no job.
    pub error: ApplicationError,
}

/// The mathematical value of a [`SkippedMonitor`].
pub struct SkippedMonitorView {
    pub name: Seq<char>,
    pub error: Seq<char>,
}

impl View for SkippedMonitor {
    type V = SkippedMonitorView;

    open spec fn view(&self) -> SkippedMonitorView {
        SkippedMonitorView { name: self.name@, error: self.error@ }
    }
}

/// The monitor that a configuration describes.
pub open spec fn configured_monitor(config: MonitorConfig) -> LoadAvgMonitorView {
    LoadAvgMonitorView {
        name: config.name@,
        loadavg1min_max: config.threshold_1min,
        loadavg5min_max: config.threshold_5min,
        loadavg10min_max: config.threshold_10min,
        database_store_level: config.store_level,
        store_current_loadavg: config.store_values,
    }
}

/// The jobs of a list of configurations: one for each whose schedule the scheduler
/// accepts, in the order of the list.
pub open spec fn planned_jobs(configs: Seq<MonitorConfig>) -> Seq<MonitorJobView>
    decreases configs.len(),
{
    if configs.len() == 0 {
        Seq::empty()
    } else {
        let last = configs.last();
        let front = planned_jobs(configs.drop_last());
        if cron_accepts(last.schedule@) {
            front.push(
                MonitorJobView { schedule: last.schedule@, monitor: configured_monitor(last) },
            )
        } else {
            front
        }
    }
}

/// The monitors of a list of configurations that get no job: each whose schedule the
/// scheduler refuses, in the order of the list.
pub open spec fn skipped_monitors(configs: Seq<MonitorConfig>) -> Seq<SkippedMonitorView>
    decreases configs.len(),
{
    if configs.len() == 0 {
        Seq::empty()
    } else {
        let last = configs.last();
        let front = skipped_monitors(configs.drop_last());
        if cron_accepts(last.schedule@) {
            front
        } else {
            front.push(
                SkippedMonitorView {
                    name: last.name@,
                    error: job_error_message("ParseSchedule"@),
                },
            )
        }
    }
}

/// The registry after the monitors of a list of configurations were constructed.
pub open spec fn registered_all(
    statuses: Map<Seq<char>, StatusView>,
    configs: Seq<MonitorConfig>,
) -> Map<Seq<char>, StatusView>
    decreases configs.len(),
{
    if configs.len() == 0 {
        statuses
    } else {
        registered(registered_all(statuses, configs.drop_last()), configs.last().name@)
    }
}

/// Some configuration in the list carries `name`.
pub open spec fn configures(configs: Seq<MonitorConfig>, name: Seq<char>) -> bool {
    exists|i: int| 0 <= i < configs.len() && (#[trigger] configs[i]).name@ == name
}

/// After the monitors of a list of configurations were constructed, the registry holds
/// the names it held before, each with its old status, and every configured name beside
/// them, each as `Unknown`.
pub proof fn lemma_registered_all(statuses: Map<Seq<char>, StatusView>, configs: Seq<MonitorConfig>)
    ensures
        forall|name: Seq<char>| #[trigger]
            registered_all(statuses, configs).contains_key(name) <==> (statuses.contains_key(name)
                || configures(configs, name)),
        forall|name: Seq<char>|
            statuses.contains_key(name) ==> #[trigger] registered_all(statuses, configs)[name]
                == statuses[name],
        forall|name: Seq<char>|
            !statuses.contains_key(name) && configures(configs, name) ==> #[trigger] registered_all(
                statuses,
                configs,
            )[name] == StatusView::Unknown,
    decreases configs.len(),
{
    if configs.len() > 0 {
        let front = configs.drop_last();
        let last = configs.last();
        lemma_registered_all(statuses, front);
        assert forall|name: Seq<char>| configures(configs, name) <==> (configures(front, name)
            || name == last.name@) by {
            if configures(front, name) {
                let i = choose|i: int| 0 <= i < front.len() && (#[trigger] front[i]).name@ == name;
                assert(configs[i].name@ == name);
            }
            if name == last.name@ {
                assert(configs[configs.len() - 1].name@ == name);
            }
            if configures(configs, name) {
                let i = choose|i: int| 0 <= i < configs.len() && (#[trigger] configs[i]).name@ == name;
                if i < front.len() {
                    assert(front[i].name@ == name);
                }
            }
        }
    }
}

/// No two configurations carry the same name.
pub open spec fn distinct_config_names(configs: Seq<MonitorConfig>) -> bool {
    forall|i: int, j: int|
        0 <= i < j < configs.len() ==> (#[trigger] configs[i]).name@ != (#[trigger] configs[j]).name@
}

/// Constructing the monitors of configurations with distinct names in an empty registry
/// leaves as many entries as there are monitors.
pub proof fn lemma_registered_all_len(configs: Seq<MonitorConfig>)
    requires
        distinct_config_names(configs),
    ensures
        registered_all(Map::empty(), configs).dom().finite(),
        registered_all(Map::empty(), configs).dom().len() == configs.len(),
    decreases configs.len(),
{
    let empty = Map::<Seq<char>, StatusView>::empty();
    if configs.len() > 0 {
        let front = configs.drop_last();
        let last = configs.last();
        assert(distinct_config_names(front)) by {
            assert forall|i: int, j: int| 0 <= i < j < front.len() implies (#[trigger] front[i]).name@
                != (#[trigger] front[j]).name@ by {
                assert(configs[i].name@ != configs[j].name@);
            }
        }
        lemma_registered_all_len(front);
        lemma_registered_all(empty, front);
        assert(!registered_all(empty, front).contains_key(last.name@)) by {
            if configures(front, last.name@) {
                let i = choose|i: int| 0 <= i < front.len() && (#[trigger] front[i]).name@ == last.name@;
                assert(configs[i].name@ != configs[configs.len() - 1].name@);
            }
        }
        assert(registered_all(empty, configs).dom() =~= registered_all(empty, front).dom().insert(
            last.name@,
        ));
    }
}

/// One entry for each monitor, whatever the order of the checks: after the monitors of
/// configurations with distinct names were constructed in an empty registry and their
/// checks wrote their outcomes in any order, the registry holds as many entries as there
/// are monitors, and each monitor's entry holds the outcome of its own last check, or
/// `Unknown` if it has not run yet.
pub proof fn lemma_one_entry_per_monitor(
    configs: Seq<MonitorConfig>,
    updates: Seq<MonitorStatusView>,
)
    requires
        distinct_config_names(configs),
    ensures
        ({
            let constructed = registered_all(Map::empty(), configs);
            let after = updated_all(constructed, updates);
            &&& after.dom().finite()
            &&& after.dom().len() == configs.len()
            &&& forall|i: int|
                0 <= i < configs.len() ==> after.contains_key((#[trigger] configs[i]).name@)
                    && after[configs[i].name@] == match last_update(updates, configs[i].name@) {
                    Some(status) => status,
                    None => StatusView::Unknown,
                }
        }),
{
    let empty = Map::<Seq<char>, StatusView>::empty();
    let constructed = registered_all(empty, configs);
    let after = updated_all(constructed, updates);
    lemma_registered_all_len(configs);
    lemma_registered_all(empty, configs);
    lemma_updates_are_not_lost(constructed, updates);
    assert forall|i: int| 0 <= i < configs.len() implies after.contains_key(
        (#[trigger] configs[i]).name@,
    ) && after[configs[i].name@] == match last_update(updates, configs[i].name@) {
        Some(status) => status,
        None => StatusView::Unknown,
    } by {
        assert(configures(configs, configs[i].name@));
        assert(constructed.contains_key(configs[i].name@));
        assert(constructed[configs[i].name@] == StatusView::Unknown);
    }
}

/// The jobs and the skipped monitors of a list of configurations together account for
/// each configuration once: one bad schedule costs one monitor its job, and no other.
pub proof fn lemma_every_monitor_planned_or_skipped(configs: Seq<MonitorConfig>)
    ensures
        planned_jobs(configs).len() + skipped_monitors(configs).len() == configs.len(),
    decreases configs.len(),
{
    if configs.len() > 0 {
        lemma_every_monitor_planned_or_skipped(configs.drop_last());
    }
}

/// The jobs of the configured monitors, and whether their ticking has been started.
#[derive(Debug)]
pub struct SchedulingService {
    jobs: Vec<MonitorJob>,
    skipped: Vec<SkippedMonitor>,
    started: bool,
}

impl SchedulingService {
    /// The jobs that were made, in the order of the configuration.
    pub closed spec fn jobs(&self) -> Seq<MonitorJobView> {
        Seq::new(self.jobs@.len(), |i: int| self.jobs@[i]@)
    }

    /// The monitors that got no job, in the order of the configuration.
    pub closed spec fn skipped(&self) -> Seq<SkippedMonitorView> {
        Seq::new(self.skipped@.len(), |i: int| self.skipped@[i]@)
    }

    /// Whether the ticking has been started.
    pub closed spec fn started(&self) -> bool {
        self.started
    }

    /// Constructs the monitor of every configuration, which registers its name in `status`,
    /// and makes a job for each whose schedule the scheduler accepts. A monitor whose
    /// schedule is refused is skipped; the others are not affected. Nothing ticks yet.
    pub fn new(configs: &Vec<MonitorConfig>, status: &mut Registry) -> (service: SchedulingService)
        ensures
            service.jobs() == planned_jobs(configs@),
            service.skipped() == skipped_monitors(configs@),
            !service.started(),
            final(status)@ == registered_all(old(status)@, configs@),
            forall|name: Seq<char>| #[trigger]
                final(status)@.contains_key(name) <==> (old(status)@.contains_key(name)
                    || configures(configs@, name)),
            forall|name: Seq<char>|
                old(status)@.contains_key(name) ==> #[trigger] final(status)@[name] == old(
                    status,
                )@[name],
            forall|name: Seq<char>|
                !old(status)@.contains_key(name) && configures(configs@, name)
                    ==> #[trigger] final(status)@[name] == StatusView::Unknown,
    {
        let mut jobs: Vec<MonitorJob> = Vec::new();
        let mut skipped: Vec<SkippedMonitor> = Vec::new();
        let mut i: usize = 0;
        while i < configs.len()
            invariant
                i <= configs.len(),
                Seq::new(jobs@.len(), |k: int| jobs@[k]@) == planned_jobs(configs@.take(i as int)),
                Seq::new(skipped@.len(), |k: int| skipped@[k]@) == skipped_monitors(
                    configs@.take(i as int),
                ),
                status@ == registered_all(old(status)@, configs@.take(i as int)),
            decreases configs.len() - i,
        {
            let config = &configs[i];
            proof {
                assert(configs@.take(i + 1).drop_last() =~= configs@.take(i as int));
                assert(configs@.take(i + 1).last() == configs@[i as int]);
            }
            let ghost jobs_before = Seq::new(jobs@.len(), |k: int| jobs@[k]@);
            let ghost skipped_before = Seq::new(skipped@.len(), |k: int| skipped@[k]@);
            let monitor = LoadAvgMonitor::new(
                config.name.as_str(),
                config.threshold_1min,
                config.threshold_5min,
                config.threshold_10min,
                status,
                &config.store_level,
                config.store_values,
            );
            match monitor.get_loadavg_monitor_job(config.schedule.as_str()) {
                Ok(job) => {
                    jobs.push(job);
                    assert(Seq::new(jobs@.len(), |k: int| jobs@[k]@) =~= jobs_before.push(job@));
                },
                Err(error) => {
                    let entry = SkippedMonitor { name: config.name.clone(), error };
                    skipped.push(entry);
                    assert(Seq::new(skipped@.len(), |k: int| skipped@[k]@) =~= skipped_before.push(
                        entry@,
                    ));
                },
            }
            i += 1;
        }
        proof {
            assert(configs@.take(configs@.len() as int) =~= configs@);
            lemma_registered_all(old(status)@, configs@);
        }
        SchedulingService { jobs, skipped, started: false }
    }

    /// Starts the ticking, unless `test` asks for a dry run, in which the jobs are made and
    /// checked but never run. The result says whether the jobs are to tick from now on.
    /// Once started, the service stays started.
    pub fn start(&mut self, test: bool) -> (run: bool)
        ensures
            run == !test,
            final(self).started() == (old(self).started() || !test),
            final(self).jobs() == old(self).jobs(),
            final(self).skipped() == old(self).skipped(),
    {
        if !test {
            self.started = true;
        }
        !test
    }

    /// Whether the ticking has been started.
    pub fn is_started(&self) -> (started: bool)
        ensures
            started == self.started(),
    {
        self.started
    }

    /// The jobs that were made, in the order of the configuration.
    pub fn get_jobs(&self) -> (jobs: &Vec<MonitorJob>)
        ensures
            Seq::new(jobs@.len(), |i: int| jobs@[i]@) == self.jobs(),
    {
        &self.jobs
    }

    /// The monitors that got no job, in the order of the configuration.
    pub fn get_skipped(&self) -> (skipped: &Vec<SkippedMonitor>)
        ensures
            Seq::new(skipped@.len(), |i: int| skipped@[i]@) == self.skipped(),
    {
        &self.skipped
    }
}

} // verus!
