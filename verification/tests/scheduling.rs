use monitoring_agent::common::{ApplicationError, DatabaseStoreLevel, Decimal, MonitorConfig, Status};
use monitoring_agent::services::monitors::LoadAvgMonitor;
use monitoring_agent::services::{Registry, SchedulingService};

#[test]
fn a_job_is_made_for_a_schedule_that_the_scheduler_accepts() {
    let mut status = Registry::new();
    let monitor = LoadAvgMonitor::new(
        "load",
        Some(Decimal::from_thousandths(1000)),
        None,
        None,
        &mut status,
        &DatabaseStoreLevel::Never,
        false,
    );
    let job = monitor.get_loadavg_monitor_job("0 */5 * * * *").unwrap();
    assert_eq!(job.schedule, "0 */5 * * * *");
    assert_eq!(job.monitor, monitor);
    assert!(monitor.get_loadavg_monitor_job("*/10 * * * * *").is_ok());
    assert!(monitor.get_loadavg_monitor_job("0 15 6,8,10 * Mar,Jun Fri").is_ok());
}

#[test]
fn a_schedule_that_the_scheduler_refuses_gives_an_error() {
    let mut status = Registry::new();
    let monitor =
        LoadAvgMonitor::new("load", None, None, None, &mut status, &DatabaseStoreLevel::Never, false);
    let refused = ["", "every minute", "* * * * *", "61 * * * * *", "0 0 25 * * *", "* * * * * * * *"];
    for schedule in refused {
        assert_eq!(
            monitor.get_loadavg_monitor_job(schedule),
            Err(ApplicationError::new("Could not create job: ParseSchedule"))
        );
    }
}

#[test]
fn job_from_outcome_follows_what_the_scheduler_said() {
    let mut status = Registry::new();
    let monitor =
        LoadAvgMonitor::new("load", None, None, None, &mut status, &DatabaseStoreLevel::All, true);
    let made = monitor.job_from_outcome("0 * * * * *", Ok(())).unwrap();
    assert_eq!(made.schedule, "0 * * * * *");
    assert_eq!(made.monitor, monitor);
    let refused = monitor.job_from_outcome("whenever", Err("no such schedule".to_string()));
    assert_eq!(refused, Err(ApplicationError::new("Could not create job: no such schedule")));
    assert_eq!(refused.unwrap_err().get_message(), "Could not create job: no such schedule");
}

#[test]
fn one_bad_schedule_costs_one_monitor_its_job_and_no_other() {
    let configs = vec![
        MonitorConfig {
            name: "first".to_string(),
            schedule: "0 * * * * *".to_string(),
            threshold_1min: Some(Decimal::from_thousandths(1000)),
            threshold_5min: None,
            threshold_10min: None,
            store_values: false,
            store_level: DatabaseStoreLevel::Never,
        },
        MonitorConfig {
            name: "second".to_string(),
            schedule: "now and then".to_string(),
            threshold_1min: None,
            threshold_5min: Some(Decimal::from_thousandths(2000)),
            threshold_10min: None,
            store_values: true,
            store_level: DatabaseStoreLevel::Errors,
        },
        MonitorConfig {
            name: "third".to_string(),
            schedule: "30 */2 * * * *".to_string(),
            threshold_1min: None,
            threshold_5min: None,
            threshold_10min: Some(Decimal::from_thousandths(3000)),
            store_values: true,
            store_level: DatabaseStoreLevel::All,
        },
    ];
    let mut status = Registry::new();
    let service = SchedulingService::new(&configs, &mut status);

    let jobs = service.get_jobs();
    assert_eq!(jobs.len(), 2);
    assert_eq!(jobs[0].schedule, "0 * * * * *");
    assert_eq!(jobs[0].monitor.name, "first");
    assert_eq!(jobs[0].monitor.loadavg1min_max, Some(Decimal::from_thousandths(1000)));
    assert_eq!(jobs[0].monitor.database_store_level, DatabaseStoreLevel::Never);
    assert!(!jobs[0].monitor.store_current_loadavg);
    assert_eq!(jobs[1].schedule, "30 */2 * * * *");
    assert_eq!(jobs[1].monitor.name, "third");
    assert_eq!(jobs[1].monitor.loadavg10min_max, Some(Decimal::from_thousandths(3000)));
    assert_eq!(jobs[1].monitor.database_store_level, DatabaseStoreLevel::All);
    assert!(jobs[1].monitor.store_current_loadavg);

    let skipped = service.get_skipped();
    assert_eq!(skipped.len(), 1);
    assert_eq!(skipped[0].name, "second");
    assert_eq!(skipped[0].error, ApplicationError::new("Could not create job: ParseSchedule"));
}

#[test]
fn every_configured_monitor_is_registered_as_unknown() {
    let configs = vec![
        MonitorConfig {
            name: "first".to_string(),
            schedule: "0 * * * * *".to_string(),
            threshold_1min: None,
            threshold_5min: None,
            threshold_10min: None,
            store_values: false,
            store_level: DatabaseStoreLevel::Never,
        },
        MonitorConfig {
            name: "second".to_string(),
            schedule: "not a schedule".to_string(),
            threshold_1min: None,
            threshold_5min: None,
            threshold_10min: None,
            store_values: false,
            store_level: DatabaseStoreLevel::Never,
        },
    ];
    let mut status = Registry::new();
    status.register("older");
    status.set("older", Status::Okay);
    let _service = SchedulingService::new(&configs, &mut status);
    assert_eq!(status.len(), 3);
    assert_eq!(status.get("first").unwrap().status, Status::Unknown);
    assert_eq!(status.get("second").unwrap().status, Status::Unknown);
    assert_eq!(status.get("older").unwrap().status, Status::Okay);
}

#[test]
fn no_configuration_gives_no_job() {
    let configs: Vec<MonitorConfig> = Vec::new();
    let mut status = Registry::new();
    let service = SchedulingService::new(&configs, &mut status);
    assert!(service.get_jobs().is_empty());
    assert!(service.get_skipped().is_empty());
    assert_eq!(status.len(), 0);
    assert!(!service.is_started());
}

#[test]
fn a_dry_run_makes_the_jobs_and_starts_nothing() {
    let configs = vec![MonitorConfig {
        name: "load".to_string(),
        schedule: "0 * * * * *".to_string(),
        threshold_1min: None,
        threshold_5min: None,
        threshold_10min: None,
        store_values: false,
        store_level: DatabaseStoreLevel::Never,
    }];
    let mut status = Registry::new();
    let mut service = SchedulingService::new(&configs, &mut status);
    assert!(!service.start(true));
    assert!(!service.is_started());
    assert_eq!(service.get_jobs().len(), 1);
    assert_eq!(status.get("load").unwrap().status, Status::Unknown);
}

#[test]
fn start_runs_the_jobs_and_stays_started() {
    let configs = vec![MonitorConfig {
        name: "load".to_string(),
        schedule: "0 * * * * *".to_string(),
        threshold_1min: None,
        threshold_5min: None,
        threshold_10min: None,
        store_values: false,
        store_level: DatabaseStoreLevel::Never,
    }];
    let mut status = Registry::new();
    let mut service = SchedulingService::new(&configs, &mut status);
    assert!(service.start(false));
    assert!(service.is_started());
    assert!(!service.start(true));
    assert!(service.is_started());
    assert_eq!(service.get_jobs().len(), 1);
}

#[test]
fn application_error_keeps_its_message() {
    let error = ApplicationError::new("Could not create job: ParseSchedule");
    assert_eq!(error.message, "Could not create job: ParseSchedule");
    assert_eq!(error.get_message(), "Could not create job: ParseSchedule");
    assert_eq!(error.clone(), error);
}

#[test]
fn monitor_config_clone_keeps_its_values() {
    let config = MonitorConfig {
        name: "load".to_string(),
        schedule: "0 * * * * *".to_string(),
        threshold_1min: Some(Decimal::from_thousandths(1)),
        threshold_5min: None,
        threshold_10min: Some(Decimal::from_thousandths(3)),
        store_values: true,
        store_level: DatabaseStoreLevel::Errors,
    };
    assert_eq!(config.clone(), config);
}
