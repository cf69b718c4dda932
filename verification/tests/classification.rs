use monitoring_agent::common::{DatabaseStoreLevel, Decimal, Status};
use monitoring_agent::proc::ProcsLoadavg;
use monitoring_agent::services::monitors::{LoadAvgMonitor, Monitor};
use monitoring_agent::services::Registry;

#[test]
fn a_measurement_at_its_ceiling_passes_and_one_above_fails() {
    let ceiling = Some(Decimal::from_thousandths(1500));
    assert_eq!(
        LoadAvgMonitor::check_loadavg_values(ceiling, Some(Decimal::from_thousandths(1500))),
        Status::Okay
    );
    assert_eq!(
        LoadAvgMonitor::check_loadavg_values(ceiling, Some(Decimal::from_thousandths(1499))),
        Status::Okay
    );
    assert_eq!(
        LoadAvgMonitor::check_loadavg_values(ceiling, Some(Decimal::from_thousandths(1501))),
        Status::Error {
            message: "Load average 1.501 is greater than max load average 1.5".to_string()
        }
    );
}

#[test]
fn without_a_ceiling_every_measurement_passes() {
    let measurements: [i64; 7] = [i64::MIN, -1000, -1, 0, 1, 1_000_000, i64::MAX];
    for thousandths in measurements {
        assert_eq!(
            LoadAvgMonitor::check_loadavg_values(None, Some(Decimal::from_thousandths(thousandths))),
            Status::Okay
        );
    }
}

#[test]
fn negative_and_zero_ceilings_are_ceilings_like_any_other() {
    let zero = Some(Decimal::from_thousandths(0));
    assert_eq!(
        LoadAvgMonitor::check_loadavg_values(zero, Some(Decimal::from_thousandths(0))),
        Status::Okay
    );
    assert_eq!(
        LoadAvgMonitor::check_loadavg_values(zero, Some(Decimal::from_thousandths(10))),
        Status::Error {
            message: "Load average 0.01 is greater than max load average 0".to_string()
        }
    );
    let negative = Some(Decimal::from_thousandths(-2000));
    assert_eq!(
        LoadAvgMonitor::check_loadavg_values(negative, Some(Decimal::from_thousandths(-2000))),
        Status::Okay
    );
    assert_eq!(
        LoadAvgMonitor::check_loadavg_values(negative, Some(Decimal::from_thousandths(-1500))),
        Status::Error {
            message: "Load average -1.5 is greater than max load average -2".to_string()
        }
    );
}

#[test]
fn one_minute_above_its_ceiling_fails_the_check() {
    let mut status = Registry::new();
    let monitor = LoadAvgMonitor::new(
        "load",
        Some(Decimal::from_thousandths(1000)),
        Some(Decimal::from_thousandths(2000)),
        Some(Decimal::from_thousandths(3000)),
        &mut status,
        &DatabaseStoreLevel::Never,
        false,
    );
    let loadavg = ProcsLoadavg::new(
        Some(Decimal::from_thousandths(1100)),
        Some(Decimal::from_thousandths(2000)),
        Some(Decimal::from_thousandths(3000)),
        None,
        None,
    );
    assert_eq!(
        monitor.classify(&loadavg),
        Status::Error {
            message: "Load average check failed: 1min: Error { message: \"Load average 1.1 is greater than max load average 1\" }, 5min: Ok, 10min: Ok".to_string()
        }
    );
}

#[test]
fn without_any_ceiling_every_readout_passes() {
    let mut status = Registry::new();
    let monitor =
        LoadAvgMonitor::new("load", None, None, None, &mut status, &DatabaseStoreLevel::Never, false);
    let readouts = [
        ProcsLoadavg::new(None, None, None, None, None),
        ProcsLoadavg::new(
            Some(Decimal::from_thousandths(0)),
            Some(Decimal::from_thousandths(-5000)),
            Some(Decimal::from_thousandths(i64::MAX)),
            Some(0),
            Some(0),
        ),
        ProcsLoadavg::new(
            Some(Decimal::from_thousandths(123_456)),
            None,
            Some(Decimal::from_thousandths(i64::MIN)),
            Some(4),
            Some(400),
        ),
    ];
    for loadavg in readouts {
        assert_eq!(monitor.classify(&loadavg), Status::Okay);
        monitor.check_loadavg(&mut status, &loadavg);
        assert_eq!(status.get("load").unwrap().status, Status::Okay);
    }
}

#[test]
fn a_failed_check_lists_all_three_outcomes_in_the_same_order() {
    let mut status = Registry::new();
    let monitor = LoadAvgMonitor::new(
        "load",
        Some(Decimal::from_thousandths(1000)),
        Some(Decimal::from_thousandths(2000)),
        Some(Decimal::from_thousandths(3000)),
        &mut status,
        &DatabaseStoreLevel::Never,
        false,
    );
    let loadavg = ProcsLoadavg::new(
        Some(Decimal::from_thousandths(4250)),
        Some(Decimal::from_thousandths(3500)),
        Some(Decimal::from_thousandths(3001)),
        Some(9),
        Some(90),
    );
    let expected = Status::Error {
        message: "Load average check failed: 1min: Error { message: \"Load average 4.25 is greater than max load average 1\" }, 5min: Error { message: \"Load average 3.5 is greater than max load average 2\" }, 10min: Error { message: \"Load average 3.001 is greater than max load average 3\" }".to_string(),
    };
    assert_eq!(monitor.classify(&loadavg), expected);
    assert_eq!(monitor.classify(&loadavg), expected);
}

#[test]
fn construction_registers_the_monitor_as_unknown() {
    let mut status = Registry::new();
    let monitor = LoadAvgMonitor::new(
        "load",
        Some(Decimal::from_thousandths(1000)),
        None,
        Some(Decimal::from_thousandths(3000)),
        &mut status,
        &DatabaseStoreLevel::Errors,
        true,
    );
    assert_eq!(status.len(), 1);
    assert_eq!(status.get("load").unwrap().status, Status::Unknown);
    assert_eq!(monitor.name, "load");
    assert_eq!(monitor.loadavg1min_max, Some(Decimal::from_thousandths(1000)));
    assert_eq!(monitor.loadavg5min_max, None);
    assert_eq!(monitor.loadavg10min_max, Some(Decimal::from_thousandths(3000)));
    assert_eq!(monitor.get_name(), "load");
    assert_eq!(monitor.get_database_store_level(), DatabaseStoreLevel::Errors);
    assert!(monitor.store_current_loadavg);
    assert_eq!(monitor.clone(), monitor);
}

#[test]
fn a_check_changes_only_the_monitors_own_entry() {
    let mut status = Registry::new();
    let ceiling = Some(Decimal::from_thousandths(1000));
    let first =
        LoadAvgMonitor::new("first", ceiling, None, None, &mut status, &DatabaseStoreLevel::Never, false);
    let second =
        LoadAvgMonitor::new("second", ceiling, None, None, &mut status, &DatabaseStoreLevel::Never, false);
    let busy = ProcsLoadavg::new(Some(Decimal::from_thousandths(2000)), None, None, None, None);
    first.check_loadavg(&mut status, &busy);
    assert!(status.get("first").unwrap().status.is_error());
    assert_eq!(status.get("second").unwrap().status, Status::Unknown);
    second.set_status(&mut status, &Status::Okay);
    assert!(status.get("first").unwrap().status.is_error());
    assert_eq!(status.get("second").unwrap().status, Status::Okay);
    assert_eq!(status.len(), 2);
}

#[test]
fn a_check_on_a_registry_without_the_monitor_writes_nothing() {
    let mut status = Registry::new();
    let monitor =
        LoadAvgMonitor::new("load", None, None, None, &mut status, &DatabaseStoreLevel::Never, false);
    let mut other = Registry::new();
    monitor.check_loadavg(&mut other, &ProcsLoadavg::new(None, None, None, None, None));
    assert_eq!(other.len(), 0);
    assert_eq!(status.get("load").unwrap().status, Status::Unknown);
}
