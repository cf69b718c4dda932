use monitoring_agent::api::{CpuinfoResponse, MeminfoResponse};
use monitoring_agent::common::Decimal;
use monitoring_agent::proc::{ProcsCpuinfo, ProcsMeminfo};

#[test]
fn meminfo_response_new_keeps_its_values() {
    let response = MeminfoResponse::new(Some(16), Some(8), Some(12), Some(4), Some(2));
    assert_eq!(response.total_mem, Some(16));
    assert_eq!(response.free_mem, Some(8));
    assert_eq!(response.available_mem, Some(12));
    assert_eq!(response.swap_total, Some(4));
    assert_eq!(response.swap_free, Some(2));
    assert_eq!(
        MeminfoResponse::new(None, None, None, None, None),
        MeminfoResponse {
            total_mem: None,
            free_mem: None,
            available_mem: None,
            swap_total: None,
            swap_free: None
        }
    );
}

#[test]
fn meminfo_response_from_a_readout() {
    let readout = ProcsMeminfo::new(Some(16), Some(8), Some(12), Some(4), Some(2));
    let response = MeminfoResponse::from_meminfo(&readout);
    assert_eq!(response.total_mem, Some(16));
    assert_eq!(response.free_mem, Some(8));
    assert_eq!(response.available_mem, Some(12));
    assert_eq!(response.swap_total, Some(4));
    assert_eq!(response.swap_free, Some(4));
    let empty = MeminfoResponse::from_meminfo(&ProcsMeminfo::new(None, None, None, None, Some(2)));
    assert_eq!(empty, MeminfoResponse::new(None, None, None, None, None));
}

#[test]
fn cpuinfo_response_new_keeps_its_values() {
    let response = CpuinfoResponse::new(
        Some(3),
        Some("AuthenticAMD".to_string()),
        Some("25".to_string()),
        Some("33".to_string()),
        Some("AMD Ryzen 9 5900X 12-Core Processor".to_string()),
        Some(12),
        Some(Decimal::from_thousandths(3_593_248)),
    );
    assert_eq!(response.apicid, Some(3));
    assert_eq!(response.vendor_id, Some("AuthenticAMD".to_string()));
    assert_eq!(response.cpu_family, Some("25".to_string()));
    assert_eq!(response.model, Some("33".to_string()));
    assert_eq!(response.model_name, Some("AMD Ryzen 9 5900X 12-Core Processor".to_string()));
    assert_eq!(response.cpu_cores, Some(12));
    assert_eq!(response.cpu_mhz, Some(Decimal::from_thousandths(3_593_248)));
    assert_eq!(response.clone(), response);
}

#[test]
fn cpuinfo_responses_follow_the_processors_one_by_one() {
    let processors = vec![
        ProcsCpuinfo::new(
            Some(0),
            Some("GenuineIntel".to_string()),
            Some("6".to_string()),
            Some("158".to_string()),
            Some("Intel(R) Core(TM) i7".to_string()),
            Some(4),
            Some(Decimal::from_thousandths(2_400_000)),
        ),
        ProcsCpuinfo::new(None, None, None, None, None, None, None),
        ProcsCpuinfo::new(
            Some(2),
            None,
            Some("6".to_string()),
            None,
            None,
            Some(4),
            Some(Decimal::from_thousandths(800_125)),
        ),
    ];
    let responses = CpuinfoResponse::from_cpuinfo(&processors);
    assert_eq!(responses.len(), 3);
    assert_eq!(
        responses[0],
        CpuinfoResponse::new(
            Some(0),
            Some("GenuineIntel".to_string()),
            Some("6".to_string()),
            Some("158".to_string()),
            Some("Intel(R) Core(TM) i7".to_string()),
            Some(4),
            Some(Decimal::from_thousandths(2_400_000)),
        )
    );
    assert_eq!(responses[1], CpuinfoResponse::new(None, None, None, None, None, None, None));
    assert_eq!(responses[2].apicid, Some(2));
    assert_eq!(responses[2].vendor_id, None);
    assert_eq!(responses[2].cpu_mhz, Some(Decimal::from_thousandths(800_125)));
    assert!(CpuinfoResponse::from_cpuinfo(&[]).is_empty());
    assert_eq!(processors[0].clone(), processors[0]);
}
