use monitoring_agent::common::Decimal;
use monitoring_agent::proc::ProcsCpuinfo;

#[test]
fn cpuinfo_parse_reads_each_processor() {
    let table = "processor\t: 0\nvendor_id\t: GenuineIntel\ncpu family\t: 6\nmodel\t\t: 142\nmodel name\t: Intel(R) Core(TM) i7-8550U CPU @ 1.80GHz\nstepping\t: 10\ncpu MHz\t\t: 2000.000\ncache size\t: 8192 KB\nphysical id\t: 0\nsiblings\t: 8\ncore id\t\t: 0\ncpu cores\t: 4\napicid\t\t: 0\ninitial apicid\t: 0\nflags\t\t: fpu vme de\n\nprocessor\t: 1\nvendor_id\t: GenuineIntel\ncpu family\t: 6\nmodel\t\t: 142\nmodel name\t: Intel(R) Core(TM) i7-8550U CPU @ 1.80GHz\ncpu MHz\t\t: 1992.125\ncpu cores\t: 4\napicid\t\t: 2\n\n";
    assert_eq!(
        ProcsCpuinfo::parse(table),
        vec![
            ProcsCpuinfo::new(
                Some(0),
                Some("GenuineIntel".to_string()),
                Some("6".to_string()),
                Some("142".to_string()),
                Some("Intel(R) Core(TM) i7-8550U CPU @ 1.80GHz".to_string()),
                Some(4),
                Some(Decimal::from_thousandths(2_000_000)),
            ),
            ProcsCpuinfo::new(
                Some(2),
                Some("GenuineIntel".to_string()),
                Some("6".to_string()),
                Some("142".to_string()),
                Some("Intel(R) Core(TM) i7-8550U CPU @ 1.80GHz".to_string()),
                Some(4),
                Some(Decimal::from_thousandths(1_992_125)),
            ),
        ]
    );
}

#[test]
fn cpuinfo_parse_leaves_out_what_the_table_does_not_say() {
    assert_eq!(ProcsCpuinfo::parse(""), Vec::<ProcsCpuinfo>::new());
    assert_eq!(ProcsCpuinfo::parse("vendor_id : lost\nmodel : 1\n"), Vec::<ProcsCpuinfo>::new());
    assert_eq!(
        ProcsCpuinfo::parse("processor : 0"),
        vec![ProcsCpuinfo::new(None, None, None, None, None, None, None)]
    );
    assert_eq!(
        ProcsCpuinfo::parse("processor:0\napicid: 256\ncpu cores: many\ncpu MHz: fast\nmodel name:\nvendor_id\nmodel: a: b\n"),
        vec![ProcsCpuinfo::new(
            None,
            None,
            None,
            Some("a: b".to_string()),
            Some(String::new()),
            None,
            None
        )]
    );
    assert_eq!(
        ProcsCpuinfo::parse("processor : 0\nmodel : 1\nmodel : 2\nprocessor : 1\nprocessor : 2\napicid : 7"),
        vec![
            ProcsCpuinfo::new(None, None, None, Some("2".to_string()), None, None, None),
            ProcsCpuinfo::new(None, None, None, None, None, None, None),
            ProcsCpuinfo::new(Some(7), None, None, None, None, None, None),
        ]
    );
}
