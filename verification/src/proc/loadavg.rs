use crate::common::decimal::Decimal;
use crate::common::notation::{count_of, decimal_of, parse_count};
use crate::common::text::{fields, parts_around, split_around, split_fields, text_views};
use vstd::prelude::*;

verus! {

/// One readout of the system's load averages. A field is `None` where the system gave no
/// value for it.
#[derive(Debug, Clone, Copy, PartialEq, Eq)]
pub struct ProcsLoadavg {
    /// Load average over the last minute.
    pub loadavg1min: Option<Decimal>,
    /// Load average over the last five minutes.
    pub loadavg5min: Option<Decimal>,
    /// Load average over the last ten minutes.
    pub loadavg10min: Option<Decimal>,
    /// Number of processes that are running now.
    pub current_running_processes: Option<u32>,
    /// Number of processes in all.
    pub total_number_of_processes: Option<u32>,
}

/// The field at place `at` of a list of fields, or the empty text if the list is shorter.
pub open spec fn field_at(fields: Seq<Seq<char>>, at: int) -> Seq<char> {
    if 0 <= at < fields.len() {
        fields[at]
    } else {
        Seq::empty()
    }
}

fn field_of<'a>(found: &Vec<&'a str>, at: usize) -> (field: &'a str)
    ensures
        field@ == field_at(text_views(found@), at as int),
{
    if at < found.len() {
        found[at]
    } else {
        proof {
            reveal_strlit("");
        }
        assert(""@ =~= Seq::<char>::empty());
        ""
    }
}

impl ProcsLoadavg {
    /// A readout with the given values.
    pub fn new(
        loadavg1min: Option<Decimal>,
        loadavg5min: Option<Decimal>,
        loadavg10min: Option<Decimal>,
        current_running_processes: Option<u32>,
        total_number_of_processes: Option<u32>,
    ) -> (loadavg: ProcsLoadavg)
        ensures
            loadavg == (ProcsLoadavg {
                loadavg1min,
                loadavg5min,
                loadavg10min,
                current_running_processes,
                total_number_of_processes,
            }),
    {
        ProcsLoadavg {
            loadavg1min,
            loadavg5min,
            loadavg10min,
            current_running_processes,
            total_number_of_processes,
        }
    }

    /// The readout that the fields of the system's load average line hold: the three
    /// averages in decimal notation and the two process counts. A field that does not hold
    /// a number gives `None` for its value and leaves the others as they are.
    pub fn from_fields(
        loadavg1min: &str,
        loadavg5min: &str,
        loadavg10min: &str,
        current_running_processes: &str,
        total_number_of_processes: &str,
    ) -> (loadavg: ProcsLoadavg)
        ensures
            loadavg.loadavg1min == decimal_of(loadavg1min@),
            loadavg.loadavg5min == decimal_of(loadavg5min@),
            loadavg.loadavg10min == decimal_of(loadavg10min@),
            loadavg.current_running_processes == count_of(current_running_processes@),
            loadavg.total_number_of_processes == count_of(total_number_of_processes@),
    {
        ProcsLoadavg {
            loadavg1min: Decimal::parse(loadavg1min),
            loadavg5min: Decimal::parse(loadavg5min),
            loadavg10min: Decimal::parse(loadavg10min),
            current_running_processes: parse_count(current_running_processes),
            total_number_of_processes: parse_count(total_number_of_processes),
        }
    }

    /// The readout that the system's load average line holds. Its fields are the three
    /// averages, then the number of running processes and the number of all processes
    /// with a stroke between them: `0.20 0.18 0.12 1/80 11206`. A field that is missing or
    /// does not hold a number gives `None` for its value.
    pub fn parse(line: &str) -> (loadavg: ProcsLoadavg)
        ensures
            loadavg.loadavg1min == decimal_of(field_at(fields(line@), 0)),
            loadavg.loadavg5min == decimal_of(field_at(fields(line@), 1)),
            loadavg.loadavg10min == decimal_of(field_at(fields(line@), 2)),
            loadavg.current_running_processes == count_of(
                parts_around(field_at(fields(line@), 3), '/').0,
            ),
            loadavg.total_number_of_processes == count_of(
                parts_around(field_at(fields(line@), 3), '/').1,
            ),
    {
        let found = split_fields(line);
        let (running, total) = split_around(field_of(&found, 3), '/');
        ProcsLoadavg::from_fields(
            field_of(&found, 0),
            field_of(&found, 1),
            field_of(&found, 2),
            running,
            total,
        )
    }
}

} // verus!
