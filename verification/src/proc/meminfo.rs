use crate::common::notation::{amount_of, parse_amount};
use crate::common::text::{fields, split_fields, text_views};
use vstd::prelude::*;

verus! {

/// One readout of the system's memory counters. A field is `None` where the system gave
/// no value for it.
#[derive(Debug, Clone, Copy, PartialEq, Eq)]
pub struct ProcsMeminfo {
    /// Total usable memory.
    pub memtotal: Option<u64>,
    /// Memory that is not in use.
    pub memfree: Option<u64>,
    /// Memory that can be given to a new process without swapping.
    pub memavailable: Option<u64>,
    /// Total swap space.
    pub swaptotal: Option<u64>,
    /// Swap space that is not in use.
    pub swapfree: Option<u64>,
}

/// The field that follows the first field equal to `key`, if there is one.
pub open spec fn field_after(fields: Seq<Seq<char>>, key: Seq<char>) -> Option<Seq<char>>
    decreases fields.len(),
{
    if fields.len() < 2 {
        None
    } else if fields[0] == key {
        Some(fields[1])
    } else {
        field_after(fields.drop_first(), key)
    }
}

/// The amount that follows the first field equal to `key`, if a number stands there.
pub open spec fn amount_after(fields: Seq<Seq<char>>, key: Seq<char>) -> Option<u64> {
    match field_after(fields, key) {
        Some(field) => amount_of(field),
        None => None,
    }
}

fn read_amount_after(found: &Vec<&str>, key: &str) -> (amount: Option<u64>)
    ensures
        amount == amount_after(text_views(found@), key@),
{
    let wanted = key.to_owned();
    let ghost all = text_views(found@);
    let mut i: usize = 0;
    assert(all.skip(0) =~= all);
    while i < found.len() && i + 1 < found.len()
        invariant
            i <= found.len(),
            all == text_views(found@),
            wanted@ == key@,
            field_after(all, key@) == field_after(all.skip(i as int), key@),
        decreases found.len() - i,
    {
        let candidate = found[i].to_owned();
        proof {
            assert(all.skip(i as int)[0] == found@[i as int]@);
            assert(all.skip(i as int)[1] == found@[i + 1]@);
            assert(all.skip(i as int).drop_first() =~= all.skip(i + 1));
        }
        if candidate == wanted {
            return parse_amount(found[i + 1]);
        }
        i += 1;
    }
    assert(all.skip(i as int).len() < 2);
    None
}

impl ProcsMeminfo {
    /// A readout with the given values.
    pub fn new(
        memtotal: Option<u64>,
        memfree: Option<u64>,
        memavailable: Option<u64>,
        swaptotal: Option<u64>,
        swapfree: Option<u64>,
    ) -> (meminfo: ProcsMeminfo)
        ensures
            meminfo == (ProcsMeminfo { memtotal, memfree, memavailable, swaptotal, swapfree }),
    {
        ProcsMeminfo { memtotal, memfree, memavailable, swaptotal, swapfree }
    }

    /// The readout that the system's memory table holds. Each counter stands behind its
    /// name and a colon, as in `MemTotal:       16318460 kB`; a counter whose name is
    /// missing, or behind whose name no number stands, gives `None`.
    pub fn parse(table: &str) -> (meminfo: ProcsMeminfo)
        ensures
            meminfo == (ProcsMeminfo {
                memtotal: amount_after(fields(table@), "MemTotal:"@),
                memfree: amount_after(fields(table@), "MemFree:"@),
                memavailable: amount_after(fields(table@), "MemAvailable:"@),
                swaptotal: amount_after(fields(table@), "SwapTotal:"@),
                swapfree: amount_after(fields(table@), "SwapFree:"@),
            }),
    {
        let found = split_fields(table);
        ProcsMeminfo {
            memtotal: read_amount_after(&found, "MemTotal:"),
            memfree: read_amount_after(&found, "MemFree:"),
            memavailable: read_amount_after(&found, "MemAvailable:"),
            swaptotal: read_amount_after(&found, "SwapTotal:"),
            swapfree: read_amount_after(&found, "SwapFree:"),
        }
    }
}

} // verus!
