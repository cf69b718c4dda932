use crate::common::decimal::Decimal;
use crate::common::notation::{decimal_of, parse_small_count, small_count_of};
use crate::common::text::{
    lines, parts_around, same_text, split_around, split_lines, text_views, trim, trimmed,
};
use vstd::prelude::*;

verus! {

/// The mathematical value of a text that may be absent.
pub open spec fn text_view(text: Option<String>) -> Option<Seq<char>> {
    match text {
        Some(text) => Some(text@),
        None => None,
    }
}

/// A copy of a text that may be absent.
pub fn copy_text(text: &Option<String>) -> (copy: Option<String>)
    ensures
        text_view(copy) == text_view(*text),
{
    match text {
        Some(text) => Some(text.clone()),
        None => None,
    }
}

/// What is known of one processor. A field is `None` where the system gave no value for it.
#[derive(Debug, PartialEq, Eq)]
pub struct ProcsCpuinfo {
    /// The processor's APIC id.
    pub apicid: Option<u8>,
    /// The vendor's id, such as `AuthenticAMD`.
    pub vendor_id: Option<String>,
    /// The processor family.
    pub cpu_family: Option<String>,
    /// The model's number.
    pub model: Option<String>,
    /// The model's common name.
    pub model_name: Option<String>,
    /// The number of cores.
    pub cpu_cores: Option<u8>,
    /// The clock speed in MHz.
    pub cpu_mhz: Option<Decimal>,
}

/// The mathematical value of what is known of one processor.
pub struct CpuinfoView {
    pub apicid: Option<u8>,
    pub vendor_id: Option<Seq<char>>,
    pub cpu_family: Option<Seq<char>>,
    pub model: Option<Seq<char>>,
    pub model_name: Option<Seq<char>>,
    pub cpu_cores: Option<u8>,
    pub cpu_mhz: Option<Decimal>,
}

impl View for ProcsCpuinfo {
    type V = CpuinfoView;

    open spec fn view(&self) -> CpuinfoView {
        CpuinfoView {
            apicid: self.apicid,
            vendor_id: text_view(self.vendor_id),
            cpu_family: text_view(self.cpu_family),
            model: text_view(self.model),
            model_name: text_view(self.model_name),
            cpu_cores: self.cpu_cores,
            cpu_mhz: self.cpu_mhz,
        }
    }
}

impl Clone for ProcsCpuinfo {
    fn clone(&self) -> (copy: ProcsCpuinfo)
        ensures
            copy@ == self@,
    {
        ProcsCpuinfo {
            apicid: self.apicid,
            vendor_id: copy_text(&self.vendor_id),
            cpu_family: copy_text(&self.cpu_family),
            model: copy_text(&self.model),
            model_name: copy_text(&self.model_name),
            cpu_cores: self.cpu_cores,
            cpu_mhz: self.cpu_mhz,
        }
    }
}

impl ProcsCpuinfo {
    /// What is known of one processor, with the given values.
    pub fn new(
        apicid: Option<u8>,
        vendor_id: Option<String>,
        cpu_family: Option<String>,
        model: Option<String>,
        model_name: Option<String>,
        cpu_cores: Option<u8>,
        cpu_mhz: Option<Decimal>,
    ) -> (cpuinfo: ProcsCpuinfo)
        ensures
            cpuinfo@ == (CpuinfoView {
                apicid,
                vendor_id: text_view(vendor_id),
                cpu_family: text_view(cpu_family),
                model: text_view(model),
                model_name: text_view(model_name),
                cpu_cores,
                cpu_mhz,
            }),
    {
        ProcsCpuinfo { apicid, vendor_id, cpu_family, model, model_name, cpu_cores, cpu_mhz }
    }
}

/// What is known of a processor of which nothing is known yet.
pub open spec fn unknown_cpuinfo() -> CpuinfoView {
    CpuinfoView {
        apicid: None,
        vendor_id: None,
        cpu_family: None,
        model: None,
        model_name: None,
        cpu_cores: None,
        cpu_mhz: None,
    }
}

/// What is known of a processor after one more line of the table about it, the line
/// giving `value` under the name `key`. A line under another name changes nothing.
pub open spec fn cpuinfo_with(known: CpuinfoView, key: Seq<char>, value: Seq<char>) -> CpuinfoView {
    if key == "apicid"@ {
        CpuinfoView { apicid: small_count_of(value), ..known }
    } else if key == "vendor_id"@ {
        CpuinfoView { vendor_id: Some(value), ..known }
    } else if key == "cpu family"@ {
        CpuinfoView { cpu_family: Some(value), ..known }
    } else if key == "model"@ {
        CpuinfoView { model: Some(value), ..known }
    } else if key == "model name"@ {
        CpuinfoView { model_name: Some(value), ..known }
    } else if key == "cpu cores"@ {
        CpuinfoView { cpu_cores: small_count_of(value), ..known }
    } else if key == "cpu MHz"@ {
        CpuinfoView { cpu_mhz: decimal_of(value), ..known }
    } else {
        known
    }
}

/// The name under which a line of the table gives a value: what stands before its first
/// colon, without the blanks around it.
pub open spec fn line_key(line: Seq<char>) -> Seq<char> {
    trimmed(parts_around(line, ':').0)
}

/// The value that a line of the table gives: what stands after its first colon, without
/// the blanks around it.
pub open spec fn line_value(line: Seq<char>) -> Seq<char> {
    trimmed(parts_around(line, ':').1)
}

/// What the lines of the processor table say, processor by processor. A line under the
/// name `processor` begins the next processor; the lines that follow it are about that
/// processor. Lines before the first processor say nothing.
pub open spec fn cpuinfo_records(lines: Seq<Seq<char>>) -> Seq<CpuinfoView>
    decreases lines.len(),
{
    if lines.len() == 0 {
        Seq::empty()
    } else {
        let before = cpuinfo_records(lines.drop_last());
        let key = line_key(lines.last());
        let value = line_value(lines.last());
        if key == "processor"@ {
            before.push(unknown_cpuinfo())
        } else if before.len() == 0 {
            before
        } else {
            before.update(before.len() - 1, cpuinfo_with(before.last(), key, value))
        }
    }
}

/// The mathematical values of a list of processors.
pub open spec fn cpuinfo_views(processors: Seq<ProcsCpuinfo>) -> Seq<CpuinfoView> {
    Seq::new(processors.len(), |i: int| processors[i]@)
}

impl ProcsCpuinfo {
    fn with(self, key: &str, value: &str) -> (known: ProcsCpuinfo)
        ensures
            known@ == cpuinfo_with(self@, key@, value@),
    {
        let mut known = self;
        if same_text(key, "apicid") {
            known.apicid = parse_small_count(value);
        } else if same_text(key, "vendor_id") {
            known.vendor_id = Some(value.to_owned());
        } else if same_text(key, "cpu family") {
            known.cpu_family = Some(value.to_owned());
        } else if same_text(key, "model") {
            known.model = Some(value.to_owned());
        } else if same_text(key, "model name") {
            known.model_name = Some(value.to_owned());
        } else if same_text(key, "cpu cores") {
            known.cpu_cores = parse_small_count(value);
        } else if same_text(key, "cpu MHz") {
            known.cpu_mhz = Decimal::parse(value);
        }
        known
    }

    /// What the system's processor table says of each processor. Each line of the table
    /// gives a value under a name, with a colon between them, as in
    /// `model name : Intel(R) Core(TM) i7`; a line under the name `processor` begins the
    /// next processor.
    pub fn parse(table: &str) -> (processors: Vec<ProcsCpuinfo>)
        ensures
            cpuinfo_views(processors@) == cpuinfo_records(lines(table@)),
    {
        let found = split_lines(table);
        let ghost all = text_views(found@);
        let mut processors: Vec<ProcsCpuinfo> = Vec::new();
        let mut i: usize = 0;
        assert(all.take(0) =~= Seq::<Seq<char>>::empty());
        assert(cpuinfo_views(processors@) =~= Seq::<CpuinfoView>::empty());
        while i < found.len()
            invariant
                i <= found.len(),
                all == text_views(found@),
                cpuinfo_views(processors@) == cpuinfo_records(all.take(i as int)),
            decreases found.len() - i,
        {
            let (raw_key, raw_value) = split_around(found[i], ':');
            let key = trim(raw_key);
            let value = trim(raw_value);
            let ghost before = cpuinfo_views(processors@);
            proof {
                assert(all.take(i + 1).drop_last() =~= all.take(i as int));
                assert(all.take(i + 1).last() == found@[i as int]@);
            }
            if same_text(key, "processor") {
                let unknown = ProcsCpuinfo {
                    apicid: None,
                    vendor_id: None,
                    cpu_family: None,
                    model: None,
                    model_name: None,
                    cpu_cores: None,
                    cpu_mhz: None,
                };
                processors.push(unknown);
                assert(cpuinfo_views(processors@) =~= before.push(unknown_cpuinfo()));
            } else if processors.len() > 0 {
                let Some(last) = processors.pop() else {
                    return processors;
                };
                let known = last.with(key, value);
                processors.push(known);
                assert(cpuinfo_views(processors@) =~= before.update(
                    before.len() - 1,
                    cpuinfo_with(before.last(), key@, value@),
                ));
            }
            i += 1;
        }
        assert(all.take(found@.len() as int) =~= all);
        processors
    }
}

} // verus!
