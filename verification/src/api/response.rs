use crate::common::decimal::Decimal;
use crate::proc::cpuinfo::{copy_text, text_view, CpuinfoView, ProcsCpuinfo};
use crate::proc::meminfo::ProcsMeminfo;
use vstd::prelude::*;

verus! {

/// What the memory endpoint answers.
#[derive(Debug, Clone, Copy, PartialEq, Eq)]
pub struct MeminfoResponse {
    /// The total memory.
    pub total_mem: Option<u64>,
    /// The free memory.
    pub free_mem: Option<u64>,
    /// The available memory.
    pub available_mem: Option<u64>,
    /// The total swap.
    pub swap_total: Option<u64>,
    /// The free swap.
    pub swap_free: Option<u64>,
}

impl MeminfoResponse {
    /// An answer with the given values.
    pub fn new(
        total_mem: Option<u64>,
        free_mem: Option<u64>,
        available_mem: Option<u64>,
        swap_total: Option<u64>,
        swap_free: Option<u64>,
    ) -> (response: MeminfoResponse)
        ensures
            response == (MeminfoResponse {
                total_mem,
                free_mem,
                available_mem,
                swap_total,
                swap_free,
            }),
    {
        MeminfoResponse { total_mem, free_mem, available_mem, swap_total, swap_free }
    }

    /// The answer for a readout of the memory counters. The endpoint gives the total swap
    /// space under both swap names: `swap_free` carries `swaptotal`, not `swapfree`.
    pub fn from_meminfo(procs_mem_info: &ProcsMeminfo) -> (response: MeminfoResponse)
        ensures
            response == (MeminfoResponse {
                total_mem: procs_mem_info.memtotal,
                free_mem: procs_mem_info.memfree,
                available_mem: procs_mem_info.memavailable,
                swap_total: procs_mem_info.swaptotal,
                swap_free: procs_mem_info.swaptotal,
            }),
    {
        MeminfoResponse::new(
            procs_mem_info.memtotal,
            procs_mem_info.memfree,
            procs_mem_info.memavailable,
            procs_mem_info.swaptotal,
            procs_mem_info.swaptotal,
        )
    }
}

/// What the processor endpoint answers for one processor.
#[derive(Debug, PartialEq, Eq)]
pub struct CpuinfoResponse {
    /// The processor's APIC id.
    pub apicid: Option<u8>,
    /// The vendor's id, such as `AuthenticAMD`.
    pub vendor_id: Option<String>,
    /// The processor family.
    pub cpu_family: Option<String>,
    /// The model's number.
    pub model: Option<String>,
    /// The model's common name.
    pub model_name: Option<String>,
    /// The number of cores.
    pub cpu_cores: Option<u8>,
    /// The clock speed in MHz.
    pub cpu_mhz: Option<Decimal>,
}

impl View for CpuinfoResponse {
    type V = CpuinfoView;

    open spec fn view(&self) -> CpuinfoView {
        CpuinfoView {
            apicid: self.apicid,
            vendor_id: text_view(self.vendor_id),
            cpu_family: text_view(self.cpu_family),
            model: text_view(self.model),
            model_name: text_view(self.model_name),
            cpu_cores: self.cpu_cores,
            cpu_mhz: self.cpu_mhz,
        }
    }
}

impl Clone for CpuinfoResponse {
    fn clone(&self) -> (copy: CpuinfoResponse)
        ensures
            copy@ == self@,
    {
        CpuinfoResponse {
            apicid: self.apicid,
            vendor_id: copy_text(&self.vendor_id),
            cpu_family: copy_text(&self.cpu_family),
            model: copy_text(&self.model),
            model_name: copy_text(&self.model_name),
            cpu_cores: self.cpu_cores,
            cpu_mhz: self.cpu_mhz,
        }
    }
}

impl CpuinfoResponse {
    /// An answer with the given values.
    pub fn new(
        apicid: Option<u8>,
        vendor_id: Option<String>,
        cpu_family: Option<String>,
        model: Option<String>,
        model_name: Option<String>,
        cpu_cores: Option<u8>,
        cpu_mhz: Option<Decimal>,
    ) -> (response: CpuinfoResponse)
        ensures
            response@ == (CpuinfoView {
                apicid,
                vendor_id: text_view(vendor_id),
                cpu_family: text_view(cpu_family),
                model: text_view(model),
                model_name: text_view(model_name),
                cpu_cores,
                cpu_mhz,
            }),
    {
        CpuinfoResponse { apicid, vendor_id, cpu_family, model, model_name, cpu_cores, cpu_mhz }
    }

    /// The answers for a list of processors: one for each, in the same order and with the
    /// same values.
    pub fn from_cpuinfo(procs_cpu_info: &[ProcsCpuinfo]) -> (responses: Vec<CpuinfoResponse>)
        ensures
            responses@.len() == procs_cpu_info@.len(),
            forall|i: int|
                0 <= i < responses@.len() ==> (#[trigger] responses@[i])@ == procs_cpu_info@[i]@,
    {
        let mut responses: Vec<CpuinfoResponse> = Vec::new();
        let mut i: usize = 0;
        while i < procs_cpu_info.len()
            invariant
                i <= procs_cpu_info@.len(),
                responses@.len() == i,
                forall|j: int| 0 <= j < i ==> (#[trigger] responses@[j])@ == procs_cpu_info@[j]@,
            decreases procs_cpu_info@.len() - i,
        {
            let cpu_info = &procs_cpu_info[i];
            responses.push(
                CpuinfoResponse::new(
                    cpu_info.apicid,
                    copy_text(&cpu_info.vendor_id),
                    copy_text(&cpu_info.cpu_family),
                    copy_text(&cpu_info.model),
                    copy_text(&cpu_info.model_name),
                    cpu_info.cpu_cores,
                    cpu_info.cpu_mhz,
                ),
            );
            i += 1;
        }
        responses
    }
}

} // verus!
