//! Point-in-time snapshot of one running pipeline's consumption, used as
//! input to placement decisions and for display.
use vstd::prelude::*;
use vstd::string::*;

use crate::capacity::{capacity_text, CpuCapacity};
use crate::decimal::{decimal_rep, push_u32_decimal};

verus! {

/// CPU consumed and throughput achieved by one pipeline: purely
/// observational, carries no identity.
#[derive(Clone, Copy, Debug, PartialEq, Eq, Structural)]
pub struct PipelineMetrics {
    pub cpu_millis: CpuCapacity,
    pub throughput_mb_per_sec: u16,
}

/// Display form `<millis>m,<throughput>MB/s`.
pub open spec fn metrics_display(cpu_millis: nat, throughput: nat) -> Seq<char> {
    capacity_text(cpu_millis) + ","@ + decimal_rep(throughput) + "MB/s"@
}

impl PipelineMetrics {
    pub fn display_string(&self) -> (r: String)
        ensures
            r@ == metrics_display(self.cpu_millis@, self.throughput_mb_per_sec as nat),
    {
        let mut out = self.cpu_millis.display_string();
        out.append(",");
        push_u32_decimal(&mut out, self.throughput_mb_per_sec as u32);
        out.append("MB/s");
        out
    }
}

} // verus!
