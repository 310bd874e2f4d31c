//! Presentation helpers that do not depend on a rendering toolkit.

use vstd::prelude::*;
use crate::text::{duration_string, duration_text, size_string, size_text, decimal, push_decimal,
    push_one_decimal, one_decimal, round_half_even};
use vstd::string::*;

verus! {

/// The tabs of the monitor.
#[derive(Clone, Copy, Debug, PartialEq, Eq, Hash, Structural)]
pub enum TabType {
    Overview,
    Cpu,
    Memory,
    Disk,
    Process,
    Network,
}

/// Every tab, in display order.
pub open spec fn all_tabs() -> Seq<TabType> {
    seq![
        TabType::Overview,
        TabType::Cpu,
        TabType::Memory,
        TabType::Disk,
        TabType::Process,
        TabType::Network,
    ]
}

impl TabType {
    /// The tab's title.
    pub fn name(&self) -> (r: &'static str)
        ensures
            r@ == match *self {
                TabType::Overview => "概览"@,
                TabType::Cpu => "CPU"@,
                TabType::Memory => "内存"@,
                TabType::Disk => "磁盘"@,
                TabType::Process => "进程"@,
                TabType::Network => "网络"@,
            },
    {
        match self {
            TabType::Overview => "概览",
            TabType::Cpu => "CPU",
            TabType::Memory => "内存",
            TabType::Disk => "磁盘",
            TabType::Process => "进程",
            TabType::Network => "网络",
        }
    }

    /// Every tab, in display order.
    pub fn all() -> (r: Vec<TabType>)
        ensures
            r@ == all_tabs(),
    {
        let r = vec![
            TabType::Overview,
            TabType::Cpu,
            TabType::Memory,
            TabType::Disk,
            TabType::Process,
            TabType::Network,
        ];
        assert(r@ =~= all_tabs());
        r
    }
}

/// Light or dark presentation.
#[derive(Clone, Copy, Debug, PartialEq, Eq, Structural)]
pub enum UiTheme {
    Light,
    Dark,
}

/// A frequency in Hz, KHz, MHz or GHz: whole hertz as they are, larger
/// units with one decimal place.
pub open spec fn frequency_text(hz: nat) -> Seq<char> {
    if hz >= 1_000_000_000 {
        one_decimal(round_half_even(hz * 10, 1_000_000_000)) + " GHz"@
    } else if hz >= 1_000_000 {
        one_decimal(round_half_even(hz * 10, 1_000_000)) + " MHz"@
    } else if hz >= 1_000 {
        one_decimal(round_half_even(hz * 10, 1_000)) + " KHz"@
    } else {
        decimal(hz) + " Hz"@
    }
}

/// Formatting helpers for display.
pub struct UiUtils;

impl UiUtils {
    /// A byte count in B, KB, MB, GB or TB: whole bytes as they are, larger
    /// units with one decimal place.
    pub fn format_bytes(bytes: u64) -> (r: String)
        ensures
            r@ == size_text(bytes as nat, 4),
    {
        size_string(bytes, 4)
    }

    /// A frequency in Hz, KHz, MHz or GHz.
    pub fn format_frequency(hz: u64) -> (r: String)
        ensures
            r@ == frequency_text(hz as nat),
    {
        let mut out = String::new();
        if hz >= 1_000_000_000 {
            push_one_decimal(&mut out, hz as u128 * 10, 1_000_000_000);
            out.append(" GHz");
        } else if hz >= 1_000_000 {
            push_one_decimal(&mut out, hz as u128 * 10, 1_000_000);
            out.append(" MHz");
        } else if hz >= 1_000 {
            push_one_decimal(&mut out, hz as u128 * 10, 1_000);
            out.append(" KHz");
        } else {
            push_decimal(&mut out, hz);
            out.append(" Hz");
        }
        assert(out@ =~= frequency_text(hz as nat));
        out
    }

    /// A duration in seconds as text, by its largest non-zero part.
    pub fn format_duration(seconds: u64) -> (r: String)
        ensures
            r@ == duration_text(seconds as nat),
    {
        duration_string(seconds)
    }
}

/// The memory tab.
pub struct MemoryTabRenderer;

impl MemoryTabRenderer {
    pub fn new() -> Self {
        MemoryTabRenderer
    }
}

/// The disk tab.
pub struct DiskTabRenderer;

impl DiskTabRenderer {
    pub fn new() -> Self {
        DiskTabRenderer
    }
}

/// The process tab.
pub struct ProcessTabRenderer;

impl ProcessTabRenderer {
    pub fn new() -> Self {
        ProcessTabRenderer
    }
}

/// The network tab.
pub struct NetworkTabRenderer;

impl NetworkTabRenderer {
    pub fn new() -> Self {
        NetworkTabRenderer
    }
}

/// The overview tab.
pub struct OverviewTabRenderer;

impl OverviewTabRenderer {
    pub fn new() -> Self {
        OverviewTabRenderer
    }
}

/// The CPU tab.
pub struct CpuTabRenderer;

impl CpuTabRenderer {
    pub fn new() -> Self {
        CpuTabRenderer
    }
}

} // verus!
