//! Partitions as the disk-information provider reports them, and the usage
//! derived from a report.

use vstd::prelude::*;

verus! {

/// One mounted partition: the disk that owns it, where it is mounted, and its
/// capacity and free space in bytes.
pub struct PartitionRecord {
    pub disk_name: String,
    pub mount_point: String,
    pub total: u64,
    pub available: u64,
}

/// A partition record as plain values.
pub struct PartitionView {
    pub disk_name: Seq<char>,
    pub mount_point: Seq<char>,
    pub total: u64,
    pub available: u64,
}

impl View for PartitionRecord {
    type V = PartitionView;

    open spec fn view(&self) -> PartitionView {
        PartitionView {
            disk_name: self.disk_name@,
            mount_point: self.mount_point@,
            total: self.total,
            available: self.available,
        }
    }
}

/// The views of a run of records, in order.
pub open spec fn record_views(records: Seq<PartitionRecord>) -> Seq<PartitionView> {
    Seq::new(records.len(), |i: int| records[i]@)
}

/// The bytes in use on a partition: capacity less free space, in 64-bit
/// arithmetic. A report whose free space exceeds its capacity wraps around,
/// and so shows as a usage far above the capacity.
pub open spec fn used_bytes(total: u64, available: u64) -> u64 {
    if available <= total {
        (total - available) as u64
    } else {
        (total - available + 0x1_0000_0000_0000_0000) as u64
    }
}

/// Computes the bytes in use.
pub fn bytes_in_use(total: u64, available: u64) -> (used: u64)
    ensures
        used == used_bytes(total, available),
{
    total.wrapping_sub(available)
}

/// How the percentage of a usage is written, by its magnitude.
#[derive(Clone, Copy, PartialEq, Eq, Structural, Debug)]
pub enum Tier {
    /// Below 10 percent.
    Units,
    /// From 10 percent to below 100 percent.
    Tens,
    /// 100 percent and above.
    Hundreds,
}

/// The used share of a partition, as the exact ratio `used / total`.
#[derive(Clone, Copy, PartialEq, Eq, Structural, Debug)]
pub struct PartitionUsage {
    pub used: u64,
    pub total: u64,
}

impl PartitionUsage {
    /// A usage is a ratio, so its capacity is not zero.
    pub open spec fn wf(&self) -> bool {
        self.total > 0
    }

    /// The percentage `100 * used / total` lies below `bound`.
    pub open spec fn percent_below(&self, bound: nat) -> bool {
        100 * self.used < bound * self.total
    }

    /// The percentage `100 * used / total` lies above `bound`.
    pub open spec fn percent_above(&self, bound: nat) -> bool {
        100 * self.used > bound * self.total
    }

    /// The tier that the percentage falls in.
    pub open spec fn tier_of(&self) -> Tier {
        if self.percent_below(10) {
            Tier::Units
        } else if self.percent_below(100) {
            Tier::Tens
        } else {
            Tier::Hundreds
        }
    }

    /// The usage of a partition with the given capacity and free space, or
    /// `None` for a partition without capacity, which has no percentage.
    pub fn new(total: u64, available: u64) -> (usage: Option<PartitionUsage>)
        ensures
            total == 0 <==> usage is None,
            usage matches Some(u) ==> u.wf() && u.total == total && u.used == used_bytes(
                total,
                available,
            ),
    {
        if total == 0 {
            None
        } else {
            Some(PartitionUsage { used: bytes_in_use(total, available), total })
        }
    }

    /// Decides the tier of the percentage.
    pub fn tier(&self) -> (tier: Tier)
        ensures
            tier == self.tier_of(),
    {
        let used: u128 = self.used as u128;
        let total: u128 = self.total as u128;
        if 100 * used < 10 * total {
            Tier::Units
        } else if 100 * used < 100 * total {
            Tier::Tens
        } else {
            Tier::Hundreds
        }
    }

    /// Whether the percentage lies above the whole number `bound`.
    pub fn exceeds(&self, bound: u8) -> (over: bool)
        ensures
            over == self.percent_above(bound as nat),
    {
        let used: u128 = self.used as u128;
        let total: u128 = self.total as u128;
        assert(bound as u128 * total <= 255 * 0xffff_ffff_ffff_ffff) by (nonlinear_arith)
            requires
                bound <= 255,
                total <= 0xffff_ffff_ffff_ffff,
        ;
        100 * used > bound as u128 * total
    }
}

impl PartitionRecord {
    /// The usage that this record reports, or `None` where it reports no
    /// capacity.
    pub fn usage(&self) -> (usage: Option<PartitionUsage>)
        ensures
            self.total == 0 <==> usage is None,
            usage matches Some(u) ==> u.wf() && u.total == self.total && u.used == used_bytes(
                self.total,
                self.available,
            ),
    {
        PartitionUsage::new(self.total, self.available)
    }
}

} // verus!
