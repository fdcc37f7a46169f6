use vstd::prelude::*;
use vstd::string::*;

use crate::decimal::{dec_digits, digit_char, digit_str, push_decimal};

verus! {

/// Bytes in a gigabyte (binary).
pub const GIB: u64 = 1073741824;

/// One measurement of the host: CPU use in hundredths of a percent, and the
/// memory in use in bytes.
pub struct UsageReading {
    pub cpu_hundredths: u64,
    pub used_memory_bytes: u64,
}

/// What the front end is sent on each tick: CPU use as `"<units>.<two digits>%"`
/// and memory in use as `"<units>.<one digit>GB"`.
pub struct ResourceSnapshot {
    pub cpu: String,
    pub mem: String,
}

/// The mathematical value of a `ResourceSnapshot`.
pub struct SnapshotView {
    pub cpu: Seq<char>,
    pub mem: Seq<char>,
}

impl View for ResourceSnapshot {
    type V = SnapshotView;

    open spec fn view(&self) -> SnapshotView {
        SnapshotView { cpu: self.cpu@, mem: self.mem@ }
    }
}

/// CPU use of `h` hundredths of a percent, written with two decimals.
pub open spec fn cpu_text(h: nat) -> Seq<char> {
    dec_digits(h / 100) + seq!['.', digit_char((h / 10) % 10), digit_char(h % 10), '%']
}

/// Memory of `bytes` bytes in tenths of a gigabyte, rounded half up.
pub open spec fn mem_tenths(bytes: nat) -> nat {
    ((bytes * 10 + GIB / 2) / (GIB as int)) as nat
}

/// Memory of `bytes` bytes in gigabytes, written with one decimal.
pub open spec fn mem_text(bytes: nat) -> Seq<char> {
    let t = mem_tenths(bytes);
    dec_digits(t / 10) + seq!['.', digit_char(t % 10), 'G', 'B']
}

/// The snapshot of a reading.
pub open spec fn snapshot_of(r: UsageReading) -> SnapshotView {
    SnapshotView {
        cpu: cpu_text(r.cpu_hundredths as nat),
        mem: mem_text(r.used_memory_bytes as nat),
    }
}

/// Writes CPU use given in hundredths of a percent, as in `"12.34%"`.
pub fn format_cpu(hundredths: u64) -> (s: String)
    ensures
        s@ == cpu_text(hundredths as nat),
{
    let mut s = String::new();
    push_decimal(&mut s, hundredths / 100);
    s.append(".");
    s.append(digit_str((hundredths / 10) % 10));
    s.append(digit_str(hundredths % 10));
    s.append("%");
    proof {
        reveal_strlit(".");
        reveal_strlit("%");
        assert(s@ =~= cpu_text(hundredths as nat));
    }
    s
}

/// Writes a memory size given in bytes as gigabytes with one decimal,
/// rounded half up, as in `"7.3GB"`.
pub fn format_mem(bytes: u64) -> (s: String)
    ensures
        s@ == mem_text(bytes as nat),
{
    let wide: u128 = (bytes as u128 * 10 + (GIB / 2) as u128) / (GIB as u128);
    assert(wide < 0x1_0000_0000_0000) by (nonlinear_arith)
        requires
            wide as int == (bytes as int * 10 + 536870912) / 1073741824,
            bytes < 0x1_0000_0000_0000_0000,
    ;
    let tenths: u64 = wide as u64;
    let mut s = String::new();
    push_decimal(&mut s, tenths / 10);
    s.append(".");
    s.append(digit_str(tenths % 10));
    s.append("GB");
    proof {
        reveal_strlit(".");
        reveal_strlit("GB");
        assert(tenths as nat == mem_tenths(bytes as nat));
        assert(s@ =~= mem_text(bytes as nat));
    }
    s
}

/// The snapshot of one reading.
pub fn snapshot(r: &UsageReading) -> (s: ResourceSnapshot)
    ensures
        s@ == snapshot_of(*r),
{
    ResourceSnapshot { cpu: format_cpu(r.cpu_hundredths), mem: format_mem(r.used_memory_bytes) }
}

/// The snapshots of a run of ticks, one per reading, in order.
pub fn snapshots(readings: &Vec<UsageReading>) -> (r: Vec<ResourceSnapshot>)
    ensures
        r@.len() == readings@.len(),
        forall|i: int| 0 <= i < r@.len() ==> #[trigger] r@[i]@ == snapshot_of(readings@[i]),
{
    let mut out: Vec<ResourceSnapshot> = Vec::new();
    let mut i: usize = 0;
    while i < readings.len()
        invariant
            i <= readings@.len(),
            out@.len() == i,
            forall|j: int| 0 <= j < i ==> #[trigger] out@[j]@ == snapshot_of(readings@[j]),
        decreases readings@.len() - i,
    {
        out.push(snapshot(&readings[i]));
        i = i + 1;
    }
    out
}

} // verus!
