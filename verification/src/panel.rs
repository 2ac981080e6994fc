use vstd::prelude::*;

use crate::config::Config;
use crate::sysfs::starts_with;
use crate::text::{
    chars_of, decimal, f64_input_limit, lemma_tenths_of_monotone, occurs_at, occurs_at_index,
    one_decimal, push_decimal, push_one_decimal, round_half_even, same_chars, tenths_of,
};

verus! {

/// The network speed text for `bytes` transferred since the last reading:
/// whole bytes below 1024, else kilobytes below 1024 * 1024, else megabytes,
/// the last two with one digit after the point.
pub open spec fn speed_text(bytes: nat) -> Seq<char> {
    if bytes < 1024 {
        decimal(bytes) + " B/s"@
    } else if bytes < 0x10_0000 {
        one_decimal(tenths_of(bytes, 1024)) + " KB/s"@
    } else {
        one_decimal(tenths_of(bytes, 0x10_0000)) + " MB/s"@
    }
}

/// Writes a rate of `bytes_per_second` as the panel shows it.
pub(crate) fn speed_string(bytes_per_second: u128) -> (s: String)
    requires
        bytes_per_second < f64_input_limit(),
    ensures
        s@ == speed_text(bytes_per_second as nat),
{
    let mut s = String::new();
    if bytes_per_second < 1024 {
        push_decimal(&mut s, bytes_per_second);
        s.append(" B/s");
    } else if bytes_per_second < 0x10_0000 {
        push_one_decimal(&mut s, bytes_per_second, 1024);
        s.append(" KB/s");
    } else {
        push_one_decimal(&mut s, bytes_per_second, 0x10_0000);
        s.append(" MB/s");
    }
    assert(s@ =~= speed_text(bytes_per_second as nat));
    s
}

/// Writes a rate of `bytes` per second as the panel shows it, e.g.
/// `512 B/s`, `1.5 KB/s` or `2.0 MB/s`.
pub fn format_speed(bytes: u64) -> (s: String)
    ensures
        s@ == speed_text(bytes as nat),
{
    speed_string(bytes as u128)
}

/// The bytes received over all network interfaces, from `(received,
/// transmitted)` pairs.
pub open spec fn total_received(traffic: Seq<(u64, u64)>) -> nat
    decreases traffic.len(),
{
    if traffic.len() == 0 {
        0
    } else {
        total_received(traffic.drop_last()) + traffic.last().0 as nat
    }
}

/// The bytes transmitted over all network interfaces.
pub open spec fn total_transmitted(traffic: Seq<(u64, u64)>) -> nat
    decreases traffic.len(),
{
    if traffic.len() == 0 {
        0
    } else {
        total_transmitted(traffic.drop_last()) + traffic.last().1 as nat
    }
}

proof fn lemma_totals_grow(traffic: Seq<(u64, u64)>, k: int)
    requires
        0 <= k <= traffic.len(),
    ensures
        total_received(traffic.take(k)) <= total_received(traffic),
        total_transmitted(traffic.take(k)) <= total_transmitted(traffic),
    decreases traffic.len() - k,
{
    if k < traffic.len() {
        assert(traffic.drop_last().take(k) =~= traffic.take(k));
        lemma_totals_grow(traffic.drop_last(), k);
    } else {
        assert(traffic.take(k) =~= traffic);
    }
}

/// The bytes received and transmitted over all interfaces, from one
/// `(received, transmitted)` pair per interface; `None` when either sum does
/// not fit in 64 bits.
pub fn traffic_totals(traffic: &Vec<(u64, u64)>) -> (r: Option<(u64, u64)>)
    ensures
        r matches Some(t) ==> t.0 == total_received(traffic@) && t.1 == total_transmitted(traffic@),
        r is None <==> total_received(traffic@) > u64::MAX || total_transmitted(traffic@) > u64::MAX,
{
    let mut down: u64 = 0;
    let mut up: u64 = 0;
    let mut i: usize = 0;
    while i < traffic.len()
        invariant
            i <= traffic.len(),
            down == total_received(traffic@.take(i as int)),
            up == total_transmitted(traffic@.take(i as int)),
        decreases traffic.len() - i,
    {
        let (rx, tx) = traffic[i];
        assert(traffic@.take(i + 1).drop_last() =~= traffic@.take(i as int));
        if down > u64::MAX - rx || up > u64::MAX - tx {
            proof {
                lemma_totals_grow(traffic@, i + 1);
            }
            return None;
        }
        down = down + rx;
        up = up + tx;
        i = i + 1;
    }
    assert(traffic@.take(traffic.len() as int) =~= traffic@);
    Some((down, up))
}

/// The text after the usage figure on the memory segment: ` | used/total GB`,
/// each amount the number of bytes over 1024^3 with one digit after the point;
/// `None` when the total is zero.
pub open spec fn ram_detail_text(used: nat, total: nat) -> Option<Seq<char>> {
    if total == 0 {
        None
    } else {
        Some(" | "@ + one_decimal(tenths_of(used, 0x4000_0000)) + "/"@ + one_decimal(
            tenths_of(total, 0x4000_0000),
        ) + " GB"@)
    }
}

/// The text that follows the memory usage figure, from the used and total
/// memory in bytes.
pub fn ram_detail(used: u64, total: u64) -> (r: Option<String>)
    ensures
        r matches Some(s) ==> ram_detail_text(used as nat, total as nat) == Some(s@),
        r is None ==> ram_detail_text(used as nat, total as nat) is None,
{
    if total == 0 {
        return None;
    }
    let mut s = String::new();
    s.append(" | ");
    push_one_decimal(&mut s, used as u128, 0x4000_0000);
    s.append("/");
    push_one_decimal(&mut s, total as u128, 0x4000_0000);
    s.append(" GB");
    Some(s)
}

/// `mount` is the root file system or lies under `/home`.
pub open spec fn is_watched_mount(mount: Seq<char>) -> bool {
    mount == "/"@ || starts_with(mount, "/home"@)
}

/// A disk as the system lists it: where it is mounted, and its size and the
/// space available on it in bytes.
pub struct DiskReading {
    pub mount_point: String,
    pub total_space: u64,
    pub available_space: u64,
}

/// `pick` is the position of the first of `disks` whose mount point is
/// watched, or `None` when no mount point is.
pub open spec fn first_watched(disks: Seq<DiskReading>, pick: Option<usize>) -> bool {
    match pick {
        Some(i) => {
            &&& i < disks.len()
            &&& is_watched_mount(disks[i as int].mount_point@)
            &&& forall|j: int| 0 <= j < i ==> !is_watched_mount(#[trigger] disks[j].mount_point@)
        },
        None => forall|j: int|
            0 <= j < disks.len() ==> !is_watched_mount(#[trigger] disks[j].mount_point@),
    }
}

/// Whether `mount` is the root file system or lies under `/home`.
pub fn watched_mount(mount: &str) -> (b: bool)
    ensures
        b == is_watched_mount(mount@),
{
    let m = chars_of(mount);
    let home = chars_of("/home");
    let root = same_chars(&m, &chars_of("/"));
    let under_home = occurs_at_index(&m, &home, 0);
    proof {
        if under_home {
            assert(m@.take(home@.len() as int) =~= m@.subrange(0, home@.len() as int));
        }
        if starts_with(m@, home@) {
            assert(m@.subrange(0, home@.len() as int) =~= m@.take(home@.len() as int));
            assert(occurs_at(m@, home@, 0));
        }
    }
    root || under_home
}

/// The disk the panel reports on: the first, in the order the system lists
/// the disks, that is mounted at the root or under `/home`.
fn pick_disk(disks: &Vec<DiskReading>) -> (pick: Option<usize>)
    ensures
        first_watched(disks@, pick),
{
    let mut i: usize = 0;
    while i < disks.len()
        invariant
            i <= disks.len(),
            forall|j: int| 0 <= j < i ==> !is_watched_mount(#[trigger] disks@[j].mount_point@),
        decreases disks.len() - i,
    {
        if watched_mount(disks[i].mount_point.as_str()) {
            return Some(i);
        }
        i = i + 1;
    }
    None
}

/// The size and the used part of a disk, in whole gibibytes.
#[derive(Clone, Copy, Debug, PartialEq, Eq, Structural)]
pub struct DiskSpace {
    pub used_gib: u64,
    pub total_gib: u64,
}

/// A disk's used and total space in whole gibibytes, from its total and
/// available space in bytes: each size divided by 1024^3 and rounded down,
/// the used part being the difference; `None` when more is available than
/// the disk holds.
pub fn disk_space(total_space: u64, available_space: u64) -> (r: Option<DiskSpace>)
    ensures
        r matches Some(d) ==> d.total_gib == total_space / 0x4000_0000 && d.used_gib
            == total_space / 0x4000_0000 - available_space / 0x4000_0000,
        r is None <==> available_space / 0x4000_0000 > total_space / 0x4000_0000,
{
    let total = total_space / 0x4000_0000;
    let available = available_space / 0x4000_0000;
    if available > total {
        None
    } else {
        Some(DiskSpace { used_gib: total - available, total_gib: total })
    }
}

/// The text that follows the disk usage figure: `| used/total GB`.
pub fn disk_space_text(space: DiskSpace) -> (s: String)
    ensures
        s@ == disk_space_seq(space),
{
    let mut s = String::new();
    s.append("| ");
    push_decimal(&mut s, space.used_gib as u128);
    s.append("/");
    push_decimal(&mut s, space.total_gib as u128);
    s.append(" GB");
    s
}

/// The text that follows the disk usage figure when the space is shown.
pub open spec fn disk_space_seq(space: DiskSpace) -> Seq<char> {
    "| "@ + decimal(space.used_gib as nat) + "/"@ + decimal(space.total_gib as nat) + " GB"@
}

/// What the disk segment shows.
pub enum DiskSegment {
    /// No disk is mounted at the root or under `/home`: `N/A`.
    NotAvailable,
    /// The chosen disk's space, from which the usage percentage is figured,
    /// and the text that follows that percentage.
    Usage { space: DiskSpace, detail: String },
    /// The chosen disk reports more space available than it holds.
    MoreAvailableThanTotal,
}

/// The segment `r` shows the disk space `space`, followed by its amounts when
/// `show_space` is on and by nothing otherwise.
pub open spec fn shows_usage(r: DiskSegment, space: DiskSpace, show_space: bool) -> bool {
    match r {
        DiskSegment::Usage { space: s, detail } => {
            &&& s == space
            &&& detail@ == if show_space {
                disk_space_seq(space)
            } else {
                Seq::<char>::empty()
            }
        },
        _ => false,
    }
}

/// What the disk segment shows for the disks `disks`, in the order the system
/// lists them, with the space amounts shown when `show_space` is on: the first
/// disk mounted at the root or under `/home`, its used and total space in
/// whole gibibytes, or `N/A` when there is no such disk.
pub fn disk_segment(disks: &Vec<DiskReading>, show_space: bool) -> (r: DiskSegment)
    ensures
        r is NotAvailable <==> first_watched(disks@, None),
        forall|i: usize|
            #![trigger first_watched(disks@, Some(i))]
            first_watched(disks@, Some(i)) ==> {
                let t = disks@[i as int].total_space / 0x4000_0000;
                let a = disks@[i as int].available_space / 0x4000_0000;
                if a > t {
                    r is MoreAvailableThanTotal
                } else {
                    shows_usage(r, DiskSpace { used_gib: (t - a) as u64, total_gib: t as u64 }, show_space)
                }
            },
{
    match pick_disk(disks) {
        None => DiskSegment::NotAvailable,
        Some(i) => {
            assert(forall|k: usize| first_watched(disks@, Some(k)) ==> k == i) by {
                assert forall|k: usize| first_watched(disks@, Some(k)) implies k == i by {
                    if k < i {
                        assert(!is_watched_mount(disks@[k as int].mount_point@));
                    } else if k > i {
                        assert(!is_watched_mount(disks@[i as int].mount_point@));
                    }
                }
            }
            let d = &disks[i];
            match disk_space(d.total_space, d.available_space) {
                None => DiskSegment::MoreAvailableThanTotal,
                Some(space) => {
                    let detail = if show_space {
                        disk_space_text(space)
                    } else {
                        String::new()
                    };
                    DiskSegment::Usage { space, detail }
                },
            }
        },
    }
}

/// An element of the panel row: a metric's segment or the ` | ` between two.
#[derive(Clone, Copy, Debug, PartialEq, Eq, Structural)]
pub enum PanelItem {
    Cpu,
    Ram,
    Gpu,
    Disk,
    Net,
    Separator,
}

/// The panel row for the settings `c`: the shown metrics in the order
/// processor, memory, graphics card, disk, network, each but the network
/// followed by a separator.
pub open spec fn layout(c: Config) -> Seq<PanelItem> {
    (if c.show_cpu {
        seq![PanelItem::Cpu, PanelItem::Separator]
    } else {
        seq![]
    }) + (if c.show_ram {
        seq![PanelItem::Ram, PanelItem::Separator]
    } else {
        seq![]
    }) + (if c.show_gpu {
        seq![PanelItem::Gpu, PanelItem::Separator]
    } else {
        seq![]
    }) + (if c.show_disk {
        seq![PanelItem::Disk, PanelItem::Separator]
    } else {
        seq![]
    }) + (if c.show_net {
        seq![PanelItem::Net]
    } else {
        seq![]
    })
}

/// The elements of the panel row, in order, for the settings `config`.
pub fn panel_layout(config: &Config) -> (items: Vec<PanelItem>)
    ensures
        items@ == layout(*config),
{
    let mut items: Vec<PanelItem> = Vec::new();
    if config.show_cpu {
        items.push(PanelItem::Cpu);
        items.push(PanelItem::Separator);
    }
    if config.show_ram {
        items.push(PanelItem::Ram);
        items.push(PanelItem::Separator);
    }
    if config.show_gpu {
        items.push(PanelItem::Gpu);
        items.push(PanelItem::Separator);
    }
    if config.show_disk {
        items.push(PanelItem::Disk);
        items.push(PanelItem::Separator);
    }
    if config.show_net {
        items.push(PanelItem::Net);
    }
    assert(items@ =~= layout(*config));
    items
}

/// The rate that `speed_text(bytes)` shows, in tenths of a byte per second:
/// the figure times its unit (1, 1024 or 1024^2 bytes).
pub open spec fn shown_tenths(bytes: nat) -> nat {
    if bytes < 1024 {
        bytes * 10
    } else if bytes < 0x10_0000 {
        tenths_of(bytes, 1024) * 1024
    } else {
        tenths_of(bytes, 0x10_0000) * 0x10_0000
    }
}

proof fn lemma_tenths_at(v: nat, divisor: nat)
    requires
        v < 0x20_0000_0000_0000,
        divisor > 0,
    ensures
        tenths_of(v, divisor) == round_half_even(v * 10, divisor),
{
    crate::text::lemma_tenths_within_half_a_tenth(v, divisor);
}

/// The shown network rate never falls as the byte count grows, across the
/// changes of unit too: a larger rate never reads as a smaller one.
pub proof fn lemma_shown_rate_never_falls(a: nat, b: nat)
    requires
        a <= b,
    ensures
        shown_tenths(a) <= shown_tenths(b),
{
    lemma_tenths_at(1024, 1024);
    assert(round_half_even(10240, 1024) == 10);
    lemma_tenths_at(0xF_FFFF, 1024);
    assert(round_half_even(0xF_FFFF * 10, 1024) == 10240);
    lemma_tenths_at(0x10_0000, 0x10_0000);
    assert(round_half_even(0x10_0000 * 10, 0x10_0000) == 10);
    if a < 1024 {
        if 1024 <= b && b < 0x10_0000 {
            lemma_tenths_of_monotone(1024, b, 1024);
        } else if b >= 0x10_0000 {
            lemma_tenths_of_monotone(0x10_0000, b, 0x10_0000);
        }
    } else if a < 0x10_0000 {
        if b < 0x10_0000 {
            lemma_tenths_of_monotone(a, b, 1024);
        } else {
            lemma_tenths_of_monotone(a, 0xF_FFFF, 1024);
            lemma_tenths_of_monotone(0x10_0000, b, 0x10_0000);
        }
    } else {
        lemma_tenths_of_monotone(a, b, 0x10_0000);
    }
    assert(shown_tenths(a) <= shown_tenths(b)) by (nonlinear_arith)
        requires
            a <= b,
            a < 1024 ==> shown_tenths(a) == a * 10,
            a < 1024 && 1024 <= b < 0x10_0000 ==> tenths_of(b, 1024) >= 10,
            a < 1024 && b >= 0x10_0000 ==> tenths_of(b, 0x10_0000) >= 10,
            1024 <= a < 0x10_0000 && b < 0x10_0000 ==> tenths_of(a, 1024) <= tenths_of(b, 1024),
            1024 <= a < 0x10_0000 && b >= 0x10_0000 ==> tenths_of(a, 1024) <= 10240
                && tenths_of(b, 0x10_0000) >= 10,
            a >= 0x10_0000 ==> tenths_of(a, 0x10_0000) <= tenths_of(b, 0x10_0000),
            shown_tenths(a) == (if a < 1024 {
                a * 10
            } else if a < 0x10_0000 {
                tenths_of(a, 1024) * 1024
            } else {
                tenths_of(a, 0x10_0000) * 0x10_0000
            }),
            shown_tenths(b) == (if b < 1024 {
                b * 10
            } else if b < 0x10_0000 {
                tenths_of(b, 1024) * 1024
            } else {
                tenths_of(b, 0x10_0000) * 0x10_0000
            }),
    ;
}

/// The places the processor's segment takes in the row: two when shown.
pub open spec fn cpu_slots(c: Config) -> int {
    if c.show_cpu {
        2
    } else {
        0
    }
}

/// The places the memory segment takes in the row: two when shown.
pub open spec fn ram_slots(c: Config) -> int {
    if c.show_ram {
        2
    } else {
        0
    }
}

/// The places the graphics segment takes in the row: two when shown.
pub open spec fn gpu_slots(c: Config) -> int {
    if c.show_gpu {
        2
    } else {
        0
    }
}

/// The panel row holds a metric's segment exactly when its switch is on,
/// whatever the other switches say; the separators come only after shown
/// metrics.
pub proof fn lemma_row_holds_exactly_the_shown_metrics(c: Config)
    ensures
        layout(c).contains(PanelItem::Cpu) <==> c.show_cpu,
        layout(c).contains(PanelItem::Ram) <==> c.show_ram,
        layout(c).contains(PanelItem::Gpu) <==> c.show_gpu,
        layout(c).contains(PanelItem::Disk) <==> c.show_disk,
        layout(c).contains(PanelItem::Net) <==> c.show_net,
        layout(c).len() == (if c.show_cpu {
            2int
        } else {
            0
        }) + (if c.show_ram {
            2int
        } else {
            0
        }) + (if c.show_gpu {
            2int
        } else {
            0
        }) + (if c.show_disk {
            2int
        } else {
            0
        }) + (if c.show_net {
            1int
        } else {
            0
        }),
        c.show_cpu ==> layout(c)[0] == PanelItem::Cpu && layout(c)[1] == PanelItem::Separator,
        c.show_ram ==> layout(c)[cpu_slots(c)] == PanelItem::Ram && layout(c)[cpu_slots(c) + 1]
            == PanelItem::Separator,
        c.show_gpu ==> layout(c)[cpu_slots(c) + ram_slots(c)] == PanelItem::Gpu && layout(c)[cpu_slots(
            c,
        ) + ram_slots(c) + 1] == PanelItem::Separator,
        c.show_disk ==> layout(c)[cpu_slots(c) + ram_slots(c) + gpu_slots(c)] == PanelItem::Disk
            && layout(c)[cpu_slots(c) + ram_slots(c) + gpu_slots(c) + 1] == PanelItem::Separator,
        c.show_net ==> layout(c).last() == PanelItem::Net,
{
    let p1 = if c.show_cpu {
        seq![PanelItem::Cpu, PanelItem::Separator]
    } else {
        seq![]
    };
    let p2 = if c.show_ram {
        seq![PanelItem::Ram, PanelItem::Separator]
    } else {
        seq![]
    };
    let p3 = if c.show_gpu {
        seq![PanelItem::Gpu, PanelItem::Separator]
    } else {
        seq![]
    };
    let p4 = if c.show_disk {
        seq![PanelItem::Disk, PanelItem::Separator]
    } else {
        seq![]
    };
    let p5 = if c.show_net {
        seq![PanelItem::Net]
    } else {
        seq![]
    };
    let l = layout(c);
    assert(l == p1 + p2 + p3 + p4 + p5);
    let n1 = p1.len() as int;
    let n2 = n1 + p2.len();
    let n3 = n2 + p3.len();
    let n4 = n3 + p4.len();
    assert forall|i: int| 0 <= i < l.len() implies (l[i] == PanelItem::Cpu ==> c.show_cpu) && (l[i]
        == PanelItem::Ram ==> c.show_ram) && (l[i] == PanelItem::Gpu ==> c.show_gpu) && (l[i]
        == PanelItem::Disk ==> c.show_disk) && (l[i] == PanelItem::Net ==> c.show_net) by {
        if i < n1 {
            assert(l[i] == p1[i]);
        } else if i < n2 {
            assert(l[i] == p2[i - n1]);
        } else if i < n3 {
            assert(l[i] == p3[i - n2]);
        } else if i < n4 {
            assert(l[i] == p4[i - n3]);
        } else {
            assert(l[i] == p5[i - n4]);
        }
    }
    if c.show_cpu {
        assert(l[0] == PanelItem::Cpu);
        assert(l[1] == PanelItem::Separator);
    }
    if c.show_ram {
        assert(l[n1] == PanelItem::Ram);
        assert(l[n1 + 1] == PanelItem::Separator);
    }
    if c.show_gpu {
        assert(l[n2] == PanelItem::Gpu);
        assert(l[n2 + 1] == PanelItem::Separator);
    }
    if c.show_disk {
        assert(l[n3] == PanelItem::Disk);
        assert(l[n3 + 1] == PanelItem::Separator);
    }
    if c.show_net {
        assert(l[n4] == PanelItem::Net);
    }
}

/// A rate is shown in bytes per second below 1024, in kilobytes below 1024^2
/// and in megabytes above, the last two to the nearest tenth: the tenths
/// shown, times the unit, are within half a unit's tenth of ten times the rate
/// (for rates an `f64` holds exactly).
pub proof fn lemma_speed_text_units_and_accuracy(b: nat)
    ensures
        b < 1024 ==> speed_text(b) == decimal(b) + " B/s"@,
        1024 <= b < 0x10_0000 ==> exists|t: nat|
            speed_text(b) == #[trigger] one_decimal(t) + " KB/s"@ && -1024 <= 2 * (t * 1024 - 10
                * b) <= 1024,
        0x10_0000 <= b < 0x20_0000_0000_0000 ==> exists|t: nat|
            speed_text(b) == #[trigger] one_decimal(t) + " MB/s"@ && -0x10_0000 <= 2 * (t
                * 0x10_0000 - 10 * b) <= 0x10_0000,
{
    if 1024 <= b < 0x10_0000 {
        crate::text::lemma_tenths_within_half_a_tenth(b, 1024);
        let t = tenths_of(b, 1024);
        assert(speed_text(b) == one_decimal(t) + " KB/s"@);
    }
    if 0x10_0000 <= b < 0x20_0000_0000_0000 {
        crate::text::lemma_tenths_within_half_a_tenth(b, 0x10_0000);
        let t = tenths_of(b, 0x10_0000);
        assert(speed_text(b) == one_decimal(t) + " MB/s"@);
    }
}

/// The memory amounts are shown in gigabytes (1024^3 bytes) to the nearest
/// tenth, used before total; nothing is shown without a total.
pub proof fn lemma_ram_detail_in_gigabytes(used: nat, total: nat)
    ensures
        ram_detail_text(used, total) is None <==> total == 0,
        total > 0 && used < 0x20_0000_0000_0000 && total < 0x20_0000_0000_0000 ==> exists|
            tu: nat,
            tt: nat,
        |
            ram_detail_text(used, total) == Some(
                " | "@ + #[trigger] one_decimal(tu) + "/"@ + #[trigger] one_decimal(tt) + " GB"@,
            ) && -0x4000_0000 <= 2 * (tu * 0x4000_0000 - 10 * used) <= 0x4000_0000 && -0x4000_0000
                <= 2 * (tt * 0x4000_0000 - 10 * total) <= 0x4000_0000,
{
    if total > 0 && used < 0x20_0000_0000_0000 && total < 0x20_0000_0000_0000 {
        crate::text::lemma_tenths_within_half_a_tenth(used, 0x4000_0000);
        crate::text::lemma_tenths_within_half_a_tenth(total, 0x4000_0000);
        let tu = tenths_of(used, 0x4000_0000);
        let tt = tenths_of(total, 0x4000_0000);
        assert(ram_detail_text(used, total) == Some(
            " | "@ + one_decimal(tu) + "/"@ + one_decimal(tt) + " GB"@,
        ));
    }
}

/// The traffic of several interfaces adds up: the total over two lists is the
/// sum of their totals, and one interface's total is its own count.
pub proof fn lemma_traffic_totals_add_up(a: Seq<(u64, u64)>, b: Seq<(u64, u64)>, x: (u64, u64))
    ensures
        total_received(a + b) == total_received(a) + total_received(b),
        total_transmitted(a + b) == total_transmitted(a) + total_transmitted(b),
        total_received(seq![x]) == x.0,
        total_transmitted(seq![x]) == x.1,
        total_received(Seq::<(u64, u64)>::empty()) == 0,
    decreases b.len(),
{
    assert(seq![x].drop_last() =~= Seq::<(u64, u64)>::empty());
    assert(seq![x].last() == x);
    assert(total_received(Seq::<(u64, u64)>::empty()) == 0);
    assert(total_transmitted(Seq::<(u64, u64)>::empty()) == 0);
    if b.len() == 0 {
        assert(a + b =~= a);
    } else {
        assert((a + b).drop_last() =~= a + b.drop_last());
        assert((a + b).last() == b.last());
        lemma_traffic_totals_add_up(a, b.drop_last(), x);
    }
}

/// A disk is watched exactly when it is mounted at the root or its mount
/// point begins with `/home`.
pub proof fn lemma_watched_mounts(m: Seq<char>)
    ensures
        is_watched_mount(m) <==> m == "/"@ || (m.len() >= "/home"@.len() && m.take(
            "/home"@.len() as int,
        ) == "/home"@),
{
}

/// The first watched disk is reported, whatever the later disks are, and
/// disks that are not watched are passed over.
pub proof fn lemma_first_watched_disk_wins(d: DiskReading, rest: Seq<DiskReading>, p: Option<usize>)
    ensures
        is_watched_mount(d.mount_point@) && first_watched(seq![d] + rest, p) ==> p == Some(0usize),
        !is_watched_mount(d.mount_point@) && first_watched(seq![d] + rest, p) ==> (match p {
            Some(i) => i >= 1 && first_watched(rest, Some((i - 1) as usize)),
            None => first_watched(rest, None),
        }),
{
    let s = seq![d] + rest;
    assert(s[0] == d);
    assert forall|j: int| 0 <= j < rest.len() implies #[trigger] s[j + 1] == rest[j] by {}
    if !is_watched_mount(d.mount_point@) && first_watched(s, p) {
        match p {
            Some(i) => {
                assert(i != 0);
                assert(s[i as int] == rest[i - 1]);
                assert forall|j: int| 0 <= j < i - 1 implies !is_watched_mount(
                    #[trigger] rest[j].mount_point@,
                ) by {
                    assert(s[j + 1] == rest[j]);
                }
            },
            None => {
                assert forall|j: int| 0 <= j < rest.len() implies !is_watched_mount(
                    #[trigger] rest[j].mount_point@,
                ) by {
                    assert(s[j + 1] == rest[j]);
                }
            },
        }
    }
}

} // verus!
