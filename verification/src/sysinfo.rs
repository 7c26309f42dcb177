//! Processor, memory, battery and volume, as the system's own files and tools
//! report them.

use crate::command::{command, command_view, CommandLine, Output};
use crate::numbers::{number, parse_u64, parse_u8};
use crate::text::{
    after_prefix, contains_text, from_utf8_lossy, has_char, has_text, lines, pieces, same_text, split_at_char,
    split_lines, split_words, strip_prefix, trim, trimmed, utf8_lossy, view_opt, views, words,
};
use vstd::prelude::*;

verus! {

// ---------------------------------------------------------------------------
// Processor
// ---------------------------------------------------------------------------

/// The numbers among `fields`, in order.
pub open spec fn numbers_among(fields: Seq<Seq<char>>) -> Seq<nat>
    decreases fields.len(),
{
    if fields.len() == 0 {
        Seq::empty()
    } else {
        let before = numbers_among(fields.drop_last());
        match number(fields.last(), u64::MAX as nat) {
            Some(n) => before.push(n),
            None => before,
        }
    }
}

/// The times on the first line of `/proc/stat`: the numbers after its first word.
pub open spec fn times(stat: Seq<char>) -> Seq<nat> {
    let all = lines(stat);
    if all.len() == 0 || words(all[0]).len() == 0 {
        Seq::empty()
    } else {
        numbers_among(words(all[0]).drop_first())
    }
}

/// The sum of `v`.
pub open spec fn sum(v: Seq<nat>) -> nat
    decreases v.len(),
{
    if v.len() == 0 {
        0
    } else {
        sum(v.drop_last()) + v.last()
    }
}

/// The time that the processor spent idle, with the time that it waited for input
/// and output.
pub open spec fn idle_time(t: Seq<nat>) -> nat {
    t[3] + if t.len() > 4 {
        t[4]
    } else {
        0
    }
}

/// `a - b`, and 0 where `b` is greater.
pub open spec fn less(a: int, b: int) -> int {
    if a >= b {
        a - b
    } else {
        0
    }
}

/// How busy the processor was between two readings of its total and its idle time,
/// in percent; nothing where no time passed.
pub open spec fn busy_percent(before: (u64, u64), total: nat, idle: nat) -> Option<int> {
    let total_delta = less(total as int, before.0 as int);
    let idle_delta = less(idle as int, before.1 as int);
    if total_delta == 0 {
        None
    } else {
        Some(100 * less(total_delta, idle_delta) / total_delta)
    }
}

/// Whether the sums and products of a reading fit in 64 bits.
pub open spec fn reading_fits(t: Seq<nat>, prev: Option<(u64, u64)>) -> bool {
    t.len() >= 4 ==> {
        &&& sum(t) <= u64::MAX
        &&& idle_time(t) <= u64::MAX
        &&& prev matches Some(before) ==> 100 * less(
            less(sum(t) as int, before.0 as int),
            less(idle_time(t) as int, before.1 as int),
        ) <= u64::MAX
    }
}

/// Numbers without bounds.
pub open spec fn nats(v: Seq<u64>) -> Seq<nat> {
    Seq::new(v.len(), |i: int| v[i] as nat)
}

/// The times on the first line of `/proc/stat`.
pub fn cpu_times(stat: &str) -> (out: Vec<u64>)
    ensures
        nats(out@) == times(stat@),
{
    let mut out: Vec<u64> = Vec::new();
    assert(nats(out@) =~= Seq::<nat>::empty());
    let all = split_lines(stat);
    assert(views(all@) == lines(stat@));
    assert(views(all@).len() == all@.len());
    if all.len() == 0 {
        return out;
    }
    let fields = split_words(all[0].as_str());
    assert(views(all@)[0] == all@[0]@);
    let ghost ws = words(lines(stat@)[0]);
    assert(views(fields@) == ws);
    assert(ws.len() == fields@.len());
    if fields.len() == 0 {
        return out;
    }
    let ghost rest = ws.drop_first();
    let mut i: usize = 1;
    assert(rest.take(0) =~= Seq::<Seq<char>>::empty());
    while i < fields.len()
        invariant
            1 <= i <= fields@.len(),
            ws == views(fields@),
            rest == ws.drop_first(),
            nats(out@) == numbers_among(rest.take(i - 1)),
        decreases fields@.len() - i,
    {
        assert(rest.take(i as int).drop_last() =~= rest.take(i - 1));
        assert(rest.take(i as int).last() == fields@[i as int]@);
        if let Some(n) = parse_u64(fields[i].as_str()) {
            let ghost before = nats(out@);
            out.push(n);
            assert(nats(out@) =~= before.push(n as nat));
        }
        i += 1;
    }
    assert(rest.take(rest.len() as int) =~= rest);
    out
}

proof fn sum_grows(v: Seq<nat>, k: int)
    requires
        0 <= k <= v.len(),
    ensures
        sum(v.take(k)) <= sum(v),
    decreases v.len() - k,
{
    if k < v.len() {
        sum_grows(v, k + 1);
        assert(v.take(k + 1).drop_last() =~= v.take(k));
    } else {
        assert(v.take(k) =~= v);
    }
}

/// The sum of `v`, where it fits in 64 bits.
fn checked_sum(v: &Vec<u64>) -> (r: Option<u64>)
    ensures
        (match r {
            Some(n) => n == sum(nats(v@)),
            None => sum(nats(v@)) > u64::MAX,
        }),
{
    let ghost all = nats(v@);
    let mut total: u64 = 0;
    let mut i: usize = 0;
    assert(all.take(0) =~= Seq::<nat>::empty());
    while i < v.len()
        invariant
            i <= v@.len(),
            all == nats(v@),
            total == sum(all.take(i as int)),
        decreases v@.len() - i,
    {
        assert(all.take(i + 1).drop_last() =~= all.take(i as int));
        proof {
            sum_grows(all, i + 1);
        }
        if total > u64::MAX - v[i] {
            return None;
        }
        total = total + v[i];
        i += 1;
    }
    assert(all.take(all.len() as int) =~= all);
    Some(total)
}

/// The sum and the idle time of a reading, where they fit in 64 bits.
fn totals(t: &Vec<u64>) -> (r: Option<(u64, u64)>)
    requires
        t@.len() >= 4,
    ensures
        (match r {
            Some((total, idle)) => total == sum(nats(t@)) && idle == idle_time(nats(t@)),
            None => sum(nats(t@)) > u64::MAX || idle_time(nats(t@)) > u64::MAX,
        }),
{
    let total: u64 = match checked_sum(t) {
        Some(n) => n,
        None => {
            return None;
        },
    };
    let waiting: u64 = if t.len() > 4 {
        t[4]
    } else {
        0
    };
    assert(idle_time(nats(t@)) == t@[3] + waiting);
    if t[3] > u64::MAX - waiting {
        return None;
    }
    Some((total, t[3] + waiting))
}

fn difference(a: u64, b: u64) -> (r: u64)
    ensures
        r == less(a as int, b as int),
{
    if a >= b {
        a - b
    } else {
        0
    }
}

/// Whether `cpu_usage_percent` can work out a reading in 64 bits.
pub fn cpu_reading_fits(stat: Option<&str>, prev: Option<(u64, u64)>) -> (r: bool)
    ensures
        r == (match stat {
            Some(s) => reading_fits(times(s@), prev),
            None => true,
        }),
{
    let t = match stat {
        Some(s) => cpu_times(s),
        None => {
            return true;
        },
    };
    if t.len() < 4 {
        return true;
    }
    match totals(&t) {
        Some((total, idle)) => match prev {
            Some((prev_total, prev_idle)) => {
                let total_delta: u64 = difference(total, prev_total);
                let idle_delta: u64 = difference(idle, prev_idle);
                difference(total_delta, idle_delta) <= u64::MAX / 100
            },
            None => true,
        },
        None => false,
    }
}

/// How busy the processor was since the previous call, in percent.
///
/// `stat` is the contents of `/proc/stat` where it could be read. A reading alone
/// tells nothing, only the difference between two: `prev` keeps the one before.
pub fn cpu_usage_percent(stat: Option<&str>, prev: &mut Option<(u64, u64)>) -> (r: Option<u8>)
    requires
        stat matches Some(s) ==> reading_fits(times(s@), *old(prev)),
    ensures
        (match stat {
            Some(s) if times(s@).len() >= 4 => {
                let t = times(s@);
                &&& *final(prev) == Some((sum(t) as u64, idle_time(t) as u64))
                &&& (match *old(prev) {
                    Some(before) => match busy_percent(before, sum(t), idle_time(t)) {
                        Some(p) => r == Some(p as u8) && 0 <= p <= 100,
                        None => r is None,
                    },
                    None => r is None,
                })
            },
            _ => r is None && *final(prev) == *old(prev),
        }),
{
    let t = match stat {
        Some(s) => cpu_times(s),
        None => {
            return None;
        },
    };
    if t.len() < 4 {
        return None;
    }
    let (total, idle) = match totals(&t) {
        Some(pair) => pair,
        None => {
            return None;
        },
    };
    let result = match *prev {
        Some((prev_total, prev_idle)) => {
            let total_delta: u64 = difference(total, prev_total);
            let idle_delta: u64 = difference(idle, prev_idle);
            if total_delta == 0 {
                None
            } else {
                let busy: u64 = difference(total_delta, idle_delta);
                let percent: u64 = 100 * busy / total_delta;
                assert(100 * busy / total_delta as int <= 100) by (nonlinear_arith)
                    requires
                        0 <= busy <= total_delta,
                        total_delta > 0,
                ;
                Some(percent as u8)
            }
        },
        None => None,
    };
    *prev = Some((total, idle));
    result
}

// ---------------------------------------------------------------------------
// Memory
// ---------------------------------------------------------------------------

/// The label of the line with the size of the memory.
pub const TOTAL_LABEL: &'static str = "MemTotal:";

/// The label of the line with the memory that is free for use.
pub const AVAILABLE_LABEL: &'static str = "MemAvailable:";

/// Whether `line`, where it bears `label`, has a word after it.
pub open spec fn filled(line: Seq<char>, label: Seq<char>) -> bool {
    after_prefix(line, label) matches Some(rest) ==> words(rest).len() > 0
}

/// Whether each line for the size of the memory and for what is free of it says
/// something.
pub open spec fn all_filled(all: Seq<Seq<char>>) -> bool {
    forall|i: int|
        0 <= i < all.len() ==> filled(#[trigger] all[i], TOTAL_LABEL@) && filled(all[i], AVAILABLE_LABEL@)
}

/// The number on the last line that bears `label`.
pub open spec fn last_value(all: Seq<Seq<char>>, label: Seq<char>) -> Option<nat>
    decreases all.len(),
{
    if all.len() == 0 {
        None
    } else {
        match after_prefix(all.last(), label) {
            Some(rest) => number(words(rest)[0], u64::MAX as nat),
            None => last_value(all.drop_last(), label),
        }
    }
}

/// The size of the memory and what is free of it, as `/proc/meminfo` has them.
pub open spec fn memory(meminfo: Seq<char>) -> Option<(nat, nat)> {
    let all = lines(meminfo);
    match (last_value(all, TOTAL_LABEL@), last_value(all, AVAILABLE_LABEL@)) {
        (Some(total), Some(available)) => if all_filled(all) {
            Some((total, available))
        } else {
            None
        },
        _ => None,
    }
}

/// The memory in use, in percent; nothing where there is no memory.
pub open spec fn used_percent(total: nat, available: nat) -> Option<int> {
    if total == 0 {
        None
    } else {
        Some(100 * less(total as int, available as int) / total as int)
    }
}

/// Whether the product that the percentage is worked out from fits in 64 bits.
pub open spec fn memory_fits(meminfo: Seq<char>) -> bool {
    memory(meminfo) matches Some((total, available)) ==> 100 * less(total as int, available as int)
        <= u64::MAX
}

/// What a line says after `label`: nothing where it does not bear it, and otherwise
/// its first word, if there is one.
fn labelled(line: &str, label: &str) -> (r: Option<Option<String>>)
    ensures
        (match after_prefix(line@, label@) {
            None => r is None,
            Some(rest) => match r {
                None => false,
                Some(None) => words(rest).len() == 0,
                Some(Some(word)) => words(rest).len() > 0 && word@ == words(rest)[0],
            },
        }),
{
    match strip_prefix(line, label) {
        None => None,
        Some(rest) => {
            let fields = split_words(rest.as_str());
            assert(views(fields@).len() == fields@.len());
            if fields.len() == 0 {
                Some(None)
            } else {
                assert(views(fields@)[0] == fields@[0]@);
                Some(Some(fields[0].clone()))
            }
        },
    }
}

/// A parsed number without its bound.
pub open spec fn nat_opt(n: Option<u64>) -> Option<nat> {
    match n {
        Some(k) => Some(k as nat),
        None => None,
    }
}

/// The two labels cannot both stand at the start of a line.
proof fn labels_differ(line: Seq<char>)
    ensures
        after_prefix(line, TOTAL_LABEL@) is None || after_prefix(line, AVAILABLE_LABEL@) is None,
{
    reveal_strlit("MemTotal:");
    reveal_strlit("MemAvailable:");
    if after_prefix(line, TOTAL_LABEL@) is Some && after_prefix(line, AVAILABLE_LABEL@) is Some {
        assert(line.subrange(0, TOTAL_LABEL@.len() as int)[3] == TOTAL_LABEL@[3]);
        assert(line.subrange(0, AVAILABLE_LABEL@.len() as int)[3] == AVAILABLE_LABEL@[3]);
    }
}

/// The size of the memory and what is free of it, as `/proc/meminfo` has them.
pub fn memory_values(meminfo: &str) -> (r: Option<(u64, u64)>)
    ensures
        (match r {
            Some((total, available)) => memory(meminfo@) == Some((total as nat, available as nat)),
            None => memory(meminfo@) is None,
        }),
{
    let all = split_lines(meminfo);
    let ghost ls = lines(meminfo@);
    assert(views(all@) == ls);
    let mut total: Option<u64> = None;
    let mut available: Option<u64> = None;
    let mut i: usize = 0;
    assert(ls.take(0) =~= Seq::<Seq<char>>::empty());
    while i < all.len()
        invariant
            i <= all@.len(),
            ls == views(all@),
            ls == lines(meminfo@),
            nat_opt(total) == last_value(ls.take(i as int), TOTAL_LABEL@),
            nat_opt(available) == last_value(ls.take(i as int), AVAILABLE_LABEL@),
            forall|k: int|
                0 <= k < i ==> filled(#[trigger] ls[k], TOTAL_LABEL@) && filled(ls[k], AVAILABLE_LABEL@),
        decreases all@.len() - i,
    {
        let ghost line = ls[i as int];
        assert(line == all@[i as int]@);
        assert(ls.take(i + 1).drop_last() =~= ls.take(i as int));
        assert(ls.take(i + 1).last() == line);
        proof {
            labels_differ(line);
        }
        match labelled(all[i].as_str(), TOTAL_LABEL) {
            Some(None) => {
                assert(!filled(ls[i as int], TOTAL_LABEL@));
                return None;
            },
            Some(Some(word)) => {
                total = parse_u64(word.as_str());
            },
            None => match labelled(all[i].as_str(), AVAILABLE_LABEL) {
                Some(None) => {
                    assert(!filled(ls[i as int], AVAILABLE_LABEL@));
                    return None;
                },
                Some(Some(word)) => {
                    available = parse_u64(word.as_str());
                },
                None => {},
            },
        }
        i += 1;
    }
    assert(ls.take(ls.len() as int) =~= ls);
    match (total, available) {
        (Some(t), Some(a)) => Some((t, a)),
        _ => None,
    }
}

/// Whether `ram_usage_percent` can work out its percentage in 64 bits.
pub fn ram_reading_fits(meminfo: Option<&str>) -> (r: bool)
    ensures
        r == (match meminfo {
            Some(m) => memory_fits(m@),
            None => true,
        }),
{
    match meminfo {
        Some(m) => match memory_values(m) {
            Some((total, available)) => difference(total, available) <= u64::MAX / 100,
            None => true,
        },
        None => true,
    }
}

/// The memory in use, as a percentage of all of it.
///
/// `meminfo` is the contents of `/proc/meminfo` where it could be read.
pub fn ram_usage_percent(meminfo: Option<&str>) -> (r: Option<u8>)
    requires
        meminfo matches Some(m) ==> memory_fits(m@),
    ensures
        (match meminfo {
            Some(m) => match memory(m@) {
                Some((total, available)) => match used_percent(total, available) {
                    Some(p) => r == Some(p as u8) && 0 <= p <= 100,
                    None => r is None,
                },
                None => r is None,
            },
            None => r is None,
        }),
{
    match meminfo {
        Some(m) => match memory_values(m) {
            Some((total, available)) => {
                if total == 0 {
                    None
                } else {
                    let used: u64 = difference(total, available);
                    let percent: u64 = 100 * used / total;
                    assert(100 * used / total as int <= 100) by (nonlinear_arith)
                        requires
                            0 <= used <= total,
                            total > 0,
                    ;
                    Some(percent as u8)
                }
            },
            None => None,
        },
        None => None,
    }
}

// ---------------------------------------------------------------------------
// Battery
// ---------------------------------------------------------------------------

/// A battery's charge.
pub struct BatteryInfo {
    pub percent: u8,
    pub charging: bool,
}

/// One device below `/sys/class/power_supply`: what its files `type`, `capacity` and
/// `status` hold, where they can be read.
pub struct PowerSupply {
    pub kind: Option<String>,
    pub capacity: Option<String>,
    pub status: Option<String>,
}

/// Whether a device is a battery. One whose type cannot be read is not known to be.
pub open spec fn is_battery(supply: PowerSupply) -> bool {
    view_opt(supply.kind) matches Some(kind) && trimmed(kind) == "Battery"@
}

/// Whether the device at `i` is the first battery among `supplies`.
pub open spec fn is_first_battery(supplies: Seq<PowerSupply>, i: int) -> bool {
    &&& 0 <= i < supplies.len()
    &&& is_battery(supplies[i])
    &&& forall|j: int| 0 <= j < i ==> !is_battery(#[trigger] supplies[j])
}

/// What is read of a battery: its capacity, where that is a percentage, and whether
/// it is charging.
pub open spec fn charge_of(supply: PowerSupply) -> Option<BatteryInfo> {
    match view_opt(supply.capacity) {
        None => None,
        Some(capacity) => match number(trimmed(capacity), u8::MAX as nat) {
            None => None,
            Some(percent) => Some(
                BatteryInfo {
                    percent: percent as u8,
                    charging: (match view_opt(supply.status) {
                        Some(status) => trimmed(status) == "Charging"@,
                        None => false,
                    }),
                },
            ),
        },
    }
}

fn read_charge(supply: &PowerSupply) -> (r: Option<BatteryInfo>)
    ensures
        r == charge_of(*supply),
{
    let capacity = match &supply.capacity {
        Some(c) => trim(c.as_str()),
        None => {
            return None;
        },
    };
    let percent: u8 = match parse_u8(capacity.as_str()) {
        Some(p) => p,
        None => {
            return None;
        },
    };
    let charging = match &supply.status {
        Some(s) => {
            let status = trim(s.as_str());
            same_text(status.as_str(), "Charging")
        },
        None => false,
    };
    Some(BatteryInfo { percent, charging })
}

/// Reads the first device of type "Battery" (its name varies: BAT0, BAT1, ...). Devices
/// of another type before it, or of one that cannot be read, are passed over.
pub fn battery(supplies: &Vec<PowerSupply>) -> (r: Option<BatteryInfo>)
    ensures
        forall|i: int| #[trigger] is_first_battery(supplies@, i) ==> r == charge_of(supplies@[i]),
        (forall|i: int| 0 <= i < supplies@.len() ==> !is_battery(#[trigger] supplies@[i])) ==> r is None,
{
    let mut i: usize = 0;
    while i < supplies.len()
        invariant
            i <= supplies@.len(),
            forall|j: int| 0 <= j < i ==> !is_battery(#[trigger] supplies@[j]),
        decreases supplies@.len() - i,
    {
        if let Some(k) = &supplies[i].kind {
            let kind = trim(k.as_str());
            if same_text(kind.as_str(), "Battery") {
                assert(is_battery(supplies@[i as int]));
                return read_charge(&supplies[i]);
            }
        }
        i += 1;
    }
    None
}

// ---------------------------------------------------------------------------
// Volume
// ---------------------------------------------------------------------------

/// The sound's volume.
pub struct VolumeInfo {
    pub percent: u8,
    pub muted: bool,
}

/// The first line with a percent sign.
pub open spec fn percent_line(all: Seq<Seq<char>>) -> Option<Seq<char>>
    decreases all.len(),
{
    if all.len() == 0 {
        None
    } else if all[0].contains('%') {
        Some(all[0])
    } else {
        percent_line(all.skip(1))
    }
}

/// The volume on a line such as `Front Left: Playback 32768 [50%] [on]`: the number
/// between the first bracket and the percent sign after it.
pub open spec fn volume_on(line: Seq<char>) -> Option<VolumeInfo> {
    let parts = pieces(line, '[');
    if parts.len() < 2 {
        None
    } else {
        match number(pieces(parts[1], '%')[0], u8::MAX as nat) {
            Some(n) => Some(VolumeInfo { percent: n as u8, muted: contains_text(line, "[off]"@) }),
            None => None,
        }
    }
}

/// The volume that `amixer` prints.
pub open spec fn volume_in(text: Seq<char>) -> Option<VolumeInfo> {
    match percent_line(lines(text)) {
        Some(line) => volume_on(line),
        None => None,
    }
}

/// The command that prints the volume of the master control.
pub fn volume_command() -> (c: CommandLine)
    ensures
        c@ == command_view("amixer"@, seq!["sget"@, "Master"@]),
{
    let c = command("amixer").arg("sget").arg("Master");
    assert(c@.args =~= seq!["sget"@, "Master"@]);
    c
}

fn volume_of_line(line: &str) -> (r: Option<VolumeInfo>)
    ensures
        r == volume_on(line@),
{
    let parts = split_at_char(line, '[');
    assert(views(parts@).len() == parts@.len());
    if parts.len() < 2 {
        return None;
    }
    assert(views(parts@)[1] == parts@[1]@);
    let sides = split_at_char(parts[1].as_str(), '%');
    assert(views(sides@).len() == sides@.len());
    assert(views(sides@)[0] == sides@[0]@);
    match parse_u8(sides[0].as_str()) {
        Some(percent) => Some(VolumeInfo { percent, muted: has_text(line, "[off]") }),
        None => None,
    }
}

/// The volume that `amixer` prints.
pub fn volume_of(text: &str) -> (r: Option<VolumeInfo>)
    ensures
        r == volume_in(text@),
{
    let all = split_lines(text);
    let ghost ls = lines(text@);
    assert(views(all@) == ls);
    let mut i: usize = 0;
    assert(ls.skip(0) =~= ls);
    while i < all.len()
        invariant
            i <= all@.len(),
            ls == views(all@),
            ls == lines(text@),
            percent_line(ls) == percent_line(ls.skip(i as int)),
        decreases all@.len() - i,
    {
        assert(ls.skip(i as int)[0] == all@[i as int]@);
        assert(ls.skip(i as int).skip(1) =~= ls.skip(i + 1));
        if has_char(all[i].as_str(), '%') {
            return volume_of_line(all[i].as_str());
        }
        i += 1;
    }
    None
}

/// The volume, from what `amixer` printed where it could be run. Whether the tool
/// succeeded is not asked.
pub fn volume(output: &Option<Output>) -> (r: Option<VolumeInfo>)
    ensures
        r == (match *output {
            Some(o) => volume_in(utf8_lossy(o.stdout@)),
            None => None,
        }),
{
    match output {
        Some(o) => {
            let text = from_utf8_lossy(o.stdout.as_slice());
            volume_of(text.as_str())
        },
        None => None,
    }
}

// ---------------------------------------------------------------------------
// Laws
// ---------------------------------------------------------------------------

/// Every number among the fields counts, in its place, and no other field does.
pub proof fn every_number_counts(fields: Seq<Seq<char>>, next: Seq<char>)
    ensures
        numbers_among(Seq::<Seq<char>>::empty()) == Seq::<nat>::empty(),
        number(next, u64::MAX as nat) matches Some(n) ==> numbers_among(fields.push(next)) == numbers_among(
            fields,
        ).push(n),
        number(next, u64::MAX as nat) is None ==> numbers_among(fields.push(next)) == numbers_among(fields),
{
    assert(fields.push(next).drop_last() =~= fields);
}

/// Numbers that are written in decimal are all read, each as it was.
pub proof fn written_times_read_back(ns: Seq<nat>)
    requires
        forall|i: int| 0 <= i < ns.len() ==> #[trigger] ns[i] <= u64::MAX,
    ensures
        numbers_among(Seq::new(ns.len(), |i: int| crate::numbers::decimal(ns[i]))) == ns,
    decreases ns.len(),
{
    let fields = Seq::new(ns.len(), |i: int| crate::numbers::decimal(ns[i]));
    if ns.len() > 0 {
        let front = ns.drop_last();
        written_times_read_back(front);
        assert(fields.drop_last() =~= Seq::new(front.len(), |i: int| crate::numbers::decimal(front[i])));
        crate::numbers::written_number_reads_back(ns.last(), u64::MAX as nat);
        assert(front.push(ns.last()) =~= ns);
    } else {
        assert(numbers_among(fields) =~= ns);
    }
}

/// The times are those on the first line, after its first word.
pub proof fn the_first_line_has_the_times(line: Seq<char>, rest: Seq<char>)
    requires
        !line.contains('\n'),
        line.len() > 0 ==> line.last() != '\r',
        words(line).len() > 0,
    ensures
        times(line + seq!['\n'] + rest) == numbers_among(words(line).skip(1)),
        times(line) == numbers_among(words(line).skip(1)),
{
    crate::text::a_line_ends_at_the_line_feed(line, rest);
    assert(words(line).drop_first() =~= words(line).skip(1));
    if line.len() == 0 {
        assert(words(line).len() == 0);
    }
}

/// The sum grows by each number that is added, and starts at nothing.
pub proof fn a_sum_counts_every_number(a: Seq<nat>, b: Seq<nat>)
    ensures
        sum(a + b) == sum(a) + sum(b),
        b.len() == 1 ==> sum(b) == b[0],
        sum(Seq::<nat>::empty()) == 0,
    decreases b.len(),
{
    if b.len() == 0 {
        assert(a + b =~= a);
    } else {
        assert((a + b).drop_last() =~= a + b.drop_last());
        a_sum_counts_every_number(a, b.drop_last());
        if b.len() == 1 {
            assert(sum(b.drop_last()) == 0);
        }
    }
}

/// The fourth time is idle time, and so is the fifth where there is one.
pub proof fn waiting_is_idle(t: Seq<nat>, idle: nat, waiting: nat, rest: Seq<nat>)
    requires
        t.len() == 3,
    ensures
        idle_time(t + seq![idle]) == idle,
        idle_time(t + seq![idle, waiting] + rest) == idle + waiting,
{
}

/// How busy the processor was is the share of the time since the last reading that was not
/// idle, in percent and rounded down.
pub proof fn busy_is_what_was_not_idle(before: (u64, u64), total: nat, idle: nat)
    requires
        total > before.0,
    ensures
        ({
            let all = total - before.0;
            let rest = idle - before.1;
            let busy = if rest < 0 {
                all
            } else if rest > all {
                0
            } else {
                all - rest
            };
            busy_percent(before, total, idle) matches Some(p) && p * all <= 100 * busy < (p + 1) * all
        }),
{
    let all = total - before.0;
    let rest = idle - before.1;
    let busy = if rest < 0 {
        all
    } else if rest > all {
        0
    } else {
        all - rest
    };
    assert(busy_percent(before, total, idle) == Some(100 * busy / all));
    let p = 100 * busy / all;
    assert(p * all <= 100 * busy < (p + 1) * all) by (nonlinear_arith)
        requires
            p == 100 * busy / all,
            all > 0,
    ;
}

/// Where no time has passed since the last reading, nothing is said.
pub proof fn no_time_no_percentage(before: (u64, u64), total: nat, idle: nat)
    requires
        total <= before.0,
    ensures
        busy_percent(before, total, idle) is None,
{
}

/// The memory in use is what is not available of all of it, in percent and rounded down.
pub proof fn used_is_what_is_not_available(total: nat, available: nat)
    requires
        total > 0,
    ensures
        ({
            let used = if available > total {
                0
            } else {
                total - available
            };
            used_percent(total, available) matches Some(p) && p * total <= 100 * used < (p + 1) * total
        }),
        used_percent(0, available) is None,
{
    let used = if available > total {
        0
    } else {
        total - available
    };
    assert(used_percent(total, available) == Some(100 * used / total as int));
    let p = 100 * used / total as int;
    assert(p * total <= 100 * used < (p + 1) * total) by (nonlinear_arith)
        requires
            p == 100 * used / total as int,
            total > 0,
    ;
}

/// The number after a label is that of the last line that begins with it.
pub proof fn the_last_label_counts(all: Seq<Seq<char>>, i: int, label: Seq<char>, rest: Seq<char>)
    requires
        0 <= i < all.len(),
        all[i] == label + rest,
        forall|j: int| i < j < all.len() ==> !label.is_prefix_of(#[trigger] all[j]),
    ensures
        last_value(all, label) == number(words(rest)[0], u64::MAX as nat),
    decreases all.len(),
{
    crate::text::the_rest_follows_the_prefix(all[i], label, rest);
    if i < all.len() - 1 {
        let last = all[all.len() - 1];
        crate::text::the_rest_follows_the_prefix(last, label, Seq::empty());
        if let Some(r) = after_prefix(last, label) {
            assert(last == label + r);
            assert(label =~= last.subrange(0, label.len() as int));
            assert(label.is_prefix_of(last));
        }
        the_last_label_counts(all.drop_last(), i, label, rest);
    }
}

/// The size of the memory and what is available of it are the numbers after their labels.
pub proof fn memory_is_read_by_its_labels(
    text: Seq<char>,
    t: int,
    total: nat,
    t_rest: Seq<char>,
    a: int,
    available: nat,
    a_rest: Seq<char>,
)
    requires
        0 <= t < lines(text).len(),
        0 <= a < lines(text).len(),
        lines(text)[t] == TOTAL_LABEL@ + t_rest,
        lines(text)[a] == AVAILABLE_LABEL@ + a_rest,
        words(t_rest).len() > 0,
        words(t_rest)[0] == crate::numbers::decimal(total),
        words(a_rest).len() > 0,
        words(a_rest)[0] == crate::numbers::decimal(available),
        total <= u64::MAX,
        available <= u64::MAX,
        forall|j: int| t != j && 0 <= j < lines(text).len() ==> !TOTAL_LABEL@.is_prefix_of(#[trigger] lines(text)[j]),
        forall|j: int|
            a != j && 0 <= j < lines(text).len() ==> !AVAILABLE_LABEL@.is_prefix_of(#[trigger] lines(text)[j]),
    ensures
        memory(text) == Some((total, available)),
{
    let all = lines(text);
    the_last_label_counts(all, t, TOTAL_LABEL@, t_rest);
    the_last_label_counts(all, a, AVAILABLE_LABEL@, a_rest);
    crate::numbers::written_number_reads_back(total, u64::MAX as nat);
    crate::numbers::written_number_reads_back(available, u64::MAX as nat);
    assert forall|i: int| 0 <= i < all.len() implies filled(#[trigger] all[i], TOTAL_LABEL@) && filled(
        all[i],
        AVAILABLE_LABEL@,
    ) by {
        only_a_label_is_asked(all[i], TOTAL_LABEL@);
        only_a_label_is_asked(all[i], AVAILABLE_LABEL@);
        crate::text::the_rest_follows_the_prefix(all[i], TOTAL_LABEL@, t_rest);
        crate::text::the_rest_follows_the_prefix(all[i], AVAILABLE_LABEL@, a_rest);
    }
}

proof fn only_a_label_is_asked(line: Seq<char>, label: Seq<char>)
    ensures
        !label.is_prefix_of(line) ==> filled(line, label),
{
    crate::text::the_rest_follows_the_prefix(line, label, Seq::empty());
    if let Some(r) = after_prefix(line, label) {
        assert(line == label + r);
        assert(label =~= line.subrange(0, label.len() as int));
        assert(label.is_prefix_of(line));
    }
}

/// A battery's charge is the number in its file, whatever white space surrounds it, and
/// the battery charges exactly where its status says so.
pub proof fn a_charge_is_read_as_it_stands(
    supply: PowerSupply,
    percent: nat,
    before: Seq<char>,
    behind: Seq<char>,
)
    requires
        percent <= u8::MAX,
        crate::text::all_space(before),
        crate::text::all_space(behind),
        view_opt(supply.capacity) == Some(before + crate::numbers::decimal(percent) + behind),
    ensures
        charge_of(supply) matches Some(info) && info.percent == percent && info.charging == (view_opt(
            supply.status,
        ) matches Some(status) && trimmed(status) == "Charging"@),
{
    crate::numbers::written_number_reads_back(percent, u8::MAX as nat);
    decimal_is_solid(percent);
    crate::text::trimming_takes_off_the_ends(before, crate::numbers::decimal(percent), behind);
}

proof fn decimal_is_solid(n: nat)
    ensures
        crate::numbers::decimal(n).len() > 0,
        forall|i: int|
            0 <= i < crate::numbers::decimal(n).len() ==> crate::numbers::is_digit(
                #[trigger] crate::numbers::decimal(n)[i],
            ),
    decreases n,
{
    if n >= 10 {
        decimal_is_solid(n / 10);
    }
}

/// A device is a battery exactly where its type says so, whatever white space surrounds
/// that.
pub proof fn a_battery_says_what_it_is(supply: PowerSupply, before: Seq<char>, behind: Seq<char>)
    requires
        crate::text::all_space(before),
        crate::text::all_space(behind),
        view_opt(supply.kind) == Some(before + "Battery"@ + behind),
    ensures
        is_battery(supply),
{
    reveal_strlit("Battery");
    crate::text::trimming_takes_off_the_ends(before, "Battery"@, behind);
}

/// A device of any other type, or of none, is no battery.
pub proof fn any_other_type_is_no_battery(supply: PowerSupply)
    requires
        view_opt(supply.kind) matches Some(kind) ==> trimmed(kind) != "Battery"@,
    ensures
        !is_battery(supply),
{
}

/// The volume is the number between the first bracket and the percent sign behind it, and
/// it is muted exactly where the line says so.
pub proof fn the_volume_stands_in_the_first_brackets(a: Seq<char>, percent: nat, b: Seq<char>)
    requires
        percent <= u8::MAX,
        !a.contains('['),
    ensures
        ({
            let line = a + seq!['['] + (crate::numbers::decimal(percent) + seq!['%'] + b);
            volume_on(line) matches Some(v) && v.percent == percent && (v.muted <==> exists|x: Seq<char>, y: Seq<char>|
                line == #[trigger] (x + "[off]"@ + y))
        }),
{
    let digits = crate::numbers::decimal(percent);
    let tail = digits + seq!['%'] + b;
    let line = a + seq!['['] + tail;
    crate::numbers::written_number_reads_back(percent, u8::MAX as nat);
    decimal_is_solid(percent);
    crate::text::a_piece_ends_at_the_separator(a, '[', tail);
    assert(!digits.contains('%'));
    let parts = pieces(line, '[');
    first_piece_begins_alike(digits, b);
    crate::text::a_part_is_found_anywhere(line, "[off]"@);
}

proof fn first_piece_begins_alike(digits: Seq<char>, b: Seq<char>)
    requires
        forall|i: int| 0 <= i < digits.len() ==> crate::numbers::is_digit(#[trigger] digits[i]),
    ensures
        pieces(pieces(digits + seq!['%'] + b, '[')[0], '%')[0] == digits,
{
    let s = digits + seq!['%'] + b;
    crate::text::position_first(s, '[');
    let k = crate::text::position(s, '[') as int;
    let first = pieces(s, '[')[0];
    assert(k > digits.len()) by {
        if k <= digits.len() {
            if k < digits.len() {
                assert(s[k] == digits[k]);
            } else {
                assert(s[k] == '%');
            }
        }
    }
    assert(first =~= s.take(k));
    let c = first.skip((digits.len() + 1) as int);
    assert(first =~= digits + seq!['%'] + c);
    assert(!digits.contains('%'));
    crate::text::a_piece_ends_at_the_separator(digits, '%', c);
}

/// The line of the volume is the first with a percent sign; without one there is none.
pub proof fn the_first_percent_sign_counts(all: Seq<Seq<char>>, k: int)
    requires
        0 <= k <= all.len(),
        forall|j: int| 0 <= j < k ==> !(#[trigger] all[j]).contains('%'),
    ensures
        k < all.len() && all[k].contains('%') ==> percent_line(all) == Some(all[k]),
        k == all.len() ==> percent_line(all) is None,
    decreases k,
{
    if k > 0 {
        assert(!all[0].contains('%'));
        the_first_percent_sign_counts(all.skip(1), k - 1);
    }
}

/// The volume is that on the first line with a percent sign.
pub proof fn the_volume_is_on_the_first_such_line(text: Seq<char>, k: int)
    requires
        0 <= k < lines(text).len(),
        lines(text)[k].contains('%'),
        forall|j: int| 0 <= j < k ==> !(#[trigger] lines(text)[j]).contains('%'),
    ensures
        volume_in(text) == volume_on(lines(text)[k]),
{
    the_first_percent_sign_counts(lines(text), k);
}

/// A label with nothing behind it leaves the memory unknown.
pub proof fn an_empty_label_leaves_memory_unknown(text: Seq<char>, i: int, rest: Seq<char>)
    requires
        0 <= i < lines(text).len(),
        lines(text)[i] == TOTAL_LABEL@ + rest || lines(text)[i] == AVAILABLE_LABEL@ + rest,
        words(rest).len() == 0,
    ensures
        memory(text) is None,
{
    crate::text::the_rest_follows_the_prefix(lines(text)[i], TOTAL_LABEL@, rest);
    crate::text::the_rest_follows_the_prefix(lines(text)[i], AVAILABLE_LABEL@, rest);
    assert(!filled(lines(text)[i], TOTAL_LABEL@) || !filled(lines(text)[i], AVAILABLE_LABEL@));
}

} // verus!
