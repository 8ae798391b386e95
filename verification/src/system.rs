//! The readings of the built-in modules, computed from what the system reports:
//! `/proc/stat`, `/proc/meminfo`, the network interfaces, the batteries and `pactl`.
use vstd::prelude::*;

use crate::text::{
    chars_of, decimal, is_space, lines, lines_of, parse_u64_chars, parse_unsigned,
    parse_unsigned_chars, starts_with, starts_with_chars, string_of, strip_prefix, trim, trim_str,
    u64_to_string, views, words, words_of,
};

verus! {

broadcast use vstd::string::group_string_axioms;

// ------------------------------------------------------------
// CPU
// ------------------------------------------------------------

/// The first line that starts with `cpu ` (the line of all CPUs together).
pub open spec fn cpu_line(ls: Seq<Seq<char>>) -> Option<Seq<char>>
    decreases ls.len(),
{
    if ls.len() == 0 {
        None
    } else if starts_with(ls[0], "cpu "@) {
        Some(ls[0])
    } else {
        cpu_line(ls.drop_first())
    }
}

/// The words that read as `u64` numbers, in order; the others are left out.
pub open spec fn numbers_of(ws: Seq<Seq<char>>) -> Seq<nat>
    decreases ws.len(),
{
    if ws.len() == 0 {
        seq![]
    } else {
        match parse_unsigned(ws[0], u64::MAX as nat) {
            Some(v) => seq![v] + numbers_of(ws.drop_first()),
            None => numbers_of(ws.drop_first()),
        }
    }
}

pub open spec fn sum_of(v: Seq<nat>) -> nat
    decreases v.len(),
{
    if v.len() == 0 {
        0
    } else {
        sum_of(v.drop_last()) + v.last()
    }
}

/// The counters of the `cpu ` line of `/proc/stat`: the numbers after its first word.
pub open spec fn cpu_counters(data: Seq<char>) -> Option<Seq<nat>> {
    match cpu_line(lines(data)) {
        None => None,
        Some(l) => Some(numbers_of(words(l).skip(1))),
    }
}

/// The total and the idle time of all CPUs in `/proc/stat`: the sum of the counters,
/// and the fourth plus the fifth counter (idle and iowait); nothing without a `cpu `
/// line of at least five counters.
pub open spec fn cpu_times(data: Seq<char>) -> Option<(nat, nat)> {
    match cpu_counters(data) {
        None => None,
        Some(v) => if v.len() < 5 {
            None
        } else {
            Some((sum_of(v), v[3] + v[4]))
        },
    }
}

/// Whether the sum of the counters fits in a `u64` (else adding them overflows).
pub open spec fn cpu_times_fit(data: Seq<char>) -> bool {
    match cpu_counters(data) {
        None => true,
        Some(v) => v.len() < 5 || sum_of(v) <= u64::MAX,
    }
}

fn cpu_line_of(ls: &Vec<Vec<char>>) -> (r: Option<usize>)
    ensures
        match r {
            Some(i) => i < ls@.len() && cpu_line(views(ls@)) == Some(ls@[i as int]@) && starts_with(
                ls@[i as int]@,
                "cpu "@,
            ),
            None => cpu_line(views(ls@)) is None,
        },
{
    let prefix = chars_of("cpu ");
    let mut i: usize = 0;
    assert(views(ls@).skip(0) =~= views(ls@));
    while i < ls.len()
        invariant
            i <= ls@.len(),
            prefix@ == "cpu "@,
            cpu_line(views(ls@)) == cpu_line(views(ls@).skip(i as int)),
        decreases ls.len() - i,
    {
        assert(views(ls@).skip(i as int)[0] == ls@[i as int]@);
        if starts_with_chars(ls[i].as_slice(), prefix.as_slice()) {
            return Some(i);
        }
        assert(views(ls@).skip(i as int).drop_first() =~= views(ls@).skip(i + 1));
        i = i + 1;
    }
    None
}

/// The `u64` numbers among `ws[from..]`.
fn numbers_from(ws: &Vec<Vec<char>>, from: usize) -> (r: Vec<u64>)
    requires
        from <= ws@.len(),
    ensures
        r@.map_values(|x: u64| x as nat) == numbers_of(views(ws@).skip(from as int)),
{
    let mut r: Vec<u64> = Vec::new();
    let mut i = from;
    let ghost all = views(ws@);
    assert(r@.map_values(|x: u64| x as nat) + numbers_of(all.skip(from as int)) =~= numbers_of(
        all.skip(from as int),
    ));
    while i < ws.len()
        invariant
            from <= i <= ws@.len(),
            all == views(ws@),
            r@.map_values(|x: u64| x as nat) + numbers_of(all.skip(i as int)) == numbers_of(
                all.skip(from as int),
            ),
        decreases ws.len() - i,
    {
        let ghost before = r@.map_values(|x: u64| x as nat);
        assert(all.skip(i as int)[0] == ws@[i as int]@);
        assert(all.skip(i as int).drop_first() =~= all.skip(i + 1));
        match parse_u64_chars(ws[i].as_slice()) {
            Some(v) => {
                r.push(v);
                assert(r@.map_values(|x: u64| x as nat) =~= before.push(v as nat));
                assert(before + (seq![v as nat] + numbers_of(all.skip(i + 1))) =~= r@.map_values(
                    |x: u64| x as nat,
                ) + numbers_of(all.skip(i + 1)));
            },
            None => {},
        }
        i = i + 1;
    }
    assert(all.skip(i as int) =~= Seq::<Seq<char>>::empty());
    assert(r@.map_values(|x: u64| x as nat) + Seq::<nat>::empty() =~= r@.map_values(
        |x: u64| x as nat,
    ));
    r
}

/// Whether the counters of the `cpu ` line of `data` can be added up in a `u64`.
pub fn cpu_stat_fits(data: &str) -> (b: bool)
    ensures
        b == cpu_times_fit(data@),
{
    let chars = chars_of(data);
    let ls = lines_of(chars.as_slice());
    let i = match cpu_line_of(&ls) {
        Some(i) => i,
        None => return true,
    };
    let ws = words_of(ls[i].as_slice());
    proof {
        reveal_strlit("cpu ");
        let l = ls@[i as int]@;
        assert(l.take(4)[0] == 'c');
        assert(l[0] == 'c');
        crate::text::lemma_word_len_bounds(l);
        assert(words(l).len() > 0);
        assert(views(ls@) == lines(data@));
    }
    let values = numbers_from(&ws, 1);
    let ghost nv = values@.map_values(|x: u64| x as nat);
    assert(cpu_counters(data@) == Some(nv));
    if values.len() < 5 {
        return true;
    }
    let mut total: u64 = 0;
    let mut k: usize = 0;
    assert(nv.take(0) =~= Seq::<nat>::empty());
    while k < values.len()
        invariant
            k <= values@.len(),
            nv == values@.map_values(|x: u64| x as nat),
            total == sum_of(nv.take(k as int)),
            cpu_counters(data@) == Some(nv),
            nv.len() >= 5,
        decreases values.len() - k,
    {
        assert(nv.take(k + 1).drop_last() =~= nv.take(k as int));
        if values[k] > u64::MAX - total {
            proof {
                assert(nv[k as int] == values@[k as int] as nat);
                assert(sum_of(nv.take(k + 1)) == total + values@[k as int]);
                lemma_sum_prefix(nv, k + 1);
            }
            return false;
        }
        total = total + values[k];
        k = k + 1;
    }
    assert(nv.take(k as int) =~= nv);
    true
}

proof fn lemma_sum_prefix(v: Seq<nat>, n: int)
    requires
        0 <= n <= v.len(),
    ensures
        sum_of(v.take(n)) <= sum_of(v),
    decreases v.len() - n,
{
    if n < v.len() {
        assert(v.take(n + 1).drop_last() =~= v.take(n));
        lemma_sum_prefix(v, n + 1);
    } else {
        assert(v.take(n) =~= v);
    }
}

/// The total and idle CPU time in the `/proc/stat` text `data` (see `cpu_times`).
pub fn read_cpu_stat(data: &str) -> (r: Option<(u64, u64)>)
    requires
        cpu_times_fit(data@),
    ensures
        match r {
            Some((total, idle)) => cpu_times(data@) == Some((total as nat, idle as nat)),
            None => cpu_times(data@) is None,
        },
{
    let chars = chars_of(data);
    let ls = lines_of(chars.as_slice());
    let i = match cpu_line_of(&ls) {
        Some(i) => i,
        None => return None,
    };
    let ws = words_of(ls[i].as_slice());
    proof {
        reveal_strlit("cpu ");
        let l = ls@[i as int]@;
        assert(l.take(4)[0] == 'c');
        assert(l[0] == 'c');
        crate::text::lemma_word_len_bounds(l);
        assert(words(l).len() > 0);
        assert(views(ls@) == lines(data@));
    }
    let values = numbers_from(&ws, 1);
    let ghost nv = values@.map_values(|x: u64| x as nat);
    assert(cpu_counters(data@) == Some(nv));
    if values.len() < 5 {
        return None;
    }
    let mut total: u64 = 0;
    let mut k: usize = 0;
    assert(nv.take(0) =~= Seq::<nat>::empty());
    while k < values.len()
        invariant
            k <= values@.len(),
            nv == values@.map_values(|x: u64| x as nat),
            total == sum_of(nv.take(k as int)),
            sum_of(nv) <= u64::MAX,
        decreases values.len() - k,
    {
        assert(nv.take(k + 1).drop_last() =~= nv.take(k as int));
        proof {
            lemma_sum_prefix(nv, k + 1);
        }
        total = total + values[k];
        k = k + 1;
    }
    assert(nv.take(k as int) =~= nv);
    proof {
        assert(sum_of(nv.take(4)) <= sum_of(nv)) by {
            lemma_sum_prefix(nv, 5);
            assert(nv.take(5).drop_last() =~= nv.take(4));
            assert(nv.take(4).drop_last() =~= nv.take(3));
        }
        assert(nv[3] + nv[4] <= sum_of(nv.take(5))) by {
            assert(nv.take(5).drop_last() =~= nv.take(4));
            assert(nv.take(4).drop_last() =~= nv.take(3));
        }
        lemma_sum_prefix(nv, 5);
    }
    let idle = values[3] + values[4];
    Some((total, idle))
}

/// What the CPU module computes from the previous and the current times: nothing to
/// divide (usage 0) without a previous reading or when no time has passed; else the
/// busy time and the total time that passed (both saturating at 0), whose ratio is the
/// usage.
pub open spec fn cpu_delta_of(previous: Option<(u64, u64)>, current: (u64, u64)) -> Option<
    (u64, u64),
> {
    match previous {
        None => None,
        Some(old) => {
            let total = if current.0 >= old.0 {
                (current.0 - old.0) as u64
            } else {
                0u64
            };
            let idle = if current.1 >= old.1 {
                (current.1 - old.1) as u64
            } else {
                0u64
            };
            if total == 0 {
                None
            } else {
                Some(
                    (
                        if total >= idle {
                            (total - idle) as u64
                        } else {
                            0u64
                        },
                        total,
                    ),
                )
            }
        },
    }
}

/// The busy and total time between two readings (see `cpu_delta_of`).
pub fn cpu_usage(previous: Option<(u64, u64)>, current: (u64, u64)) -> (r: Option<(u64, u64)>)
    ensures
        r == cpu_delta_of(previous, current),
{
    match previous {
        None => None,
        Some(old) => {
            let total_delta = current.0.saturating_sub(old.0);
            let idle_delta = current.1.saturating_sub(old.1);
            if total_delta == 0 {
                None
            } else {
                Some((total_delta.saturating_sub(idle_delta), total_delta))
            }
        },
    }
}

// ------------------------------------------------------------
// Memory
// ------------------------------------------------------------

/// The number at the start of a `/proc/meminfo` field, or 0 when there is none.
pub open spec fn field_number(rest: Seq<char>) -> nat {
    let ws = words(rest);
    if ws.len() == 0 {
        0
    } else {
        match parse_unsigned(ws[0], u64::MAX as nat) {
            Some(v) => v,
            None => 0,
        }
    }
}

/// The `MemTotal:` and `MemAvailable:` values of the lines (the last of each counts;
/// 0 when absent).
pub open spec fn mem_fields(ls: Seq<Seq<char>>) -> (nat, nat)
    decreases ls.len(),
{
    if ls.len() == 0 {
        (0, 0)
    } else {
        let before = mem_fields(ls.drop_last());
        let l = ls.last();
        (
            match strip_prefix(l, "MemTotal:"@) {
                Some(rest) => field_number(rest),
                None => before.0,
            },
            match strip_prefix(l, "MemAvailable:"@) {
                Some(rest) => field_number(rest),
                None => before.1,
            },
        )
    }
}

/// The used memory in percent: `(total - available) * 100 / total`, the subtraction
/// and the product saturating, and 0 when the total is 0.
pub open spec fn ram_percent(data: Seq<char>) -> nat {
    let (total, available) = mem_fields(lines(data));
    if total == 0 {
        0
    } else {
        let used: nat = if total >= available {
            (total - available) as nat
        } else {
            0
        };
        let scaled: nat = if used * 100 > u64::MAX {
            u64::MAX as nat
        } else {
            used * 100
        };
        scaled / total
    }
}

fn field_number_of(rest: &[char]) -> (r: u64)
    ensures
        r == field_number(rest@),
{
    let ws = words_of(rest);
    if ws.len() == 0 {
        return 0;
    }
    assert(views(ws@)[0] == ws@[0]@);
    match parse_u64_chars(ws[0].as_slice()) {
        Some(v) => v,
        None => 0,
    }
}

/// The used memory in percent in the `/proc/meminfo` text `data` (see `ram_percent`).
pub fn ram_usage(data: &str) -> (r: String)
    ensures
        r@ == decimal(ram_percent(data@)),
{
    let chars = chars_of(data);
    let ls = lines_of(chars.as_slice());
    let total_key = chars_of("MemTotal:");
    let available_key = chars_of("MemAvailable:");
    let mut total: u64 = 0;
    let mut available: u64 = 0;
    let ghost all = views(ls@);
    assert(all.take(0) =~= Seq::<Seq<char>>::empty());
    for i in 0..ls.len()
        invariant
            all == views(ls@),
            total_key@ == "MemTotal:"@,
            available_key@ == "MemAvailable:"@,
            mem_fields(all.take(i as int)) == (total as nat, available as nat),
    {
        assert(all.take(i + 1).drop_last() =~= all.take(i as int));
        assert(all.take(i + 1).last() == ls@[i as int]@);
        let line = ls[i].as_slice();
        if starts_with_chars(line, total_key.as_slice()) {
            let rest = crate::text::slice_chars(line, total_key.len(), line.len());
            assert(rest@ =~= line@.skip("MemTotal:"@.len() as int));
            total = field_number_of(rest.as_slice());
        }
        if starts_with_chars(line, available_key.as_slice()) {
            let rest = crate::text::slice_chars(line, available_key.len(), line.len());
            assert(rest@ =~= line@.skip("MemAvailable:"@.len() as int));
            available = field_number_of(rest.as_slice());
        }
    }
    assert(all.take(ls@.len() as int) =~= all);
    if total == 0 {
        return u64_to_string(0);
    }
    let used = total.saturating_sub(available);
    let scaled: u64 = if used > u64::MAX / 100 {
        assert(used * 100 > u64::MAX) by (nonlinear_arith)
            requires
                used > u64::MAX / 100,
        ;
        u64::MAX
    } else {
        assert(used * 100 <= u64::MAX) by (nonlinear_arith)
            requires
                used <= u64::MAX / 100,
        ;
        used * 100
    };
    u64_to_string(scaled / total)
}

// ------------------------------------------------------------
// Network
// ------------------------------------------------------------

/// A network interface as `/sys/class/net` shows it.
pub struct NetInterface {
    pub name: String,
    /// The content of its `operstate` file (empty when it cannot be read).
    pub operstate: String,
    /// Whether it has a `wireless` directory.
    pub wireless: bool,
}

/// Whether an interface counts: it is not the loopback `lo` and its state is `up`.
pub open spec fn is_up(i: NetInterface) -> bool {
    i.name@ != "lo"@ && trim(i.operstate@) == "up"@
}

/// The last interface of `interfaces` that is up and wireless (`wireless == true`) or
/// up and not wireless (`wireless == false`).
pub open spec fn last_up(interfaces: Seq<NetInterface>, wireless: bool) -> Option<Seq<char>>
    decreases interfaces.len(),
{
    if interfaces.len() == 0 {
        None
    } else if is_up(interfaces.last()) && interfaces.last().wireless == wireless {
        Some(interfaces.last().name@)
    } else {
        last_up(interfaces.drop_last(), wireless)
    }
}

/// The network module's text: the last wireless interface that is up, else the last
/// other interface that is up, else `offline` (also when the interfaces cannot be
/// listed).
pub open spec fn network_text(interfaces: Option<Seq<NetInterface>>) -> Seq<char> {
    match interfaces {
        None => "offline"@,
        Some(all) => match last_up(all, true) {
            Some(n) => n,
            None => match last_up(all, false) {
                Some(n) => n,
                None => "offline"@,
            },
        },
    }
}

fn same_chars(a: &str, b: &str) -> (r: bool)
    ensures
        r == (a@ == b@),
{
    let av = chars_of(a);
    let bv = chars_of(b);
    if av.len() != bv.len() {
        return false;
    }
    let mut i: usize = 0;
    while i < av.len()
        invariant
            i <= av@.len(),
            av@.len() == bv@.len(),
            av@ == a@,
            bv@ == b@,
            forall|j: int| 0 <= j < i ==> av@[j] == bv@[j],
        decreases av.len() - i,
    {
        if av[i] != bv[i] {
            return false;
        }
        i = i + 1;
    }
    assert(av@ =~= bv@);
    true
}

/// The network module's text (see `network_text`).
pub fn network_status(interfaces: Option<&Vec<NetInterface>>) -> (r: String)
    ensures
        r@ == network_text(
            match interfaces {
                Some(v) => Some(v@),
                None => None,
            },
        ),
{
    let all = match interfaces {
        Some(v) => v,
        None => return String::from_str("offline"),
    };
    let mut wireless: Option<usize> = None;
    let mut ethernet: Option<usize> = None;
    assert(all@.take(0) =~= Seq::<NetInterface>::empty());
    for i in 0..all.len()
        invariant
            match wireless {
                Some(k) => k < all@.len() && last_up(all@.take(i as int), true) == Some(
                    all@[k as int].name@,
                ),
                None => last_up(all@.take(i as int), true) is None,
            },
            match ethernet {
                Some(k) => k < all@.len() && last_up(all@.take(i as int), false) == Some(
                    all@[k as int].name@,
                ),
                None => last_up(all@.take(i as int), false) is None,
            },
    {
        assert(all@.take(i + 1).drop_last() =~= all@.take(i as int));
        assert(all@.take(i + 1).last() == all@[i as int]);
        let entry = &all[i];
        let state = trim_str(entry.operstate.as_str());
        if !same_chars(entry.name.as_str(), "lo") && same_chars(state.as_str(), "up") {
            if entry.wireless {
                wireless = Some(i);
            } else {
                ethernet = Some(i);
            }
        }
    }
    assert(all@.take(all@.len() as int) =~= all@);
    match wireless {
        Some(k) => all[k].name.clone(),
        None => match ethernet {
            Some(k) => all[k].name.clone(),
            None => String::from_str("offline"),
        },
    }
}

// ------------------------------------------------------------
// Battery
// ------------------------------------------------------------

/// A power supply as `/sys/class/power_supply` shows it.
pub struct PowerSupply {
    pub name: String,
    /// The content of its `capacity` file, when it can be read.
    pub capacity: Option<String>,
}

/// The battery module's text: the trimmed capacity of the first supply whose name
/// starts with `BAT` and whose capacity can be read, else `--` (also when the supplies
/// cannot be listed).
pub open spec fn battery_text_of(supplies: Seq<PowerSupply>) -> Seq<char>
    decreases supplies.len(),
{
    if supplies.len() == 0 {
        "--"@
    } else if starts_with(supplies[0].name@, "BAT"@) && supplies[0].capacity is Some {
        trim(supplies[0].capacity.unwrap()@)
    } else {
        battery_text_of(supplies.drop_first())
    }
}

/// The battery module's text (see `battery_text_of`).
pub fn battery_status(supplies: Option<&Vec<PowerSupply>>) -> (r: String)
    ensures
        r@ == match supplies {
            Some(v) => battery_text_of(v@),
            None => "--"@,
        },
{
    let all = match supplies {
        Some(v) => v,
        None => return String::from_str("--"),
    };
    assert(supplies == Some(all));
    let prefix = chars_of("BAT");
    let mut i: usize = 0;
    assert(all@.skip(0) =~= all@);
    while i < all.len()
        invariant
            i <= all@.len(),
            prefix@ == "BAT"@,
            supplies == Some(all),
            battery_text_of(all@) == battery_text_of(all@.skip(i as int)),
        decreases all.len() - i,
    {
        assert(all@.skip(i as int)[0] == all@[i as int]);
        let name = chars_of(all[i].name.as_str());
        if starts_with_chars(name.as_slice(), prefix.as_slice()) {
            match &all[i].capacity {
                Some(value) => {
                    proof {
                        let rest = all@.skip(i as int);
                        assert(rest.len() > 0);
                        assert(rest[0] == all@[i as int]);
                        assert(starts_with(rest[0].name@, "BAT"@));
                        assert(all@[i as int].capacity == Some(*value));
                        assert(battery_text_of(rest) == trim(value@));
                    }
                    return trim_str(value.as_str());
                },
                None => {},
            }
        }
        assert(all@.skip(i as int).drop_first() =~= all@.skip(i + 1));
        i = i + 1;
    }
    String::from_str("--")
}

// ------------------------------------------------------------
// Volume
// ------------------------------------------------------------

/// The first word of `pactl get-sink-volume` output that ends with `%` and whose rest
/// reads as a `u32`.
pub open spec fn pactl_percent(ws: Seq<Seq<char>>) -> Option<nat>
    decreases ws.len(),
{
    if ws.len() == 0 {
        None
    } else {
        let w = ws[0];
        if w.len() > 0 && w.last() == '%' && parse_unsigned(w.drop_last(), u32::MAX as nat) is Some {
            parse_unsigned(w.drop_last(), u32::MAX as nat)
        } else {
            pactl_percent(ws.drop_first())
        }
    }
}

/// The volume in percent that `pactl` printed in `text` (see `pactl_percent`).
pub fn pactl_volume(text: &str) -> (r: Option<u32>)
    ensures
        match r {
            Some(v) => pactl_percent(words(text@)) == Some(v as nat),
            None => pactl_percent(words(text@)) is None,
        },
{
    let chars = chars_of(text);
    let ws = words_of(chars.as_slice());
    let ghost all = views(ws@);
    let mut i: usize = 0;
    assert(all.skip(0) =~= all);
    while i < ws.len()
        invariant
            i <= ws@.len(),
            all == views(ws@),
            all == words(text@),
            pactl_percent(all) == pactl_percent(all.skip(i as int)),
        decreases ws.len() - i,
    {
        assert(all.skip(i as int)[0] == ws@[i as int]@);
        let w = ws[i].as_slice();
        if w.len() > 0 && w[w.len() - 1] == '%' {
            let digits = crate::text::slice_chars(w, 0, w.len() - 1);
            assert(digits@ =~= w@.drop_last());
            match parse_unsigned_chars(digits.as_slice(), 0xffff_ffff) {
                Some(v) => {
                    return Some(v as u32);
                },
                None => {},
            }
        }
        assert(all.skip(i as int).drop_first() =~= all.skip(i + 1));
        i = i + 1;
    }
    None
}


// ------------------------------------------------------------
// Properties
// ------------------------------------------------------------

/// The memory module never shows more than 100 percent.
pub proof fn law_ram_percent_at_most_100(data: Seq<char>)
    ensures
        ram_percent(data) <= 100,
{
    let (total, available) = mem_fields(lines(data));
    if total > 0 {
        let used: nat = if total >= available {
            (total - available) as nat
        } else {
            0
        };
        let scaled: nat = if used * 100 > u64::MAX {
            u64::MAX as nat
        } else {
            used * 100
        };
        assert(scaled <= total * 100) by (nonlinear_arith)
            requires
                used <= total,
                scaled <= used * 100,
        ;
        assert(scaled / total <= 100) by (nonlinear_arith)
            requires
                scaled <= total * 100,
                total > 0,
        ;
    }
}

/// Between two readings the CPU module divides a busy time by a total time that is
/// positive and at least the busy time, so the usage lies between 0 and 100 percent.
pub proof fn law_cpu_busy_within_total(previous: Option<(u64, u64)>, current: (u64, u64))
    ensures
        cpu_delta_of(previous, current) matches Some((busy, total)) ==> 0 < total && busy <= total,
{
}

/// Whether interface `i` of `all` is up and of the kind `wireless`.
pub open spec fn up_of_kind(all: Seq<NetInterface>, i: int, wireless: bool) -> bool {
    0 <= i < all.len() && is_up(all[i]) && all[i].wireless == wireless
}

proof fn lemma_last_up(all: Seq<NetInterface>, wireless: bool)
    ensures
        match last_up(all, wireless) {
            Some(n) => exists|j: int|
                #[trigger] up_of_kind(all, j, wireless) && all[j].name@ == n && forall|k: int|
                    j < k < all.len() ==> !up_of_kind(all, k, wireless),
            None => forall|j: int| !#[trigger] up_of_kind(all, j, wireless),
        },
    decreases all.len(),
{
    if all.len() > 0 {
        let d = all.drop_last();
        lemma_last_up(d, wireless);
        let last = all.len() - 1;
        if is_up(all.last()) && all.last().wireless == wireless {
            assert(all[last] == all.last());
            assert(up_of_kind(all, last, wireless));
        } else {
            assert(!up_of_kind(all, last, wireless));
            match last_up(d, wireless) {
                Some(n) => {
                    let j = choose|j: int|
                        #[trigger] up_of_kind(d, j, wireless) && d[j].name@ == n && forall|k: int|
                            j < k < d.len() ==> !up_of_kind(d, k, wireless);
                    assert(d[j] == all[j]);
                    assert(up_of_kind(all, j, wireless));
                    assert forall|k: int| j < k < all.len() implies !up_of_kind(all, k, wireless) by {
                        if k < last {
                            assert(d[k] == all[k]);
                            assert(!up_of_kind(d, k, wireless));
                        }
                    }
                },
                None => {
                    assert forall|j: int| !#[trigger] up_of_kind(all, j, wireless) by {
                        if 0 <= j < last {
                            assert(d[j] == all[j]);
                            assert(!up_of_kind(d, j, wireless));
                        }
                    }
                },
            }
        }
    }
}

/// The network module names a wireless interface that is up whenever there is one (the
/// last one listed); only when none is up does it name another interface that is up
/// (again the last); with none up, or no listing, it shows `offline`.
pub proof fn law_network_prefers_wireless(all: Seq<NetInterface>)
    ensures
        (exists|i: int| up_of_kind(all, i, true)) ==> exists|j: int|
            #[trigger] up_of_kind(all, j, true) && network_text(Some(all)) == all[j].name@
                && forall|k: int| j < k < all.len() ==> !up_of_kind(all, k, true),
        (forall|i: int| !up_of_kind(all, i, true)) && (exists|i: int| up_of_kind(all, i, false))
            ==> exists|j: int|
            #[trigger] up_of_kind(all, j, false) && network_text(Some(all)) == all[j].name@
                && forall|k: int| j < k < all.len() ==> !up_of_kind(all, k, false),
        (forall|i: int| !up_of_kind(all, i, true) && !up_of_kind(all, i, false)) ==> network_text(
            Some(all),
        ) == "offline"@,
        network_text(None) == "offline"@,
{
    lemma_last_up(all, true);
    lemma_last_up(all, false);
    if exists|i: int| up_of_kind(all, i, true) {
        let i = choose|i: int| up_of_kind(all, i, true);
        assert(up_of_kind(all, i, true));
    }
    if exists|i: int| up_of_kind(all, i, false) {
        let i = choose|i: int| up_of_kind(all, i, false);
        assert(up_of_kind(all, i, false));
    }
}

} // verus!
