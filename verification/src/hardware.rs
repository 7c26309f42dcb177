//! What the graphics card suggests about the size of a model.

use crate::command::{command, command_view, CommandLine, Output};
use crate::numbers::{decimal, decimal_text, number, parse_u64};
use crate::text::{
    concat3, contains_text, from_utf8_lossy, has_text, lines, lowercase, owned, split_lines,
    to_lowercase, trim, trimmed, utf8_lossy, views,
};
use vstd::prelude::*;

verus! {

/// A coarse class of graphics hardware.
#[derive(Clone, Copy, PartialEq, Eq, Structural, Debug)]
pub enum GpuTier {
    Nvidia { vram_mb: u64 },
    OtherDedicated,
    NoneDedicated,
}

/// The command that lists the memory of each NVIDIA card.
pub fn nvidia_command() -> (c: CommandLine)
    ensures
        c@ == command_view(
            "nvidia-smi"@,
            seq!["--query-gpu=memory.total"@, "--format=csv,noheader,nounits"@],
        ),
{
    let c = command("nvidia-smi").arg("--query-gpu=memory.total").arg("--format=csv,noheader,nounits");
    assert(c@.args =~= seq!["--query-gpu=memory.total"@, "--format=csv,noheader,nounits"@]);
    c
}

/// The command that lists the devices of the machine.
pub fn devices_command() -> (c: CommandLine)
    ensures
        c@ == command_view("lspci"@, Seq::empty()),
{
    let c = command("lspci");
    assert(c@.args =~= Seq::<Seq<char>>::empty());
    c
}

/// The memory of the first card that `nvidia-smi` lists, in megabytes: the number
/// on the first line.
pub open spec fn first_vram(output: Option<Output>) -> Option<nat> {
    match output {
        Some(o) => {
            let all = lines(utf8_lossy(o.stdout@));
            if o.success && all.len() > 0 {
                number(trimmed(all[0]), u64::MAX as nat)
            } else {
                None
            }
        },
        None => None,
    }
}

/// The memory of the first card, given the output of `nvidia-smi`.
pub fn nvidia_vram_mb(output: &Option<Output>) -> (r: Option<u64>)
    ensures
        (match r {
            Some(n) => first_vram(*output) == Some(n as nat),
            None => first_vram(*output) is None,
        }),
{
    match output {
        Some(o) => {
            if !o.success {
                return None;
            }
            let text = from_utf8_lossy(o.stdout.as_slice());
            let all = split_lines(text.as_str());
            assert(views(all@) == lines(utf8_lossy(o.stdout@)));
            assert(views(all@).len() == all@.len());
            if all.len() == 0 {
                return None;
            }
            assert(views(all@)[0] == all@[0]@);
            let first = trim(all[0].as_str());
            parse_u64(first.as_str())
        },
        None => None,
    }
}

/// Whether a line of `lspci` names a display controller.
pub open spec fn is_display(line: Seq<char>) -> bool {
    contains_text(line, "VGA compatible controller"@) || contains_text(line, "3D controller"@)
}

/// Whether a line, in lower case, names a card that is part of the chipset.
pub open spec fn is_integrated(line: Seq<char>) -> bool {
    ||| contains_text(line, "uhd graphics"@)
    ||| contains_text(line, "hd graphics"@)
    ||| contains_text(line, "iris"@)
    ||| contains_text(line, "radeon"@) && contains_text(line, "graphics"@) && !contains_text(
        line,
        "rx"@,
    )
}

/// Whether some line names a display controller that is not part of the chipset.
pub open spec fn names_dedicated(all: Seq<Seq<char>>) -> bool {
    exists|i: int|
        0 <= i < all.len() && is_display(#[trigger] all[i]) && !is_integrated(lowercase(all[i]))
}

/// Whether `line`, in lower case, names a card that is part of the chipset.
fn integrated(line: &str) -> (r: bool)
    ensures
        r == is_integrated(line@),
{
    has_text(line, "uhd graphics") || has_text(line, "hd graphics") || has_text(line, "iris") || (
    has_text(line, "radeon") && has_text(line, "graphics") && !has_text(line, "rx"))
}

/// Whether one of the lines names a dedicated card.
pub fn dedicated_in(all: &Vec<String>) -> (r: bool)
    ensures
        r == names_dedicated(views(all@)),
{
    let mut i: usize = 0;
    while i < all.len()
        invariant
            i <= all@.len(),
            forall|j: int|
                0 <= j < i ==> !(is_display(#[trigger] views(all@)[j]) && !is_integrated(
                    lowercase(views(all@)[j]),
                )),
        decreases all@.len() - i,
    {
        let line = all[i].as_str();
        assert(views(all@)[i as int] == line@);
        if has_text(line, "VGA compatible controller") || has_text(line, "3D controller") {
            let low = to_lowercase(line);
            if !integrated(low.as_str()) {
                return true;
            }
        }
        i += 1;
    }
    false
}

/// Whether there is a dedicated card of another maker, given the output of `lspci`.
pub fn other_dedicated_gpu_present(output: &Option<Output>) -> (r: bool)
    ensures
        r == (output matches Some(o) && o.success && names_dedicated(lines(utf8_lossy(o.stdout@)))),
{
    match output {
        Some(o) => {
            if !o.success {
                return false;
            }
            let text = from_utf8_lossy(o.stdout.as_slice());
            let all = split_lines(text.as_str());
            dedicated_in(&all)
        },
        None => false,
    }
}

/// The class of the hardware: the NVIDIA card where there is one, else whether
/// there is another dedicated card.
pub fn detect_gpu_tier(nvidia: Option<u64>, other: bool) -> (t: GpuTier)
    ensures
        t == (match nvidia {
            Some(vram_mb) => GpuTier::Nvidia { vram_mb },
            None => if other {
                GpuTier::OtherDedicated
            } else {
                GpuTier::NoneDedicated
            },
        }),
{
    match nvidia {
        Some(vram_mb) => GpuTier::Nvidia { vram_mb },
        None => if other {
            GpuTier::OtherDedicated
        } else {
            GpuTier::NoneDedicated
        },
    }
}

// ---------------------------------------------------------------------------
// The hint
// ---------------------------------------------------------------------------

/// `n / unit` rounded to the nearest integer, to the even one where two are as
/// near.
pub open spec fn nearest(n: nat, unit: nat) -> nat {
    let q = n / unit;
    let r = n % unit;
    if 2 * r < unit {
        q
    } else if 2 * r > unit {
        q + 1
    } else {
        q + q % 2
    }
}

/// The distance between neighbouring numbers of 53 binary digits around `n`, found
/// by doubling `unit`.
pub open spec fn spacing(n: nat, unit: nat) -> nat
    decreases n - unit,
{
    if unit == 0 || n < unit * 0x20_0000_0000_0000 {
        unit
    } else {
        spacing(n, 2 * unit)
    }
}

/// `n` rounded to 53 binary digits.
pub open spec fn in_53_digits(n: nat) -> nat {
    nearest(n, spacing(n, 1)) * spacing(n, 1)
}

/// Megabytes, taken with 53 binary digits, in whole gigabytes.
pub open spec fn whole_gigabytes(mb: nat) -> nat {
    nearest(in_53_digits(mb), 1024)
}

fn round_nearest(n: u128, unit: u128) -> (r: u128)
    requires
        0 < unit <= 0x1_0000,
        n <= 0x10_0000_0000_0000_0000,
    ensures
        r == nearest(n as nat, unit as nat),
        r <= n + 1,
{
    let q: u128 = n / unit;
    let r: u128 = n % unit;
    assert(q <= n) by (nonlinear_arith)
        requires
            q == n / unit,
            unit > 0,
    ;
    if 2 * r < unit {
        q
    } else if 2 * r > unit {
        q + 1
    } else {
        q + q % 2
    }
}

/// Megabytes in whole gigabytes.
fn gigabytes(mb: u64) -> (gb: u64)
    ensures
        gb == whole_gigabytes(mb as nat),
{
    let n: u128 = mb as u128;
    let mut unit: u128 = 1;
    while n >= unit * 0x20_0000_0000_0000
        invariant
            n == mb,
            1 <= unit <= 4094,
            spacing(mb as nat, 1) == spacing(mb as nat, unit as nat),
        decreases 5000 - unit,
    {
        assert(unit < 2048);
        unit = 2 * unit;
    }
    assert(spacing(mb as nat, unit as nat) == unit as nat);
    let q: u128 = round_nearest(n, unit);
    assert(n / unit < 0x20_0000_0000_0000) by (nonlinear_arith)
        requires
            n < unit * 0x20_0000_0000_0000,
            unit > 0,
    ;
    assert(q <= 0x20_0000_0000_0000);
    assert(q * unit <= 0x20_0000_0000_0000 * 4094) by (nonlinear_arith)
        requires
            q <= 0x20_0000_0000_0000,
            unit <= 4094,
    ;
    let d: u128 = q * unit;
    let gb: u128 = round_nearest(d, 1024);
    assert(gb <= d / 1024 + 1);
    gb as u64
}

/// The gigabytes that a hint names are the nearest to the true size, where that has
/// no more than 53 binary digits.
pub proof fn the_nearest_gigabyte_is_named(mb: nat)
    requires
        mb < 0x20_0000_0000_0000,
    ensures
        whole_gigabytes(mb) == nearest(mb, 1024),
        2 * (1024 * whole_gigabytes(mb) - mb) <= 1024,
        2 * (mb - 1024 * whole_gigabytes(mb)) <= 1024,
{
    assert(spacing(mb, 1) == 1);
    assert(in_53_digits(mb) == mb);
}

/// The size of model that suits a card with `vram_mb` megabytes.
pub open spec fn size_range(vram_mb: nat) -> Seq<char> {
    if vram_mb < 4 * 1024 {
        "1-2B (ex: qwen2.5:1.5b)"@
    } else if vram_mb < 8 * 1024 {
        "3B (ex: llama3.2:3b)"@
    } else if vram_mb < 12 * 1024 {
        "7-8B (ex: llama3.1:8b)"@
    } else if vram_mb < 20 * 1024 {
        "13-14B (ex: qwen2.5:14b)"@
    } else if vram_mb < 40 * 1024 {
        "27-32B (ex: qwen2.5:32b)"@
    } else {
        "70B (ex: llama3.1:70b)"@
    }
}

/// The hint for a class of hardware.
pub open spec fn hint(tier: GpuTier) -> Seq<char> {
    match tier {
        GpuTier::Nvidia { vram_mb } => "NVIDIA GPU detected (~"@ + decimal(
            whole_gigabytes(vram_mb as nat),
        ) + "GB VRAM) — models up to ~"@ + size_range(vram_mb as nat) + " should run well."@,
        GpuTier::OtherDedicated => "Dedicated GPU detected (non-NVIDIA) — exact VRAM unknown; ~7B models are usually a good starting point."@,
        GpuTier::NoneDedicated => "No dedicated GPU detected — small models (≤3B, e.g. qwen2.5:1.5b) run better on CPU."@,
    }
}

/// Puts the class of the hardware into words.
pub fn size_hint(tier: &GpuTier) -> (r: String)
    ensures
        r@ == hint(*tier),
{
    match *tier {
        GpuTier::Nvidia { vram_mb } => {
            let range: &str = if vram_mb < 4096 {
                "1-2B (ex: qwen2.5:1.5b)"
            } else if vram_mb < 8192 {
                "3B (ex: llama3.2:3b)"
            } else if vram_mb < 12288 {
                "7-8B (ex: llama3.1:8b)"
            } else if vram_mb < 20480 {
                "13-14B (ex: qwen2.5:14b)"
            } else if vram_mb < 40960 {
                "27-32B (ex: qwen2.5:32b)"
            } else {
                "70B (ex: llama3.1:70b)"
            };
            let gb = decimal_text(gigabytes(vram_mb));
            let head = concat3("NVIDIA GPU detected (~", gb.as_str(), "GB VRAM) — models up to ~");
            concat3(head.as_str(), range, " should run well.")
        },
        GpuTier::OtherDedicated => owned(
            "Dedicated GPU detected (non-NVIDIA) — exact VRAM unknown; ~7B models are usually a good starting point.",
        ),
        GpuTier::NoneDedicated => owned(
            "No dedicated GPU detected — small models (≤3B, e.g. qwen2.5:1.5b) run better on CPU.",
        ),
    }
}

// ---------------------------------------------------------------------------
// Laws
// ---------------------------------------------------------------------------

/// The memory of the first card is the number on the first line, whatever white space
/// surrounds it.
pub proof fn the_first_card_counts(o: Output, a: Seq<char>, mb: nat, b: Seq<char>, rest: Seq<char>)
    requires
        o.success,
        mb <= u64::MAX,
        crate::text::all_space(a),
        crate::text::all_space(b),
        !a.contains('\n'),
        !b.contains('\n'),
        !b.contains('\r'),
        utf8_lossy(o.stdout@) == a + decimal(mb) + b + seq!['\n'] + rest,
    ensures
        first_vram(Some(o)) == Some(mb),
{
    let line = a + decimal(mb) + b;
    crate::numbers::written_number_reads_back(mb, u64::MAX as nat);
    decimal_is_solid(mb);
    assert(!line.contains('\n')) by {
        assert forall|i: int| 0 <= i < line.len() implies line[i] != '\n' by {
            if i < a.len() {
                assert(a.contains(a[i]));
            } else if i < a.len() + decimal(mb).len() {
                assert(line[i] == decimal(mb)[i - a.len()]);
            } else {
                assert(b.contains(b[i - a.len() - decimal(mb).len()]));
            }
        }
    }
    assert(line.last() != '\r') by {
        if b.len() > 0 {
            assert(b.contains(b.last()));
        } else {
            assert(line.last() == decimal(mb).last());
        }
    }
    crate::text::a_line_ends_at_the_line_feed(line, rest);
    crate::text::trimming_takes_off_the_ends(a, decimal(mb), b);
}

proof fn decimal_is_solid(n: nat)
    ensures
        decimal(n).len() > 0,
        forall|i: int| 0 <= i < decimal(n).len() ==> crate::numbers::is_digit(#[trigger] decimal(n)[i]),
    decreases n,
{
    if n >= 10 {
        decimal_is_solid(n / 10);
    }
}

/// A tool that failed, or is not there, lists no card.
pub proof fn no_answer_no_card(o: Output)
    requires
        !o.success,
    ensures
        first_vram(Some(o)) is None,
        first_vram(None) is None,
{
}

/// Whether `p` stands in `line`, with anything before it and behind it.
pub open spec fn mentions(line: Seq<char>, p: Seq<char>) -> bool {
    exists|a: Seq<char>, b: Seq<char>| line == #[trigger] (a + p + b)
}

/// A line names a dedicated card where it mentions a display controller, and in lower case
/// none of the words for one of the chipset, wherever they stand.
pub proof fn a_dedicated_card_is_named(all: Seq<Seq<char>>)
    ensures
        names_dedicated(all) <==> exists|i: int|
            0 <= i < all.len() && {
                let line = #[trigger] all[i];
                let low = lowercase(line);
                &&& mentions(line, "VGA compatible controller"@) || mentions(line, "3D controller"@)
                &&& !mentions(low, "uhd graphics"@)
                &&& !mentions(low, "hd graphics"@)
                &&& !mentions(low, "iris"@)
                &&& mentions(low, "radeon"@) && mentions(low, "graphics"@) ==> mentions(low, "rx"@)
            },
{
    assert forall|i: int| 0 <= i < all.len() implies (is_display(#[trigger] all[i]) == (mentions(
        all[i],
        "VGA compatible controller"@,
    ) || mentions(all[i], "3D controller"@))) && (is_integrated(lowercase(all[i])) == !({
        let low = lowercase(all[i]);
        &&& !mentions(low, "uhd graphics"@)
        &&& !mentions(low, "hd graphics"@)
        &&& !mentions(low, "iris"@)
        &&& mentions(low, "radeon"@) && mentions(low, "graphics"@) ==> mentions(low, "rx"@)
    })) by {
        let line = all[i];
        let low = lowercase(line);
        crate::text::a_part_is_found_anywhere(line, "VGA compatible controller"@);
        crate::text::a_part_is_found_anywhere(line, "3D controller"@);
        crate::text::a_part_is_found_anywhere(low, "uhd graphics"@);
        crate::text::a_part_is_found_anywhere(low, "hd graphics"@);
        crate::text::a_part_is_found_anywhere(low, "iris"@);
        crate::text::a_part_is_found_anywhere(low, "radeon"@);
        crate::text::a_part_is_found_anywhere(low, "graphics"@);
        crate::text::a_part_is_found_anywhere(low, "rx"@);
    }
}

/// A rounded number is at most half a unit away from the true one, and the even one of two
/// that are as near.
pub proof fn rounding_goes_to_the_nearest(n: nat, unit: nat)
    requires
        unit > 0,
    ensures
        2 * (n - nearest(n, unit) * unit) <= unit,
        2 * (nearest(n, unit) * unit - n) <= unit,
        2 * (n - nearest(n, unit) * unit) == unit || 2 * (nearest(n, unit) * unit - n) == unit ==> nearest(
            n,
            unit,
        ) % 2 == 0,
{
    let q = n / unit;
    let r = n % unit;
    assert(n == q * unit + r && 0 <= r < unit) by (nonlinear_arith)
        requires
            q == n / unit,
            r == n % unit,
            unit > 0,
    ;
    assert((q + 1) * unit == q * unit + unit) by (nonlinear_arith);
}

/// Numbers of 53 binary digits lie as close as they can: no closer than one, and so that
/// the number itself has 53 digits in units of their distance.
pub proof fn digits_are_not_wasted(n: nat, unit: nat)
    requires
        unit > 0,
        unit == 1 || n >= unit * 0x10_0000_0000_0000,
    ensures
        n < spacing(n, unit) * 0x20_0000_0000_0000,
        spacing(n, unit) == 1 || n >= spacing(n, unit) * 0x10_0000_0000_0000,
    decreases n - unit,
{
    if n >= unit * 0x20_0000_0000_0000 {
        digits_are_not_wasted(n, 2 * unit);
    }
}

/// A hint names the size in whole gigabytes and the largest models that suit the memory:
/// more memory never suits only smaller ones.
pub proof fn a_hint_says_what_suits(vram_mb: u64)
    ensures
        ({
            let range = if vram_mb >= 40 * 1024 {
                "70B (ex: llama3.1:70b)"@
            } else if vram_mb >= 20 * 1024 {
                "27-32B (ex: qwen2.5:32b)"@
            } else if vram_mb >= 12 * 1024 {
                "13-14B (ex: qwen2.5:14b)"@
            } else if vram_mb >= 8 * 1024 {
                "7-8B (ex: llama3.1:8b)"@
            } else if vram_mb >= 4 * 1024 {
                "3B (ex: llama3.2:3b)"@
            } else {
                "1-2B (ex: qwen2.5:1.5b)"@
            };
            let size = nearest(in_53_digits(vram_mb as nat), 1024);
            hint(GpuTier::Nvidia { vram_mb }) == "NVIDIA GPU detected (~"@ + decimal(size)
                + "GB VRAM) — models up to ~"@ + range + " should run well."@
        }),
        in_53_digits(vram_mb as nat) == nearest(vram_mb as nat, spacing(vram_mb as nat, 1)) * spacing(
            vram_mb as nat,
            1,
        ),
{
}

} // verus!
