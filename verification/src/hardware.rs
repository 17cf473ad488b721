//! Choosing how to accelerate the computation on this machine: which probes
//! to run for the platform, what their answers decide, and how the choice is
//! described.
use vstd::prelude::*;
use crate::text::{
    chars_of, decimal_text, parse_trimmed_unsigned, parsed_unsigned, push_decimal, same_text, trim,
};

verus! {

/// The acceleration back end chosen for this machine.
#[derive(Debug, Clone, Copy, PartialEq, Eq, Structural)]
pub enum GpuAccelerationMode {
    /// Apple Silicon: ARM64 + macOS.
    NeuralEngineCoreMl,
    /// Intel Mac: x86_64 + macOS.
    IntelMacMps,
    /// NVIDIA: CUDA, on the GPU with the most free memory.
    Cuda { gpu_index: usize, free_vram_mb: u64 },
    /// Linux + AMD: ROCm.
    Rocm,
    /// Linux + Intel integrated GPU: IPEX or OpenCL.
    IpexOpenCl,
    /// Fallback: CPU only.
    CpuOnly,
}

impl Default for GpuAccelerationMode {
    fn default() -> (m: Self)
        ensures
            m == GpuAccelerationMode::CpuOnly,
    {
        GpuAccelerationMode::CpuOnly
    }
}

/// The operating system the program runs on.
#[derive(Debug, Clone, Copy, PartialEq, Eq, Structural)]
pub enum TargetOs {
    MacOs,
    Linux,
    Windows,
    Other,
}

/// A check of the machine that the decision may need.
#[derive(Debug, Clone, Copy, PartialEq, Eq, Structural)]
pub enum Probe {
    /// Is `nvidia-smi` there, and which GPU has the most free memory?
    Nvidia,
    /// Is `rocm-smi` there?
    Rocm,
    /// Does OpenCL report an Intel device?
    IntelGpu,
}

/// The answer to a [`Probe`].
#[derive(Debug, Clone, Copy)]
pub enum ProbeResult {
    Nvidia(Option<(usize, u64)>),
    Rocm(bool),
    IntelGpu(bool),
}

/// What to do next while detecting: run a probe, or the decision is made.
#[derive(Debug, Clone, Copy, PartialEq, Eq, Structural)]
pub enum DetectStep {
    Probe(Probe),
    Done(GpuAccelerationMode),
}

/// The acceleration mode for a machine: on macOS by the architecture; on
/// Linux CUDA if an NVIDIA GPU is found, else ROCm if its tool is there, else
/// an Intel GPU, else the CPU; on Windows CUDA or the CPU; elsewhere the CPU.
pub open spec fn detected(
    os: TargetOs,
    is_aarch64: bool,
    nvidia: Option<(usize, u64)>,
    rocm: bool,
    intel: bool,
) -> GpuAccelerationMode {
    match os {
        TargetOs::MacOs => if is_aarch64 {
            GpuAccelerationMode::NeuralEngineCoreMl
        } else {
            GpuAccelerationMode::IntelMacMps
        },
        TargetOs::Linux => match nvidia {
            Some((i, v)) => GpuAccelerationMode::Cuda { gpu_index: i, free_vram_mb: v },
            None => if rocm {
                GpuAccelerationMode::Rocm
            } else if intel {
                GpuAccelerationMode::IpexOpenCl
            } else {
                GpuAccelerationMode::CpuOnly
            },
        },
        TargetOs::Windows => match nvidia {
            Some((i, v)) => GpuAccelerationMode::Cuda { gpu_index: i, free_vram_mb: v },
            None => GpuAccelerationMode::CpuOnly,
        },
        TargetOs::Other => GpuAccelerationMode::CpuOnly,
    }
}

/// The order of preference: CUDA whenever an NVIDIA GPU is found on Linux
/// or Windows; on Linux without one, ROCm before an Intel GPU before the
/// CPU; Windows has nothing but CUDA and the CPU; macOS goes by the
/// architecture alone, and any other system uses the CPU.
pub proof fn law_detection_preference(
    os: TargetOs,
    is_aarch64: bool,
    nvidia: Option<(usize, u64)>,
    rocm: bool,
    intel: bool,
)
    ensures
        (os == TargetOs::Linux || os == TargetOs::Windows) && nvidia is Some ==> detected(
            os,
            is_aarch64,
            nvidia,
            rocm,
            intel,
        ) == (GpuAccelerationMode::Cuda { gpu_index: (nvidia->0).0, free_vram_mb: (nvidia->0).1 }),
        os == TargetOs::Linux && nvidia is None ==> detected(os, is_aarch64, nvidia, rocm, intel) == if rocm {
            GpuAccelerationMode::Rocm
        } else if intel {
            GpuAccelerationMode::IpexOpenCl
        } else {
            GpuAccelerationMode::CpuOnly
        },
        os == TargetOs::Windows && nvidia is None ==> detected(os, is_aarch64, nvidia, rocm, intel)
            == GpuAccelerationMode::CpuOnly,
        os == TargetOs::MacOs ==> detected(os, is_aarch64, nvidia, rocm, intel) == if is_aarch64 {
            GpuAccelerationMode::NeuralEngineCoreMl
        } else {
            GpuAccelerationMode::IntelMacMps
        },
        os == TargetOs::Other ==> detected(os, is_aarch64, nvidia, rocm, intel) == GpuAccelerationMode::CpuOnly,
{
}

/// The first step of detection on `os`.
pub open spec fn first_step_of(os: TargetOs, is_aarch64: bool) -> DetectStep {
    match os {
        TargetOs::MacOs => DetectStep::Done(detected(os, is_aarch64, None, false, false)),
        TargetOs::Linux => DetectStep::Probe(Probe::Nvidia),
        TargetOs::Windows => DetectStep::Probe(Probe::Nvidia),
        TargetOs::Other => DetectStep::Done(GpuAccelerationMode::CpuOnly),
    }
}

/// The step after a probe on `os` answered `result`.
pub open spec fn next_step_of(os: TargetOs, result: ProbeResult) -> DetectStep {
    match result {
        ProbeResult::Nvidia(Some((i, v))) => DetectStep::Done(
            GpuAccelerationMode::Cuda { gpu_index: i, free_vram_mb: v },
        ),
        ProbeResult::Nvidia(None) => if os == TargetOs::Linux {
            DetectStep::Probe(Probe::Rocm)
        } else {
            DetectStep::Done(GpuAccelerationMode::CpuOnly)
        },
        ProbeResult::Rocm(true) => DetectStep::Done(GpuAccelerationMode::Rocm),
        ProbeResult::Rocm(false) => DetectStep::Probe(Probe::IntelGpu),
        ProbeResult::IntelGpu(true) => DetectStep::Done(GpuAccelerationMode::IpexOpenCl),
        ProbeResult::IntelGpu(false) => DetectStep::Done(GpuAccelerationMode::CpuOnly),
    }
}

/// The answer a machine with these properties gives to probe `p`.
pub open spec fn answer(p: Probe, nvidia: Option<(usize, u64)>, rocm: bool, intel: bool) -> ProbeResult {
    match p {
        Probe::Nvidia => ProbeResult::Nvidia(nvidia),
        Probe::Rocm => ProbeResult::Rocm(rocm),
        Probe::IntelGpu => ProbeResult::IntelGpu(intel),
    }
}

/// The mode a step yields once the probes it still asks for are answered;
/// `fuel` bounds the number of probes.
pub open spec fn run_from(
    step: DetectStep,
    os: TargetOs,
    nvidia: Option<(usize, u64)>,
    rocm: bool,
    intel: bool,
    fuel: nat,
) -> Option<GpuAccelerationMode>
    decreases fuel,
{
    match step {
        DetectStep::Done(m) => Some(m),
        DetectStep::Probe(p) => if fuel == 0 {
            None
        } else {
            run_from(
                next_step_of(os, answer(p, nvidia, rocm, intel)),
                os,
                nvidia,
                rocm,
                intel,
                (fuel - 1) as nat,
            )
        },
    }
}

/// The name `std::env::consts::OS` gives, as an operating system.
pub open spec fn os_of_name(name: Seq<char>) -> TargetOs {
    if name == "macos"@ {
        TargetOs::MacOs
    } else if name == "linux"@ {
        TargetOs::Linux
    } else if name == "windows"@ {
        TargetOs::Windows
    } else {
        TargetOs::Other
    }
}

/// Reads the name of the operating system (`std::env::consts::OS`).
pub fn target_os(name: &str) -> (os: TargetOs)
    ensures
        os == os_of_name(name@),
{
    if same_text(name, "macos") {
        TargetOs::MacOs
    } else if same_text(name, "linux") {
        TargetOs::Linux
    } else if same_text(name, "windows") {
        TargetOs::Windows
    } else {
        TargetOs::Other
    }
}

/// How detection starts on `os`: macOS is decided by the architecture alone,
/// Linux and Windows first look for an NVIDIA GPU, any other system uses the
/// CPU.
pub fn first_step(os: TargetOs, is_aarch64: bool) -> (s: DetectStep)
    ensures
        s == first_step_of(os, is_aarch64),
{
    match os {
        TargetOs::MacOs => if is_aarch64 {
            DetectStep::Done(GpuAccelerationMode::NeuralEngineCoreMl)
        } else {
            DetectStep::Done(GpuAccelerationMode::IntelMacMps)
        },
        TargetOs::Linux => DetectStep::Probe(Probe::Nvidia),
        TargetOs::Windows => DetectStep::Probe(Probe::Nvidia),
        TargetOs::Other => DetectStep::Done(GpuAccelerationMode::CpuOnly),
    }
}

/// What follows the answer to a probe.
pub fn next_step(os: TargetOs, result: ProbeResult) -> (s: DetectStep)
    ensures
        s == next_step_of(os, result),
{
    match result {
        ProbeResult::Nvidia(Some((i, v))) => DetectStep::Done(
            GpuAccelerationMode::Cuda { gpu_index: i, free_vram_mb: v },
        ),
        ProbeResult::Nvidia(None) => match os {
            TargetOs::Linux => DetectStep::Probe(Probe::Rocm),
            _ => DetectStep::Done(GpuAccelerationMode::CpuOnly),
        },
        ProbeResult::Rocm(found) => if found {
            DetectStep::Done(GpuAccelerationMode::Rocm)
        } else {
            DetectStep::Probe(Probe::IntelGpu)
        },
        ProbeResult::IntelGpu(found) => if found {
            DetectStep::Done(GpuAccelerationMode::IpexOpenCl)
        } else {
            DetectStep::Done(GpuAccelerationMode::CpuOnly)
        },
    }
}

/// Driving detection step by step, answering each probe from the machine,
/// ends after at most three probes in the mode [`detected`] names, and asks
/// nothing beyond the NVIDIA probe on Windows.
pub proof fn law_detection_reaches_decision(
    os: TargetOs,
    is_aarch64: bool,
    nvidia: Option<(usize, u64)>,
    rocm: bool,
    intel: bool,
)
    ensures
        run_from(first_step_of(os, is_aarch64), os, nvidia, rocm, intel, 3) == Some(
            detected(os, is_aarch64, nvidia, rocm, intel),
        ),
        os == TargetOs::Windows ==> run_from(
            first_step_of(os, is_aarch64),
            os,
            nvidia,
            rocm,
            intel,
            1,
        ) == Some(detected(os, is_aarch64, nvidia, rocm, intel)),
{
    reveal_with_fuel(run_from, 4);
}

/// The text split at each `\n` (what `str::lines` gives, except that a line
/// may keep a `\r` and a final empty line may follow; neither survives the
/// trimming done on each line below).
pub open spec fn split_lines(s: Seq<char>) -> Seq<Seq<char>>
    decreases s.len(),
{
    if s.len() == 0 {
        seq![Seq::empty()]
    } else {
        let p = split_lines(s.drop_last());
        if s.last() == '\n' {
            p.push(Seq::empty())
        } else {
            p.update(p.len() - 1, p.last().push(s.last()))
        }
    }
}

/// Scanning `lines` in order, the index and value of the first line holding
/// the largest free-memory figure (a trimmed line that reads as a `u64`
/// greater than every earlier one, and than 0); `(0, 0)` if there is none.
pub open spec fn best_gpu(lines: Seq<Seq<char>>) -> (int, int)
    decreases lines.len(),
{
    if lines.len() == 0 {
        (0, 0)
    } else {
        let b = best_gpu(lines.drop_last());
        let p = parsed_unsigned(trim(lines.last()), u64::MAX as int);
        if p is Some && p->0 > b.1 {
            (lines.len() - 1, p->0)
        } else {
            b
        }
    }
}

proof fn lemma_split_lines_nonempty(s: Seq<char>)
    ensures
        split_lines(s).len() >= 1,
        split_lines(s).len() <= s.len() + 1,
    decreases s.len(),
{
    if s.len() > 0 {
        lemma_split_lines_nonempty(s.drop_last());
    }
}

proof fn lemma_best_gpu_bounds(lines: Seq<Seq<char>>)
    ensures
        0 <= best_gpu(lines).0 <= if lines.len() == 0 {
            0
        } else {
            lines.len() - 1
        },
        0 <= best_gpu(lines).1 <= u64::MAX,
    decreases lines.len(),
{
    if lines.len() > 0 {
        lemma_best_gpu_bounds(lines.drop_last());
    }
}

/// The free-memory figure line `k` of `lines` reads as, if it reads as one.
pub open spec fn line_figure(lines: Seq<Seq<char>>, k: int) -> Option<int> {
    parsed_unsigned(trim(lines[k]), u64::MAX as int)
}

/// The GPU picked has the most free memory: its figure is at least that of
/// every line that reads as a figure; when it is positive, it is the figure
/// of the picked line, and no earlier line reads as that much; when no line
/// reads as a positive figure, GPU 0 with 0 MB is picked.
pub proof fn law_picked_gpu_has_most_memory(lines: Seq<Seq<char>>)
    ensures
        forall|k: int|
            0 <= k < lines.len() && #[trigger] line_figure(lines, k) is Some ==> line_figure(lines, k)->0
                <= best_gpu(lines).1,
        best_gpu(lines).1 > 0 ==> {
            &&& 0 <= best_gpu(lines).0 < lines.len()
            &&& line_figure(lines, best_gpu(lines).0) == Some(best_gpu(lines).1)
            &&& forall|k: int|
                0 <= k < best_gpu(lines).0 && #[trigger] line_figure(lines, k) is Some ==> line_figure(
                    lines,
                    k,
                )->0 < best_gpu(lines).1
        },
        best_gpu(lines).1 == 0 ==> best_gpu(lines).0 == 0,
        best_gpu(lines).1 >= 0,
    decreases lines.len(),
{
    if lines.len() > 0 {
        let prev = lines.drop_last();
        law_picked_gpu_has_most_memory(prev);
        assert forall|k: int| 0 <= k < prev.len() implies #[trigger] line_figure(lines, k) == line_figure(
            prev,
            k,
        ) by {
            assert(lines[k] == prev[k]);
        }
        let n = lines.len() - 1;
        assert(line_figure(lines, n) == parsed_unsigned(trim(lines.last()), u64::MAX as int));
        let b = best_gpu(prev);
        assert forall|k: int|
            0 <= k < lines.len() && #[trigger] line_figure(lines, k) is Some implies line_figure(lines, k)->0
                <= best_gpu(lines).1 by {
            if k < n {
                assert(line_figure(prev, k) is Some);
            }
        }
        if best_gpu(lines).1 > 0 && best_gpu(lines).0 < n {
            assert(best_gpu(lines) == b);
            assert(line_figure(lines, b.0) == line_figure(prev, b.0));
            assert forall|k: int|
                0 <= k < best_gpu(lines).0 && #[trigger] line_figure(lines, k) is Some implies line_figure(
                    lines,
                    k,
                )->0 < best_gpu(lines).1 by {
                assert(line_figure(prev, k) is Some);
            }
        }
        if best_gpu(lines).1 > 0 && best_gpu(lines).0 >= n {
            assert forall|k: int|
                0 <= k < best_gpu(lines).0 && #[trigger] line_figure(lines, k) is Some implies line_figure(
                    lines,
                    k,
                )->0 < best_gpu(lines).1 by {
                assert(line_figure(prev, k) is Some);
            }
        }
    }
}

/// From the output of `nvidia-smi --query-gpu=memory.free` (one figure in MB
/// per GPU and line), the index and free memory of the GPU with the most;
/// `(0, 0)` when no line reads as a positive figure.
pub fn pick_gpu(query_output: &str) -> (r: (usize, u64))
    ensures
        r.0 as int == best_gpu(split_lines(query_output@)).0,
        r.1 as int == best_gpu(split_lines(query_output@)).1,
{
    let s = chars_of(query_output);
    let n = s.len();
    let mut line_start: usize = 0;
    let mut line_index: usize = 0;
    let mut best_index: usize = 0;
    let mut best_value: u64 = 0;
    let mut i: usize = 0;
    while i < n
        invariant
            n == s@.len(),
            s@ == query_output@,
            line_start <= i <= n,
            split_lines(s@.take(i as int)).len() == line_index + 1,
            split_lines(s@.take(i as int)).last() == s@.subrange(line_start as int, i as int),
            best_index as int == best_gpu(split_lines(s@.take(i as int)).drop_last()).0,
            best_value as int == best_gpu(split_lines(s@.take(i as int)).drop_last()).1,
            line_index <= i,
        decreases n - i,
    {
        let ghost pre = split_lines(s@.take(i as int));
        assert(s@.take(i as int + 1).drop_last() =~= s@.take(i as int));
        if s[i] == '\n' {
            let v = parse_trimmed_unsigned(&s, line_start, i, u64::MAX as u128);
            proof {
                assert(pre.drop_last().push(pre.last()) =~= pre);
                lemma_best_gpu_bounds(pre.drop_last());
                let post = split_lines(s@.take(i as int + 1));
                assert(post == pre.push(Seq::empty()));
                assert(post.drop_last() =~= pre);
            }
            match v {
                Some(value) => {
                    if value > best_value as u128 {
                        best_index = line_index;
                        best_value = value as u64;
                    }
                },
                None => {},
            }
            line_index = line_index + 1;
            line_start = i + 1;
        } else {
            proof {
                let post = split_lines(s@.take(i as int + 1));
                assert(post == pre.update(pre.len() - 1, pre.last().push(s@[i as int])));
                assert(post.drop_last() =~= pre.drop_last());
                assert(post.last() =~= s@.subrange(line_start as int, i as int + 1));
            }
        }
        i = i + 1;
    }
    assert(s@.take(n as int) =~= s@);
    let v = parse_trimmed_unsigned(&s, line_start, n, u64::MAX as u128);
    proof {
        let all = split_lines(s@);
        assert(all.drop_last().push(all.last()) =~= all);
        lemma_best_gpu_bounds(all.drop_last());
    }
    match v {
        Some(value) => {
            if value > best_value as u128 {
                best_index = line_index;
                best_value = value as u64;
            }
        },
        None => {},
    }
    (best_index, best_value)
}

/// What the NVIDIA probe answers: nothing when `nvidia-smi` is missing; the
/// GPU with the most free memory when its query printed `query_output`
/// (`(0, 0)` if no figure reads); GPU 0 with 0 MB when the query failed.
pub fn nvidia_gpu(tool_found: bool, query_output: Option<&str>) -> (r: Option<(usize, u64)>)
    ensures
        !tool_found ==> r is None,
        tool_found && query_output is None ==> r == Some((0usize, 0u64)),
        tool_found && query_output is Some ==> r is Some && (r->0).0 as int == best_gpu(
            split_lines(query_output->0@),
        ).0 && (r->0).1 as int == best_gpu(split_lines(query_output->0@)).1,
{
    if !tool_found {
        return None;
    }
    match query_output {
        Some(out) => Some(pick_gpu(out)),
        None => Some((0, 0)),
    }
}

/// How a mode is shown to the user.
pub open spec fn description(m: GpuAccelerationMode) -> Seq<char> {
    match m {
        GpuAccelerationMode::NeuralEngineCoreMl => "Apple Silicon (CoreML + MPS)"@,
        GpuAccelerationMode::IntelMacMps => "Intel Mac (MPS)"@,
        GpuAccelerationMode::Cuda { gpu_index, free_vram_mb } => "NVIDIA CUDA (GPU "@
            + decimal_text(gpu_index as nat) + ", "@ + decimal_text(free_vram_mb as nat)
            + " MB Free)"@,
        GpuAccelerationMode::Rocm => "AMD ROCm"@,
        GpuAccelerationMode::IpexOpenCl => "Intel iGPU (IPEX/OpenCL)"@,
        GpuAccelerationMode::CpuOnly => "CPU (Fallback)"@,
    }
}

impl GpuAccelerationMode {
    /// The text shown for this mode (what displaying it prints).
    pub fn describe(&self) -> (s: String)
        ensures
            s@ == description(*self),
    {
        match self {
            GpuAccelerationMode::NeuralEngineCoreMl => String::from_str(
                "Apple Silicon (CoreML + MPS)",
            ),
            GpuAccelerationMode::IntelMacMps => String::from_str("Intel Mac (MPS)"),
            GpuAccelerationMode::Cuda { gpu_index, free_vram_mb } => {
                let mut s = String::from_str("NVIDIA CUDA (GPU ");
                push_decimal(&mut s, *gpu_index as u128);
                s.append(", ");
                push_decimal(&mut s, *free_vram_mb as u128);
                s.append(" MB Free)");
                s
            },
            GpuAccelerationMode::Rocm => String::from_str("AMD ROCm"),
            GpuAccelerationMode::IpexOpenCl => String::from_str("Intel iGPU (IPEX/OpenCL)"),
            GpuAccelerationMode::CpuOnly => String::from_str("CPU (Fallback)"),
        }
    }
}

/// `c` with an ASCII capital letter made small.
pub open spec fn ascii_lower(c: char) -> char {
    if 'A' <= c <= 'Z' {
        ((c as int) + 32) as char
    } else {
        c
    }
}

/// Whether `text`, its ASCII letters made small, holds `word` somewhere.
/// (For `intel` this is what lowering every character and searching gives:
/// the one other character that lowers to an `i` lowers to two characters,
/// and none lowers to `n`, `t`, `e` or `l`.)
pub open spec fn mentions(text: Seq<char>, word: Seq<char>) -> bool {
    exists|i: int| 0 <= i && i + word.len() <= text.len() && #[trigger] window(text, i, word.len() as int) == word
}

/// The `n` characters of `text` from position `i`, ASCII capitals made small.
pub open spec fn window(text: Seq<char>, i: int, n: int) -> Seq<char> {
    text.subrange(i, i + n).map_values(|c: char| ascii_lower(c))
}

fn lower_char(c: char) -> (r: char)
    ensures
        r == ascii_lower(c),
{
    if 'A' <= c && c <= 'Z' {
        let code: u32 = c as u32 + 32;
        assert(code == (c as int) + 32);
        proof {
            assert(('a' as int) <= code <= ('z' as int));
        }
        let r: char = (c as u8 + 32) as char;
        r
    } else {
        c
    }
}

/// Whether the text at position `i` of `text`, its ASCII letters made
/// small, is `word`.
fn matches_at(text: &Vec<char>, word: &Vec<char>, i: usize) -> (b: bool)
    requires
        i + word@.len() <= text@.len(),
    ensures
        b == (window(text@, i as int, word@.len() as int) == word@),
{
    let ghost part = window(text@, i as int, word@.len() as int);
    let n = text.len();
    let mut j: usize = 0;
    while j < word.len()
        invariant
            n == text@.len(),
            i + word@.len() <= text@.len(),
            j <= word@.len(),
            part == window(text@, i as int, word@.len() as int),
            forall|k: int| 0 <= k < j ==> part[k] == word@[k],
        decreases word@.len() - j,
    {
        assert(i + j < text@.len());
        let at: usize = i + j;
        if lower_char(text[at]) != word[j] {
            assert(part[j as int] != word@[j as int]);
            return false;
        }
        j = j + 1;
    }
    assert(part =~= word@);
    true
}

/// Whether `text` holds `word` when ASCII capitals are read as small letters.
pub fn mentions_word(text: &str, word: &str) -> (b: bool)
    ensures
        b == mentions(text@, word@),
{
    let t = chars_of(text);
    let w = chars_of(word);
    if w.len() > t.len() {
        return false;
    }
    if w.len() == 0 {
        assert(window(t@, 0, 0) =~= w@);
        return true;
    }
    let end = t.len() - w.len() + 1;
    let mut i: usize = 0;
    while i < end
        invariant
            t@ == text@,
            w@ == word@,
            end + w@.len() == t@.len() + 1,
            forall|k: int| 0 <= k < i ==> #[trigger] window(t@, k, w@.len() as int) != w@,
        decreases end - i,
    {
        if matches_at(&t, &w, i) {
            return true;
        }
        i = i + 1;
    }
    false
}

/// Whether the OpenCL report `clinfo_output` names an Intel device.
pub fn mentions_intel(clinfo_output: &str) -> (b: bool)
    ensures
        b == mentions(clinfo_output@, "intel"@),
{
    mentions_word(clinfo_output, "intel")
}

/// What the Intel probe answers: whether `clinfo` is there, ran, and
/// printed a report naming an Intel device.
pub fn intel_gpu(tool_found: bool, clinfo_output: Option<&str>) -> (b: bool)
    ensures
        b == (tool_found && (clinfo_output matches Some(out) && mentions(out@, "intel"@))),
{
    if !tool_found {
        return false;
    }
    match clinfo_output {
        Some(out) => mentions_intel(out),
        None => false,
    }
}

/// The file name of tool `cmd` on `os`: with `.exe` on Windows.
pub fn tool_name(cmd: &str, os: TargetOs) -> (s: String)
    ensures
        s@ == if os == TargetOs::Windows {
            cmd@ + ".exe"@
        } else {
            cmd@
        },
{
    let mut s = String::from_str(cmd);
    if os == TargetOs::Windows {
        s.append(".exe");
    }
    s
}

} // verus!
