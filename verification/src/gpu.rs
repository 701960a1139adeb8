//! The GPU readout for Settings and the starting-model recommendation.
//! The app enumerates the DXGI adapters; this module skips software (WARP)
//! adapters, prefers a discrete one, then more video memory, then the
//! earlier index, and words the result.

use vstd::prelude::*;
use crate::text::{
    ascii_lower_seq, chars_contain, contains, decimal, push_decimal, push_str, starts_with,
    string_from, string_of, to_ascii_lower,
};

verus! {

#[derive(Clone, Debug)]
pub struct GpuStatus {
    pub available: bool,
    pub name: String,
    pub backend: String,
    pub detail: String,
    /// DXGI adapter index preferred for Whisper Vulkan (-1 when none).
    pub device_index: i32,
    pub discrete: bool,
    pub vram_mb: u64,
}

/// One DXGI adapter as enumerated: its description (UTF-16, NUL-padded),
/// whether DXGI flags it as software, and its dedicated video memory.
pub struct AdapterDesc {
    pub description: Vec<u16>,
    pub software_flag: bool,
    pub dedicated_video_memory: u64,
}

/// What `String::from_utf16_lossy` gives: surrogate pairs joined,
/// unpaired surrogates replaced by U+FFFD.
pub open spec fn utf16_lossy(units: Seq<u16>) -> Seq<char>
    decreases units.len(),
{
    if units.len() == 0 {
        seq![]
    } else if 0xD800 <= units[0] <= 0xDBFF && units.len() > 1 && 0xDC00 <= units[1] <= 0xDFFF {
        seq![(0x10000 + (units[0] - 0xD800) * 0x400 + (units[1] - 0xDC00)) as char] + utf16_lossy(
            units.skip(2),
        )
    } else if 0xD800 <= units[0] <= 0xDFFF {
        seq!['\u{FFFD}'] + utf16_lossy(units.skip(1))
    } else {
        seq![units[0] as char] + utf16_lossy(units.skip(1))
    }
}

/// `String::from_utf16_lossy`.
#[verifier::external_body]
fn from_utf16_lossy(units: &[u16]) -> (out: String)
    ensures
        out@ == utf16_lossy(units@),
{
    String::from_utf16_lossy(units)
}

/// The units of `buf` before its first NUL.
pub open spec fn before_nul(buf: Seq<u16>) -> Seq<u16> {
    if exists|k: int| 0 <= k < buf.len() && buf[k] == 0 {
        buf.take(choose|k: int| 0 <= k < buf.len() && buf[k] == 0 && forall|j: int| 0 <= j < k ==> buf[j] != 0)
    } else {
        buf
    }
}

/// An adapter description as text: up to its first NUL.
pub fn wchar_to_string(buf: &[u16]) -> (out: String)
    ensures
        out@ == utf16_lossy(before_nul(buf@)),
{
    let mut len: usize = 0;
    while len < buf.len() && buf[len] != 0
        invariant
            len <= buf@.len(),
            forall|j: int| 0 <= j < len ==> buf@[j] != 0,
        decreases buf@.len() - len,
    {
        len += 1;
    }
    proof {
        if len < buf@.len() {
            assert(buf@[len as int] == 0);
            let k = choose|k: int|
                0 <= k < buf@.len() && buf@[k] == 0 && forall|j: int| 0 <= j < k ==> buf@[j] != 0;
            if k < len {
                assert(buf@[k] != 0);
            } else if k > len {
                assert(buf@[len as int] != 0);
            }
            assert(before_nul(buf@) == buf@.take(len as int));
        } else {
            assert(buf@.take(len as int) =~= buf@);
        }
    }
    let mut head: Vec<u16> = Vec::new();
    let mut i: usize = 0;
    while i < len
        invariant
            i <= len <= buf@.len(),
            head@ == buf@.take(i as int),
        decreases len - i,
    {
        head.push(buf[i]);
        i += 1;
        assert(head@ =~= buf@.take(i as int));
    }
    assert(head@ =~= before_nul(buf@));
    from_utf16_lossy(head.as_slice())
}

/// Software renderers: flagged by DXGI, or named like Microsoft Basic
/// Render Driver or WARP.
pub open spec fn is_software(name: Seq<char>, flag: bool) -> bool {
    let l = ascii_lower_seq(name);
    flag || contains(l, "microsoft basic render"@) || contains(l, "warp"@)
}

/// A discrete adapter by name, or by 2 GB of video memory unless it is an
/// Intel UHD/HD part.
pub open spec fn is_discrete(name: Seq<char>, vram_mb: u64) -> bool {
    let l = ascii_lower_seq(name);
    contains(l, "nvidia"@) || contains(l, "geforce"@) || contains(l, "rtx"@) || contains(
        l,
        "radeon"@,
    ) || contains(l, "amd "@) || contains(l, "arc "@) || (vram_mb >= 2048 && !contains(
        l,
        "intel(r) uhd"@,
    ) && !contains(l, "intel(r) hd"@))
}

/// The ranking: discrete first, then video memory.
pub open spec fn score(discrete: bool, vram_mb: u64) -> int {
    (if discrete { 1_000_000int } else { 0int }) + vram_mb
}

/// One usable adapter: index, name, video memory in MB, discrete.
pub open spec fn candidates(adapters: Seq<(Seq<char>, bool, u64)>) -> Seq<(int, Seq<char>, u64, bool)>
    decreases adapters.len(),
{
    if adapters.len() == 0 {
        seq![]
    } else {
        let before = candidates(adapters.drop_last());
        let (name, flag, bytes) = adapters.last();
        let mb = (bytes / 1048576u64) as u64;
        if is_software(name, flag) {
            before
        } else {
            before.push((adapters.len() - 1, name, mb, is_discrete(name, mb)))
        }
    }
}

/// The first candidate with the highest score.
pub open spec fn best(c: Seq<(int, Seq<char>, u64, bool)>) -> Option<(int, Seq<char>, u64, bool)>
    decreases c.len(),
{
    if c.len() == 0 {
        None
    } else {
        match best(c.drop_last()) {
            None => Some(c.last()),
            Some(b) => if score(c.last().3, c.last().2) > score(b.3, b.2) {
                Some(c.last())
            } else {
                Some(b)
            },
        }
    }
}

/// The adapters as the contracts read them.
pub open spec fn adapter_views(adapters: Seq<AdapterDesc>) -> Seq<(Seq<char>, bool, u64)> {
    adapters.map_values(
        |a: AdapterDesc| (utf16_lossy(before_nul(a.description@)), a.software_flag, a.dedicated_video_memory),
    )
}

pub const BACKEND_VULKAN: &'static str = "Vulkan (whisper.cpp) · DirectML (ONNX)";

/// What `detect_gpu` reports.
pub open spec fn gpu_spec(on_windows: bool, adapters: Result<Seq<(Seq<char>, bool, u64)>, Seq<char>>, vulkan_build: bool) -> (bool, Seq<char>, Seq<char>, Seq<char>, i32, bool, u64) {
    if !on_windows {
        (false, "Not available"@, "CPU"@, "GPU detection runs in Windows builds."@, -1i32, false, 0u64)
    } else {
        match adapters {
            Err(e) => (false, "Unknown"@, "CPU"@, "DXGI unavailable ("@ + e + "); Whisper falls back to CPU."@, -1i32, false, 0u64),
            Ok(list) => match best(candidates(list)) {
                None => (
                    false,
                    "No discrete/integrated GPU found"@,
                    "CPU"@,
                    "Whisper and ONNX will use CPU. Software/WARP adapters were skipped."@,
                    -1i32,
                    false,
                    0u64,
                ),
                Some((index, name, mb, discrete)) => (
                    true,
                    name,
                    if vulkan_build { BACKEND_VULKAN@ } else { "CPU"@ },
                    "Using "@ + (if discrete { "discrete"@ } else { "integrated"@ }) + " adapter “"@
                        + name + "” (~"@ + decimal(mb as nat) + " MB VRAM)"@ + (if vulkan_build {
                        " for Whisper Vulkan"@
                    } else {
                        seq![]
                    }) + ". Software/WARP adapters are skipped."@,
                    index as i32,
                    discrete,
                    mb,
                ),
            },
        }
    }
}

pub open spec fn status_view(s: GpuStatus) -> (bool, Seq<char>, Seq<char>, Seq<char>, i32, bool, u64) {
    (s.available, s.name@, s.backend@, s.detail@, s.device_index, s.discrete, s.vram_mb)
}

fn adapter_is_discrete(lower: &Vec<char>, vram_mb: u64) -> (r: bool)
    ensures
        r == (contains(lower@, "nvidia"@) || contains(lower@, "geforce"@) || contains(lower@, "rtx"@)
            || contains(lower@, "radeon"@) || contains(lower@, "amd "@) || contains(lower@, "arc "@)
            || (vram_mb >= 2048 && !contains(lower@, "intel(r) uhd"@) && !contains(
            lower@,
            "intel(r) hd"@,
        ))),
{
    chars_contain(lower, "nvidia") || chars_contain(lower, "geforce") || chars_contain(lower, "rtx")
        || chars_contain(lower, "radeon") || chars_contain(lower, "amd ") || chars_contain(
        lower,
        "arc ",
    ) || (vram_mb >= 2048 && !chars_contain(lower, "intel(r) uhd") && !chars_contain(
        lower,
        "intel(r) hd",
    ))
}

/// The GPU Whisper would use, from the app's DXGI enumeration (`Err` when
/// no DXGI factory could be created). Adapters past index `i32::MAX` are
/// not considered.
pub fn detect_gpu(on_windows: bool, adapters: &Result<Vec<AdapterDesc>, String>, vulkan_build: bool) -> (s: GpuStatus)
    requires
        adapters matches Ok(list) ==> list@.len() <= i32::MAX,
    ensures
        status_view(s) == gpu_spec(
            on_windows,
            match adapters {
                Ok(list) => Ok(adapter_views(list@)),
                Err(e) => Err(e@),
            },
            vulkan_build,
        ),
{
    if !on_windows {
        return GpuStatus {
            available: false,
            name: string_from("Not available"),
            backend: string_from("CPU"),
            detail: string_from("GPU detection runs in Windows builds."),
            device_index: -1,
            discrete: false,
            vram_mb: 0,
        };
    }
    let list = match adapters {
        Err(e) => {
            let mut d: Vec<char> = Vec::new();
            push_str(&mut d, "DXGI unavailable (");
            push_str(&mut d, e.as_str());
            push_str(&mut d, "); Whisper falls back to CPU.");
            return GpuStatus {
                available: false,
                name: string_from("Unknown"),
                backend: string_from("CPU"),
                detail: string_of(&d),
                device_index: -1,
                discrete: false,
                vram_mb: 0,
            };
        },
        Ok(list) => list,
    };
    let ghost views = adapter_views(list@);
    // The best candidate so far: (index, name, vram_mb, discrete).
    let mut chosen: Option<(usize, String, u64, bool)> = None;
    let mut i: usize = 0;
    while i < list.len()
        invariant
            i <= list@.len() <= i32::MAX,
            views == adapter_views(list@),
            views.len() == list@.len(),
            match chosen {
                None => best(candidates(views.take(i as int))) is None,
                Some((idx, name, mb, d)) => best(candidates(views.take(i as int))) == Some(
                    (idx as int, name@, mb, d),
                ) && idx < i && mb <= 0xFFFFFFFFFFFu64,
            },
        decreases list@.len() - i,
    {
        assert(views.take(i + 1).drop_last() =~= views.take(i as int));
        let name = wchar_to_string(list[i].description.as_slice());
        assert(views.take(i + 1).last() == (name@, list@[i as int].software_flag, list@[i as int].dedicated_video_memory));
        let nv = crate::text::chars_of(name.as_str());
        let lower = to_ascii_lower(&nv);
        let software = list[i].software_flag || chars_contain(&lower, "microsoft basic render")
            || chars_contain(&lower, "warp");
        if !software {
            let mb = list[i].dedicated_video_memory / 1048576;
            let discrete = adapter_is_discrete(&lower, mb);
            let better = match &chosen {
                None => true,
                Some((_, _, bmb, bd)) => {
                    let s_new: u64 = (if discrete { 1_000_000u64 } else { 0u64 }) + mb;
                    let s_old: u64 = (if *bd { 1_000_000u64 } else { 0u64 }) + *bmb;
                    s_new > s_old
                },
            };
            proof {
                let c = candidates(views.take(i + 1));
                assert(c == candidates(views.take(i as int)).push((i as int, name@, mb, discrete)));
                assert(c.drop_last() =~= candidates(views.take(i as int)));
                assert(c.last() == (i as int, name@, mb, discrete));
            }
            if better {
                chosen = Some((i, name, mb, discrete));
            }
        }
        proof {
            if chosen is None {
                assert(software);
                assert(best(candidates(views.take(i as int))) is None);
                assert(candidates(views.take(i + 1)) == candidates(views.take(i as int)));
                assert(best(candidates(views.take(i + 1))) is None);
            }
        }
        i += 1;
    }
    assert(views.take(list@.len() as int) =~= views);
    match chosen {
        None => GpuStatus {
            available: false,
            name: string_from("No discrete/integrated GPU found"),
            backend: string_from("CPU"),
            detail: string_from("Whisper and ONNX will use CPU. Software/WARP adapters were skipped."),
            device_index: -1,
            discrete: false,
            vram_mb: 0,
        },
        Some((index, name, mb, discrete)) => {
            let mut d: Vec<char> = Vec::new();
            push_str(&mut d, "Using ");
            push_str(&mut d, if discrete { "discrete" } else { "integrated" });
            push_str(&mut d, " adapter “");
            push_str(&mut d, name.as_str());
            push_str(&mut d, "” (~");
            push_decimal(&mut d, mb);
            push_str(&mut d, " MB VRAM)");
            if vulkan_build {
                push_str(&mut d, " for Whisper Vulkan");
            }
            push_str(&mut d, ". Software/WARP adapters are skipped.");
            proof {
                let kind = if discrete { "discrete"@ } else { "integrated"@ };
                let suffix = if vulkan_build { " for Whisper Vulkan"@ } else { Seq::<char>::empty() };
                assert(d@ =~= "Using "@ + kind + " adapter “"@ + name@ + "” (~"@ + decimal(mb as nat)
                    + " MB VRAM)"@ + suffix + ". Software/WARP adapters are skipped."@);
            }
            GpuStatus {
                available: true,
                name,
                backend: string_from(if vulkan_build { BACKEND_VULKAN } else { "CPU" }),
                detail: string_of(&d),
                device_index: index as i32,
                discrete,
                vram_mb: mb,
            }
        },
    }
}

/// The dedicated video memory of the first non-software adapter, in MB.
pub open spec fn first_vram_spec(adapters: Seq<(Seq<char>, bool, u64)>) -> u64
    decreases adapters.len(),
{
    if adapters.len() == 0 {
        0
    } else if !is_software(adapters[0].0, adapters[0].1) {
        (adapters[0].2 / 1048576u64) as u64
    } else {
        first_vram_spec(adapters.drop_first())
    }
}

pub fn detect_vram_mb(on_windows: bool, adapters: &Result<Vec<AdapterDesc>, String>) -> (mb: u64)
    ensures
        mb == match adapters {
            Ok(list) => if on_windows { first_vram_spec(adapter_views(list@)) } else { 0 },
            Err(_) => 0,
        },
{
    if !on_windows {
        return 0;
    }
    let list = match adapters {
        Err(_) => {
            return 0;
        },
        Ok(list) => list,
    };
    let ghost views = adapter_views(list@);
    let mut i: usize = 0;
    assert(views.skip(0) =~= views);
    while i < list.len()
        invariant
            i <= list@.len(),
            views == adapter_views(list@),
            views.len() == list@.len(),
            first_vram_spec(views.skip(i as int)) == first_vram_spec(views),
            on_windows,
            adapters == Ok::<Vec<AdapterDesc>, String>(*list),
        decreases list@.len() - i,
    {
        assert(views.skip(i as int).drop_first() =~= views.skip(i + 1));
        let name = wchar_to_string(list[i].description.as_slice());
        assert(views.skip(i as int)[0] == (name@, list@[i as int].software_flag, list@[i as int].dedicated_video_memory));
        let nv = crate::text::chars_of(name.as_str());
        let lower = to_ascii_lower(&nv);
        let software = list[i].software_flag || chars_contain(&lower, "microsoft basic render")
            || chars_contain(&lower, "warp");
        if !software {
            return list[i].dedicated_video_memory / 1048576;
        }
        i += 1;
    }
    assert(views.skip(list@.len() as int) =~= Seq::<(Seq<char>, bool, u64)>::empty());
    0
}

// ---------------------------------------------------------------------------
// Starting-model recommendation
// ---------------------------------------------------------------------------

#[derive(Clone, Debug)]
pub struct ModelRecommendation {
    pub model_id: String,
    pub model_name: String,
    pub reason: String,
    pub vram_mb: u64,
    pub gpu: GpuStatus,
}

/// What `recommend_starting_model` picks: (id, name, reason).
pub open spec fn recommend_spec(available: bool, name: Seq<char>, vram_mb: u64) -> (Seq<char>, Seq<char>, Seq<char>) {
    let l = ascii_lower_seq(name);
    let hint = contains(l, "rtx"@) || contains(l, "radeon"@) || contains(l, "geforce"@) || contains(l, "arc "@);
    let mb = decimal(vram_mb as nat);
    if !available {
        ("whisper-tiny"@, "Whisper Tiny"@, "No GPU detected, so Tiny stays responsive on CPU."@)
    } else if vram_mb > 0 && vram_mb < 2048 {
        ("whisper-tiny"@, "Whisper Tiny"@, "About "@ + mb + " MB VRAM; Tiny is the safe starting size."@)
    } else if vram_mb > 0 && vram_mb < 4096 {
        ("whisper-base"@, "Whisper Base"@, "About "@ + mb + " MB VRAM; Base is a solid starting size."@)
    } else if vram_mb >= 4096 || hint {
        (
            "whisper-small"@,
            "Whisper Small"@,
            if vram_mb >= 8192 {
                name + " with ~"@ + mb + " MB VRAM can run larger models; Small is still the best starting size."@
            } else if vram_mb >= 4096 {
                "About "@ + mb + " MB VRAM; Small balances speed and accuracy."@
            } else {
                name + " looks discrete; Small is a good starting size (Vulkan)."@
            },
        )
    } else {
        ("whisper-base"@, "Whisper Base"@, name + " detected; Base is a balanced starting size."@)
    }
}

/// A sensible first Whisper size, biased toward a starting size rather
/// than the largest model the GPU could hold.
pub fn recommend_starting_model(gpu: GpuStatus, vram_mb: u64) -> (rec: ModelRecommendation)
    ensures
        (rec.model_id@, rec.model_name@, rec.reason@) == recommend_spec(gpu.available, gpu.name@, vram_mb),
        rec.vram_mb == vram_mb,
        status_view(rec.gpu) == status_view(gpu),
        starts_with(rec.model_id@, "whisper-"@),
        rec.reason@.len() > 0,
{
    let nv = crate::text::chars_of(gpu.name.as_str());
    let l = to_ascii_lower(&nv);
    let hint = chars_contain(&l, "rtx") || chars_contain(&l, "radeon") || chars_contain(&l, "geforce")
        || chars_contain(&l, "arc ");
    let mut mb: Vec<char> = Vec::new();
    push_decimal(&mut mb, vram_mb);
    let mut reason: Vec<char> = Vec::new();
    let (id, name): (&'static str, &'static str) = if !gpu.available {
        push_str(&mut reason, "No GPU detected, so Tiny stays responsive on CPU.");
        ("whisper-tiny", "Whisper Tiny")
    } else if vram_mb > 0 && vram_mb < 2048 {
        push_str(&mut reason, "About ");
        crate::text::push_all(&mut reason, &mb);
        push_str(&mut reason, " MB VRAM; Tiny is the safe starting size.");
        ("whisper-tiny", "Whisper Tiny")
    } else if vram_mb > 0 && vram_mb < 4096 {
        push_str(&mut reason, "About ");
        crate::text::push_all(&mut reason, &mb);
        push_str(&mut reason, " MB VRAM; Base is a solid starting size.");
        ("whisper-base", "Whisper Base")
    } else if vram_mb >= 4096 || hint {
        if vram_mb >= 8192 {
            crate::text::push_all(&mut reason, &nv);
            push_str(&mut reason, " with ~");
            crate::text::push_all(&mut reason, &mb);
            push_str(
                &mut reason,
                " MB VRAM can run larger models; Small is still the best starting size.",
            );
        } else if vram_mb >= 4096 {
            push_str(&mut reason, "About ");
            crate::text::push_all(&mut reason, &mb);
            push_str(&mut reason, " MB VRAM; Small balances speed and accuracy.");
        } else {
            crate::text::push_all(&mut reason, &nv);
            push_str(&mut reason, " looks discrete; Small is a good starting size (Vulkan).");
        }
        ("whisper-small", "Whisper Small")
    } else {
        crate::text::push_all(&mut reason, &nv);
        push_str(&mut reason, " detected; Base is a balanced starting size.");
        ("whisper-base", "Whisper Base")
    };
    proof {
        reveal_strlit("whisper-tiny");
        reveal_strlit("whisper-base");
        reveal_strlit("whisper-small");
        reveal_strlit("whisper-");
        assert("whisper-tiny"@.subrange(0, 8) =~= "whisper-"@);
        assert("whisper-base"@.subrange(0, 8) =~= "whisper-"@);
        assert("whisper-small"@.subrange(0, 8) =~= "whisper-"@);
        reveal_strlit("No GPU detected, so Tiny stays responsive on CPU.");
        reveal_strlit(" MB VRAM; Tiny is the safe starting size.");
        reveal_strlit(" MB VRAM; Base is a solid starting size.");
        reveal_strlit(" MB VRAM can run larger models; Small is still the best starting size.");
        reveal_strlit(" MB VRAM; Small balances speed and accuracy.");
        reveal_strlit(" looks discrete; Small is a good starting size (Vulkan).");
        reveal_strlit(" detected; Base is a balanced starting size.");
    }
    ModelRecommendation {
        model_id: string_from(id),
        model_name: string_from(name),
        reason: string_of(&reason),
        vram_mb,
        gpu,
    }
}

} // verus!
