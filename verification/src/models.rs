//! The speech-model catalog: which engine runs each model, how it is
//! downloaded, when it counts as installed, which language each decoder is
//! told, and how a take falls back from DirectML to the CPU.

use vstd::prelude::*;
use crate::text::{
    chars_of, chars_start_with, contains, find_from, push_str, starts_with, str_eq, string_from,
    string_of, trim, trim_chars,
};

verus! {

// ---------------------------------------------------------------------------
// Acceleration labels
// ---------------------------------------------------------------------------

pub const CPU: &'static str = "CPU";

pub const CPU_VULKAN: &'static str = "CPU · Vulkan";

pub const CPU_DIRECTML: &'static str = "CPU · DirectML";

/// The label of whisper.cpp models: Vulkan only in builds that enable it.
pub fn whisper_acceleration(vulkan_build: bool) -> (s: &'static str)
    ensures
        s == (if vulkan_build { CPU_VULKAN } else { CPU }),
{
    if vulkan_build {
        CPU_VULKAN
    } else {
        CPU
    }
}

/// The ONNX models that decode on DirectML (where it is available).
pub open spec fn uses_directml(model_id: Seq<char>) -> bool {
    model_id == "parakeet-tdt-0.6b-v3"@ || model_id == "sensevoice-small"@
}

/// Encoder-decoder models slow down on DirectML (every step crosses between
/// CPU and GPU), so only these two use it.
pub fn onnx_uses_directml(model_id: &str) -> (r: bool)
    ensures
        r == uses_directml(model_id@),
{
    str_eq(model_id, "parakeet-tdt-0.6b-v3") || str_eq(model_id, "sensevoice-small")
}

pub fn onnx_acceleration(model_id: &str, on_windows: bool) -> (s: &'static str)
    ensures
        s == (if uses_directml(model_id@) && on_windows { CPU_DIRECTML } else { CPU }),
{
    if onnx_uses_directml(model_id) && on_windows {
        CPU_DIRECTML
    } else {
        CPU
    }
}

/// The GPU backends this build can use, CPU last.
pub open spec fn backends_spec(vulkan_build: bool, on_windows: bool) -> Seq<Seq<char>> {
    let a: Seq<Seq<char>> = if vulkan_build { seq!["Vulkan (transcribe.cpp)"@] } else { seq![] };
    let b: Seq<Seq<char>> = if on_windows { seq!["DirectML (ONNX Runtime)"@] } else { seq![] };
    a + b + seq!["CPU fallback"@]
}

pub fn gpu_backends_summary(vulkan_build: bool, on_windows: bool) -> (out: Vec<&'static str>)
    ensures
        out@.map_values(|s: &'static str| s@) == backends_spec(vulkan_build, on_windows),
{
    let mut backends: Vec<&'static str> = Vec::new();
    if vulkan_build {
        backends.push("Vulkan (transcribe.cpp)");
    }
    if on_windows {
        backends.push("DirectML (ONNX Runtime)");
    }
    backends.push("CPU fallback");
    assert(backends@.map_values(|s: &'static str| s@) =~= backends_spec(vulkan_build, on_windows));
    backends
}

// ---------------------------------------------------------------------------
// Catalog
// ---------------------------------------------------------------------------

pub const WHISPER_CPP: &'static str = "whisper.cpp";

pub const ONNX_RUNTIME: &'static str = "ONNX Runtime";

/// Oriserve's Whisper Hindi2Hinglish Apex as a whisper.cpp GGML file.
pub const VOCA_HINGLISH: &'static str = "voca-hinglish";

#[derive(Clone, Copy, Debug, PartialEq, Eq)]
pub struct Model {
    pub id: &'static str,
    pub name: &'static str,
    pub engine: &'static str,
    pub size: &'static str,
    pub languages: &'static str,
    pub acceleration: &'static str,
    pub description: &'static str,
}

/// Each catalog model in order: its id, its language label, whether it runs
/// on whisper.cpp, and whether it decodes on DirectML.
pub open spec fn catalog_rows() -> Seq<(Seq<char>, Seq<char>, bool, bool)> {
    seq![
        ("whisper-tiny"@, "99 languages"@, true, false),
        ("whisper-base"@, "99 languages"@, true, false),
        ("whisper-small"@, "99 languages"@, true, false),
        ("whisper-medium"@, "99 languages"@, true, false),
        ("whisper-large-v3"@, "99 languages"@, true, false),
        ("whisper-large-v3-turbo"@, "99 languages"@, true, false),
        ("distil-whisper-large-v3"@, "English"@, true, false),
        ("voca-hinglish"@, "Hindi, English"@, true, false),
        ("parakeet-tdt-0.6b-v3"@, "25 languages"@, false, true),
        ("moonshine-tiny"@, "English"@, false, false),
        ("moonshine-base"@, "English"@, false, false),
        ("sensevoice-small"@, "Chinese · Japanese · Korean · Cantonese · English"@, false, true),
        ("gigaam-v3"@, "Russian"@, false, false),
        ("canary-180m"@, "English · Spanish · German · French"@, false, false),
        ("canary-1b-v2"@, "25 European languages"@, false, false),
        ("cohere-transcribe"@, "14 languages"@, false, false),
    ]
}

/// Each catalog model's display name, download size and description, in
/// catalog order.
pub open spec fn catalog_text() -> Seq<(Seq<char>, Seq<char>, Seq<char>)> {
    seq![
        ("Whisper Tiny"@, "75 MB"@, "Fastest Whisper option; included as the first-run recommendation."@),
        ("Whisper Base"@, "142 MB"@, "Balanced accuracy for everyday dictation."@),
        ("Whisper Small"@, "466 MB"@, "Higher accuracy on modern PCs."@),
        ("Whisper Medium"@, "1.5 GB"@, "Excellent multilingual recognition."@),
        ("Whisper Large v3"@, "3.1 GB"@, "Maximum Whisper accuracy."@),
        ("Whisper Large v3 Turbo"@, "1.6 GB"@, "Large-v3 quality tuned for lower latency."@),
        ("Distil-Whisper Large v3"@, "1.5 GB"@, "Fast English-only Whisper derivative."@),
        ("Voca Hinglish"@, "834 MB"@, "Writes Hindi speech in Roman script (Hinglish). Always decodes as English, so it ignores the language setting."@),
        ("Parakeet TDT 0.6B v3"@, "478 MB"@, "High-speed multilingual dictation."@),
        ("Moonshine Tiny"@, "145 MB"@, "Low-memory, quick English notes."@),
        ("Moonshine Base"@, "190 MB"@, "Compact English model."@),
        ("SenseVoice Small"@, "240 MB"@, "East Asian language specialist."@),
        ("GigaAM v3"@, "225 MB"@, "Russian recognition with punctuation."@),
        ("Canary 180M Flash"@, "150 MB"@, "Fast four-language transcription."@),
        ("Canary 1B v2"@, "982 MB"@, "Larger Canary for 25 European languages. Slower than 180M Flash."@),
        ("Cohere Transcribe"@, "1.9 GB"@, "Cohere's 2B model (int4) for 14 languages, including Arabic, Chinese, Japanese and Korean."@),
    ]
}

/// Whether `m` is what the catalog row says: its id and languages, the
/// engine the row names and that engine's acceleration label.
pub open spec fn row_matches(m: Model, row: (Seq<char>, Seq<char>, bool, bool), vulkan_build: bool, on_windows: bool) -> bool {
    &&& m.id@ == row.0
    &&& m.languages@ == row.1
    &&& if row.2 {
        m.engine == WHISPER_CPP && m.acceleration == (if vulkan_build { CPU_VULKAN } else { CPU })
    } else {
        m.engine == ONNX_RUNTIME && m.acceleration == (if row.3 && on_windows {
            CPU_DIRECTML
        } else {
            CPU
        })
    }
}

/// The catalog, engine-neutral: whisper.cpp (GGML) and ONNX Runtime models.
pub fn model_catalog(vulkan_build: bool, on_windows: bool) -> (out: Vec<Model>)
    ensures
        out@.len() == catalog_rows().len(),
        forall|i: int|
            0 <= i < out@.len() ==> row_matches(#[trigger] out@[i], catalog_rows()[i], vulkan_build, on_windows),
        forall|i: int|
            0 <= i < out@.len() ==> (#[trigger] out@[i]).name@ == catalog_text()[i].0 && out@[i].size@
                == catalog_text()[i].1 && out@[i].description@ == catalog_text()[i].2,
{
    let w = whisper_acceleration(vulkan_build);
    let out = vec![
        Model {
            id: "whisper-tiny",
            name: "Whisper Tiny",
            engine: WHISPER_CPP,
            size: "75 MB",
            languages: "99 languages",
            acceleration: w,
            description: "Fastest Whisper option; included as the first-run recommendation.",
        },
        Model {
            id: "whisper-base",
            name: "Whisper Base",
            engine: WHISPER_CPP,
            size: "142 MB",
            languages: "99 languages",
            acceleration: w,
            description: "Balanced accuracy for everyday dictation.",
        },
        Model {
            id: "whisper-small",
            name: "Whisper Small",
            engine: WHISPER_CPP,
            size: "466 MB",
            languages: "99 languages",
            acceleration: w,
            description: "Higher accuracy on modern PCs.",
        },
        Model {
            id: "whisper-medium",
            name: "Whisper Medium",
            engine: WHISPER_CPP,
            size: "1.5 GB",
            languages: "99 languages",
            acceleration: w,
            description: "Excellent multilingual recognition.",
        },
        Model {
            id: "whisper-large-v3",
            name: "Whisper Large v3",
            engine: WHISPER_CPP,
            size: "3.1 GB",
            languages: "99 languages",
            acceleration: w,
            description: "Maximum Whisper accuracy.",
        },
        Model {
            id: "whisper-large-v3-turbo",
            name: "Whisper Large v3 Turbo",
            engine: WHISPER_CPP,
            size: "1.6 GB",
            languages: "99 languages",
            acceleration: w,
            description: "Large-v3 quality tuned for lower latency.",
        },
        Model {
            id: "distil-whisper-large-v3",
            name: "Distil-Whisper Large v3",
            engine: WHISPER_CPP,
            size: "1.5 GB",
            languages: "English",
            acceleration: w,
            description: "Fast English-only Whisper derivative.",
        },
        Model {
            id: VOCA_HINGLISH,
            name: "Voca Hinglish",
            engine: WHISPER_CPP,
            size: "834 MB",
            languages: "Hindi, English",
            acceleration: w,
            description: "Writes Hindi speech in Roman script (Hinglish). Always decodes as English, so it ignores the language setting.",
        },
        Model {
            id: "parakeet-tdt-0.6b-v3",
            name: "Parakeet TDT 0.6B v3",
            engine: ONNX_RUNTIME,
            size: "478 MB",
            languages: "25 languages",
            acceleration: onnx_acceleration("parakeet-tdt-0.6b-v3", on_windows),
            description: "High-speed multilingual dictation.",
        },
        Model {
            id: "moonshine-tiny",
            name: "Moonshine Tiny",
            engine: ONNX_RUNTIME,
            size: "145 MB",
            languages: "English",
            acceleration: onnx_acceleration("moonshine-tiny", on_windows),
            description: "Low-memory, quick English notes.",
        },
        Model {
            id: "moonshine-base",
            name: "Moonshine Base",
            engine: ONNX_RUNTIME,
            size: "190 MB",
            languages: "English",
            acceleration: onnx_acceleration("moonshine-base", on_windows),
            description: "Compact English model.",
        },
        Model {
            id: "sensevoice-small",
            name: "SenseVoice Small",
            engine: ONNX_RUNTIME,
            size: "240 MB",
            languages: "Chinese · Japanese · Korean · Cantonese · English",
            acceleration: onnx_acceleration("sensevoice-small", on_windows),
            description: "East Asian language specialist.",
        },
        Model {
            id: "gigaam-v3",
            name: "GigaAM v3",
            engine: ONNX_RUNTIME,
            size: "225 MB",
            languages: "Russian",
            acceleration: onnx_acceleration("gigaam-v3", on_windows),
            description: "Russian recognition with punctuation.",
        },
        Model {
            id: "canary-180m",
            name: "Canary 180M Flash",
            engine: ONNX_RUNTIME,
            size: "150 MB",
            languages: "English · Spanish · German · French",
            acceleration: onnx_acceleration("canary-180m", on_windows),
            description: "Fast four-language transcription.",
        },
        Model {
            id: "canary-1b-v2",
            name: "Canary 1B v2",
            engine: ONNX_RUNTIME,
            size: "982 MB",
            languages: "25 European languages",
            acceleration: onnx_acceleration("canary-1b-v2", on_windows),
            description: "Larger Canary for 25 European languages. Slower than 180M Flash.",
        },
        Model {
            id: "cohere-transcribe",
            name: "Cohere Transcribe",
            engine: ONNX_RUNTIME,
            size: "1.9 GB",
            languages: "14 languages",
            acceleration: onnx_acceleration("cohere-transcribe", on_windows),
            description: "Cohere's 2B model (int4) for 14 languages, including Arabic, Chinese, Japanese and Korean.",
        },
    ];
    proof {
        reveal_strlit("parakeet-tdt-0.6b-v3");
        reveal_strlit("moonshine-tiny");
        reveal_strlit("moonshine-base");
        reveal_strlit("sensevoice-small");
        reveal_strlit("gigaam-v3");
        reveal_strlit("canary-180m");
        reveal_strlit("canary-1b-v2");
        reveal_strlit("cohere-transcribe");
        lemma_first_char_differs("moonshine-tiny"@, "parakeet-tdt-0.6b-v3"@);
        lemma_first_char_differs("moonshine-base"@, "parakeet-tdt-0.6b-v3"@);
        lemma_first_char_differs("gigaam-v3"@, "parakeet-tdt-0.6b-v3"@);
        lemma_first_char_differs("canary-180m"@, "parakeet-tdt-0.6b-v3"@);
        lemma_first_char_differs("canary-1b-v2"@, "parakeet-tdt-0.6b-v3"@);
        lemma_first_char_differs("cohere-transcribe"@, "parakeet-tdt-0.6b-v3"@);
        lemma_first_char_differs("moonshine-tiny"@, "sensevoice-small"@);
        lemma_first_char_differs("moonshine-base"@, "sensevoice-small"@);
        lemma_first_char_differs("gigaam-v3"@, "sensevoice-small"@);
        lemma_first_char_differs("canary-180m"@, "sensevoice-small"@);
        lemma_first_char_differs("canary-1b-v2"@, "sensevoice-small"@);
        lemma_first_char_differs("cohere-transcribe"@, "sensevoice-small"@);
        assert(out@[0].id@ == catalog_rows()[0].0);
    }
    out
}

/// `s` and `p` differ in their first character: `s` neither is `p` nor
/// starts with it.
proof fn lemma_first_char_differs(s: Seq<char>, p: Seq<char>)
    requires
        s.len() > 0,
        p.len() > 0,
        s[0] != p[0],
    ensures
        !starts_with(s, p),
        s != p,
{
    if p.len() <= s.len() {
        assert(s.subrange(0, p.len() as int)[0] == s[0]);
    }
}

/// Whether `id` names a model of the catalog.
pub open spec fn catalog_has(id: Seq<char>) -> bool {
    exists|i: int| 0 <= i < catalog_rows().len() && #[trigger] catalog_rows()[i].0 == id
}

pub fn is_catalog_model(id: &str) -> (r: bool)
    ensures
        r == catalog_has(id@),
{
    let catalog = model_catalog(false, false);
    let mut i: usize = 0;
    while i < catalog.len()
        invariant
            i <= catalog@.len(),
            catalog@.len() == catalog_rows().len(),
            forall|k: int|
                0 <= k < catalog@.len() ==> row_matches(#[trigger] catalog@[k], catalog_rows()[k], false, false),
            forall|k: int| 0 <= k < i ==> #[trigger] catalog_rows()[k].0 != id@,
        decreases catalog@.len() - i,
    {
        assert(row_matches(catalog@[i as int], catalog_rows()[i as int], false, false));
        if str_eq(catalog[i].id, id) {
            return true;
        }
        i += 1;
    }
    false
}

// ---------------------------------------------------------------------------
// Packages and installation
// ---------------------------------------------------------------------------

/// Models that run on whisper.cpp from a single GGML `.bin`.
pub open spec fn whisper_model(id: Seq<char>) -> bool {
    starts_with(id, "whisper-"@) || starts_with(id, "distil-whisper-"@) || id == VOCA_HINGLISH@
}

pub fn is_whisper_model(id: &str) -> (r: bool)
    ensures
        r == whisper_model(id@),
{
    let v = chars_of(id);
    chars_start_with(&v, "whisper-") || chars_start_with(&v, "distil-whisper-") || str_eq(
        id,
        VOCA_HINGLISH,
    )
}

/// The entry under the models directory: `{id}.bin` for whisper.cpp
/// models, the directory `{id}` for the others.
pub fn model_entry_name(id: &str) -> (out: String)
    ensures
        out@ == (if whisper_model(id@) { id@ + ".bin"@ } else { id@ }),
{
    if is_whisper_model(id) {
        let mut v = chars_of(id);
        push_str(&mut v, ".bin");
        string_of(&v)
    } else {
        string_from(id)
    }
}


/// How a catalog model is fetched, as the contracts read it.
pub enum PackageView {
    GgmlBin(Seq<char>),
    TarGz(Seq<char>),
    Files(Seq<(Seq<char>, Seq<char>)>),
}

/// How a catalog model is fetched. Archives unpack into `models/{id}/` with
/// the file names its loader expects.
#[derive(Clone, Debug, PartialEq, Eq)]
pub enum ModelPackage {
    /// One whisper.cpp GGML `.bin`, written as `models/{id}.bin`.
    GgmlBin { url: &'static str },
    /// An official `.tar.gz` whose contents become `models/{id}/`.
    TarGz { url: &'static str },
    /// Flat files (name, url) downloaded into `models/{id}/`.
    Files { files: Vec<(&'static str, &'static str)> },
}

impl View for ModelPackage {
    type V = PackageView;

    open spec fn view(&self) -> PackageView {
        match self {
            ModelPackage::GgmlBin { url } => PackageView::GgmlBin(url@),
            ModelPackage::TarGz { url } => PackageView::TarGz(url@),
            ModelPackage::Files { files } => PackageView::Files(
                files@.map_values(|f: (&'static str, &'static str)| (f.0@, f.1@)),
            ),
        }
    }
}

/// The package of each catalog id; third-party conversions are pinned to a
/// commit so the files cannot change under the catalog.
pub open spec fn package_spec(id: Seq<char>) -> Option<PackageView> {
    if id == "whisper-tiny"@ {
        Some(PackageView::GgmlBin("https://huggingface.co/ggerganov/whisper.cpp/resolve/main/ggml-tiny.bin"@))
    }
    else if id == "whisper-base"@ {
        Some(PackageView::GgmlBin("https://huggingface.co/ggerganov/whisper.cpp/resolve/main/ggml-base.bin"@))
    }
    else if id == "whisper-small"@ {
        Some(PackageView::GgmlBin("https://huggingface.co/ggerganov/whisper.cpp/resolve/main/ggml-small.bin"@))
    }
    else if id == "whisper-medium"@ {
        Some(PackageView::GgmlBin("https://huggingface.co/ggerganov/whisper.cpp/resolve/main/ggml-medium.bin"@))
    }
    else if id == "whisper-large-v3"@ {
        Some(PackageView::GgmlBin("https://huggingface.co/ggerganov/whisper.cpp/resolve/main/ggml-large-v3.bin"@))
    }
    else if id == "whisper-large-v3-turbo"@ {
        Some(PackageView::GgmlBin("https://huggingface.co/ggerganov/whisper.cpp/resolve/main/ggml-large-v3-turbo.bin"@))
    }
    else if id == "distil-whisper-large-v3"@ {
        Some(PackageView::GgmlBin("https://huggingface.co/distil-whisper/distil-large-v3-ggml/resolve/main/ggml-distil-large-v3.bin"@))
    }
    else if id == "voca-hinglish"@ {
        Some(PackageView::GgmlBin("https://huggingface.co/Marquestra/Whisper-Hindi2Hinglish-Apex-GGML/resolve/d1de3ff618856e5675c47d3158ca820506fb4d9e/ggml-apex-hinglish-q8_0.bin"@))
    }
    else if id == "parakeet-tdt-0.6b-v3"@ {
        Some(PackageView::TarGz("https://blob.handy.computer/parakeet-v3-int8.tar.gz"@))
    }
    else if id == "moonshine-tiny"@ {
        Some(PackageView::Files(seq![
            ("encoder_model.onnx"@, "https://huggingface.co/onnx-community/moonshine-tiny-ONNX/resolve/main/onnx/encoder_model.onnx"@),
            ("decoder_model_merged.onnx"@, "https://huggingface.co/onnx-community/moonshine-tiny-ONNX/resolve/main/onnx/decoder_model_merged.onnx"@),
            ("tokenizer.json"@, "https://huggingface.co/onnx-community/moonshine-tiny-ONNX/resolve/main/tokenizer.json"@),
        ]))
    }
    else if id == "canary-1b-v2"@ {
        Some(PackageView::Files(seq![
            ("encoder-model.int8.onnx"@, "https://huggingface.co/istupakov/canary-1b-v2-onnx/resolve/5ebc1520cef7b6b318b3526ad17adbfe00bc1bfc/encoder-model.int8.onnx"@),
            ("decoder-model.int8.onnx"@, "https://huggingface.co/istupakov/canary-1b-v2-onnx/resolve/5ebc1520cef7b6b318b3526ad17adbfe00bc1bfc/decoder-model.int8.onnx"@),
            ("vocab.txt"@, "https://huggingface.co/istupakov/canary-1b-v2-onnx/resolve/5ebc1520cef7b6b318b3526ad17adbfe00bc1bfc/vocab.txt"@),
            ("nemo128.onnx"@, "https://huggingface.co/istupakov/parakeet-tdt-0.6b-v3-onnx/resolve/8f23f0c03c8761650bdb5b40aaf3e40d2c15f1ce/nemo128.onnx"@),
        ]))
    }
    else if id == "cohere-transcribe"@ {
        Some(PackageView::Files(seq![
            ("cohere-encoder.int4.onnx"@, "https://huggingface.co/cstr/cohere-transcribe-onnx-int4/resolve/2c870f89692c61348481884eb6e1222ec3ba25c9/cohere-encoder.int4.onnx"@),
            ("cohere-encoder.int4.onnx.data"@, "https://huggingface.co/cstr/cohere-transcribe-onnx-int4/resolve/2c870f89692c61348481884eb6e1222ec3ba25c9/cohere-encoder.int4.onnx.data"@),
            ("cohere-decoder.int4.onnx"@, "https://huggingface.co/cstr/cohere-transcribe-onnx-int4/resolve/2c870f89692c61348481884eb6e1222ec3ba25c9/cohere-decoder.int4.onnx"@),
            ("cohere-decoder.int4.onnx.data"@, "https://huggingface.co/cstr/cohere-transcribe-onnx-int4/resolve/2c870f89692c61348481884eb6e1222ec3ba25c9/cohere-decoder.int4.onnx.data"@),
            ("tokens.txt"@, "https://huggingface.co/cstr/cohere-transcribe-onnx-int4/resolve/2c870f89692c61348481884eb6e1222ec3ba25c9/tokens.txt"@),
        ]))
    }
    else if id == "moonshine-base"@ {
        Some(PackageView::TarGz("https://blob.handy.computer/moonshine-base.tar.gz"@))
    }
    else if id == "sensevoice-small"@ {
        Some(PackageView::TarGz("https://blob.handy.computer/sense-voice-int8.tar.gz"@))
    }
    else if id == "gigaam-v3"@ {
        Some(PackageView::TarGz("https://blob.handy.computer/giga-am-v3-int8.tar.gz"@))
    }
    else if id == "canary-180m"@ {
        Some(PackageView::TarGz("https://blob.handy.computer/canary-180m-flash.tar.gz"@))
    } else {
        None
    }
}

pub fn model_package(id: &str) -> (r: Option<ModelPackage>)
    ensures
        match r {
            Some(p) => package_spec(id@) == Some(p@),
            None => package_spec(id@) is None,
        },
{
    if str_eq(id, "whisper-tiny") {
        let p = ModelPackage::GgmlBin {
            url: "https://huggingface.co/ggerganov/whisper.cpp/resolve/main/ggml-tiny.bin",
        };
        return Some(p);
    }
    if str_eq(id, "whisper-base") {
        let p = ModelPackage::GgmlBin {
            url: "https://huggingface.co/ggerganov/whisper.cpp/resolve/main/ggml-base.bin",
        };
        return Some(p);
    }
    if str_eq(id, "whisper-small") {
        let p = ModelPackage::GgmlBin {
            url: "https://huggingface.co/ggerganov/whisper.cpp/resolve/main/ggml-small.bin",
        };
        return Some(p);
    }
    if str_eq(id, "whisper-medium") {
        let p = ModelPackage::GgmlBin {
            url: "https://huggingface.co/ggerganov/whisper.cpp/resolve/main/ggml-medium.bin",
        };
        return Some(p);
    }
    if str_eq(id, "whisper-large-v3") {
        let p = ModelPackage::GgmlBin {
            url: "https://huggingface.co/ggerganov/whisper.cpp/resolve/main/ggml-large-v3.bin",
        };
        return Some(p);
    }
    if str_eq(id, "whisper-large-v3-turbo") {
        let p = ModelPackage::GgmlBin {
            url: "https://huggingface.co/ggerganov/whisper.cpp/resolve/main/ggml-large-v3-turbo.bin",
        };
        return Some(p);
    }
    if str_eq(id, "distil-whisper-large-v3") {
        let p = ModelPackage::GgmlBin {
            url: "https://huggingface.co/distil-whisper/distil-large-v3-ggml/resolve/main/ggml-distil-large-v3.bin",
        };
        return Some(p);
    }
    if str_eq(id, "voca-hinglish") {
        let p = ModelPackage::GgmlBin {
            url: "https://huggingface.co/Marquestra/Whisper-Hindi2Hinglish-Apex-GGML/resolve/d1de3ff618856e5675c47d3158ca820506fb4d9e/ggml-apex-hinglish-q8_0.bin",
        };
        return Some(p);
    }
    if str_eq(id, "parakeet-tdt-0.6b-v3") {
        let p = ModelPackage::TarGz {
            url: "https://blob.handy.computer/parakeet-v3-int8.tar.gz",
        };
        return Some(p);
    }
    if str_eq(id, "moonshine-tiny") {
        let files: Vec<(&'static str, &'static str)> = vec![
                (
                    "encoder_model.onnx",
                    "https://huggingface.co/onnx-community/moonshine-tiny-ONNX/resolve/main/onnx/encoder_model.onnx",
                ),
                (
                    "decoder_model_merged.onnx",
                    "https://huggingface.co/onnx-community/moonshine-tiny-ONNX/resolve/main/onnx/decoder_model_merged.onnx",
                ),
                (
                    "tokenizer.json",
                    "https://huggingface.co/onnx-community/moonshine-tiny-ONNX/resolve/main/tokenizer.json",
                ),
            ];
        proof {
            match package_spec(id@) {
                Some(PackageView::Files(fs)) => {
                    assert(files@.map_values(|f: (&'static str, &'static str)| (f.0@, f.1@)) =~= fs);
                },
                _ => {},
            }
        }
        return Some(ModelPackage::Files { files });
    }
    if str_eq(id, "canary-1b-v2") {
        let files: Vec<(&'static str, &'static str)> = vec![
                (
                    "encoder-model.int8.onnx",
                    "https://huggingface.co/istupakov/canary-1b-v2-onnx/resolve/5ebc1520cef7b6b318b3526ad17adbfe00bc1bfc/encoder-model.int8.onnx",
                ),
                (
                    "decoder-model.int8.onnx",
                    "https://huggingface.co/istupakov/canary-1b-v2-onnx/resolve/5ebc1520cef7b6b318b3526ad17adbfe00bc1bfc/decoder-model.int8.onnx",
                ),
                (
                    "vocab.txt",
                    "https://huggingface.co/istupakov/canary-1b-v2-onnx/resolve/5ebc1520cef7b6b318b3526ad17adbfe00bc1bfc/vocab.txt",
                ),
                (
                    "nemo128.onnx",
                    "https://huggingface.co/istupakov/parakeet-tdt-0.6b-v3-onnx/resolve/8f23f0c03c8761650bdb5b40aaf3e40d2c15f1ce/nemo128.onnx",
                ),
            ];
        proof {
            match package_spec(id@) {
                Some(PackageView::Files(fs)) => {
                    assert(files@.map_values(|f: (&'static str, &'static str)| (f.0@, f.1@)) =~= fs);
                },
                _ => {},
            }
        }
        return Some(ModelPackage::Files { files });
    }
    if str_eq(id, "cohere-transcribe") {
        let files: Vec<(&'static str, &'static str)> = vec![
                (
                    "cohere-encoder.int4.onnx",
                    "https://huggingface.co/cstr/cohere-transcribe-onnx-int4/resolve/2c870f89692c61348481884eb6e1222ec3ba25c9/cohere-encoder.int4.onnx",
                ),
                (
                    "cohere-encoder.int4.onnx.data",
                    "https://huggingface.co/cstr/cohere-transcribe-onnx-int4/resolve/2c870f89692c61348481884eb6e1222ec3ba25c9/cohere-encoder.int4.onnx.data",
                ),
                (
                    "cohere-decoder.int4.onnx",
                    "https://huggingface.co/cstr/cohere-transcribe-onnx-int4/resolve/2c870f89692c61348481884eb6e1222ec3ba25c9/cohere-decoder.int4.onnx",
                ),
                (
                    "cohere-decoder.int4.onnx.data",
                    "https://huggingface.co/cstr/cohere-transcribe-onnx-int4/resolve/2c870f89692c61348481884eb6e1222ec3ba25c9/cohere-decoder.int4.onnx.data",
                ),
                (
                    "tokens.txt",
                    "https://huggingface.co/cstr/cohere-transcribe-onnx-int4/resolve/2c870f89692c61348481884eb6e1222ec3ba25c9/tokens.txt",
                ),
            ];
        proof {
            match package_spec(id@) {
                Some(PackageView::Files(fs)) => {
                    assert(files@.map_values(|f: (&'static str, &'static str)| (f.0@, f.1@)) =~= fs);
                },
                _ => {},
            }
        }
        return Some(ModelPackage::Files { files });
    }
    if str_eq(id, "moonshine-base") {
        let p = ModelPackage::TarGz {
            url: "https://blob.handy.computer/moonshine-base.tar.gz",
        };
        return Some(p);
    }
    if str_eq(id, "sensevoice-small") {
        let p = ModelPackage::TarGz {
            url: "https://blob.handy.computer/sense-voice-int8.tar.gz",
        };
        return Some(p);
    }
    if str_eq(id, "gigaam-v3") {
        let p = ModelPackage::TarGz {
            url: "https://blob.handy.computer/giga-am-v3-int8.tar.gz",
        };
        return Some(p);
    }
    if str_eq(id, "canary-180m") {
        let p = ModelPackage::TarGz {
            url: "https://blob.handy.computer/canary-180m-flash.tar.gz",
        };
        return Some(p);
    }
    None
}


/// The files a model directory must hold before the model counts as
/// installed, for the ids that need a fixed set.
pub open spec fn required_files(id: Seq<char>) -> Option<Seq<Seq<char>>> {
    if id == "parakeet-tdt-0.6b-v3"@ || id == "canary-180m"@ {
        Some(seq!["encoder-model.int8.onnx"@, "vocab.txt"@])
    } else if id == "moonshine-tiny"@ || id == "moonshine-base"@ {
        Some(seq!["encoder_model.onnx"@, "decoder_model_merged.onnx"@, "tokenizer.json"@])
    } else if id == "sensevoice-small"@ {
        Some(seq!["model.int8.onnx"@, "tokens.txt"@])
    } else if id == "canary-1b-v2"@ {
        Some(seq!["encoder-model.int8.onnx"@, "decoder-model.int8.onnx"@, "nemo128.onnx"@, "vocab.txt"@])
    } else if id == "cohere-transcribe"@ {
        Some(
            seq![
                "cohere-encoder.int4.onnx"@,
                "cohere-encoder.int4.onnx.data"@,
                "cohere-decoder.int4.onnx"@,
                "cohere-decoder.int4.onnx.data"@,
                "tokens.txt"@,
            ],
        )
    } else {
        None
    }
}

/// What the app found at a model's entry under the models directory.
pub struct ModelEntry {
    /// The entry is a regular file.
    pub is_file: bool,
    /// Something exists at the entry.
    pub exists: bool,
    /// The names of the regular files directly inside it, when a directory.
    pub files: Vec<String>,
}

/// What `model_is_installed` returns.
pub open spec fn installed_spec(id: Seq<char>, is_file: bool, exists: bool, files: Seq<Seq<char>>) -> bool {
    if whisper_model(id) {
        is_file
    } else if id == "gigaam-v3"@ {
        (files.contains("model.int8.onnx"@) || files.contains("model.onnx"@)) && files.contains(
            "vocab.txt"@,
        )
    } else {
        match required_files(id) {
            Some(needed) => forall|i: int| 0 <= i < needed.len() ==> files.contains(#[trigger] needed[i]),
            None => exists,
        }
    }
}

fn has_file(files: &Vec<String>, name: &str) -> (r: bool)
    ensures
        r == crate::text::views(files@).contains(name@),
{
    let ghost fv = crate::text::views(files@);
    let mut i: usize = 0;
    while i < files.len()
        invariant
            i <= files.len(),
            fv == crate::text::views(files@),
            forall|j: int| 0 <= j < i ==> fv[j] != name@,
        decreases files.len() - i,
    {
        if str_eq(files[i].as_str(), name) {
            assert(fv[i as int] == name@);
            return true;
        }
        i += 1;
    }
    false
}

fn has_all(files: &Vec<String>, needed: &Vec<&'static str>) -> (r: bool)
    ensures
        r == forall|i: int|
            0 <= i < needed@.len() ==> crate::text::views(files@).contains(#[trigger] needed@[i]@),
{
    let mut i: usize = 0;
    while i < needed.len()
        invariant
            i <= needed.len(),
            forall|j: int| 0 <= j < i ==> crate::text::views(files@).contains(#[trigger] needed@[j]@),
        decreases needed.len() - i,
    {
        if !has_file(files, needed[i]) {
            return false;
        }
        i += 1;
    }
    true
}

fn required_file_list(id: &str) -> (r: Option<Vec<&'static str>>)
    ensures
        match r {
            Some(v) => required_files(id@) == Some(v@.map_values(|n: &'static str| n@)),
            None => required_files(id@) is None,
        },
{
    let v: Vec<&'static str> = if str_eq(id, "parakeet-tdt-0.6b-v3") || str_eq(id, "canary-180m") {
        vec!["encoder-model.int8.onnx", "vocab.txt"]
    } else if str_eq(id, "moonshine-tiny") || str_eq(id, "moonshine-base") {
        vec!["encoder_model.onnx", "decoder_model_merged.onnx", "tokenizer.json"]
    } else if str_eq(id, "sensevoice-small") {
        vec!["model.int8.onnx", "tokens.txt"]
    } else if str_eq(id, "canary-1b-v2") {
        vec!["encoder-model.int8.onnx", "decoder-model.int8.onnx", "nemo128.onnx", "vocab.txt"]
    } else if str_eq(id, "cohere-transcribe") {
        vec![
            "cohere-encoder.int4.onnx",
            "cohere-encoder.int4.onnx.data",
            "cohere-decoder.int4.onnx",
            "cohere-decoder.int4.onnx.data",
            "tokens.txt",
        ]
    } else {
        return None;
    };
    assert(required_files(id@) == Some(v@.map_values(|n: &'static str| n@)));
    Some(v)
}

/// Whether a model is on disk in full: the `.bin` of a whisper.cpp model,
/// the files its loader opens for the others.
pub fn model_is_installed(id: &str, entry: &ModelEntry) -> (r: bool)
    ensures
        r == installed_spec(id@, entry.is_file, entry.exists, crate::text::views(entry.files@)),
{
    if is_whisper_model(id) {
        return entry.is_file;
    }
    if str_eq(id, "gigaam-v3") {
        return (has_file(&entry.files, "model.int8.onnx") || has_file(&entry.files, "model.onnx"))
            && has_file(&entry.files, "vocab.txt");
    }
    match required_file_list(id) {
        Some(needed) => {
            let r = has_all(&entry.files, &needed);
            proof {
                let needed_v = needed@.map_values(|n: &'static str| n@);
                assert(forall|i: int| 0 <= i < needed@.len() ==> needed_v[i] == #[trigger] needed@[i]@);
            }
            r
        },
        None => entry.exists,
    }
}

// ---------------------------------------------------------------------------
// Downloads
// ---------------------------------------------------------------------------

/// What `url_host` returns: the part after `://` (or the whole text) up to
/// the first `/`, or the whole URL when that part is empty.
pub open spec fn url_host_spec(url: Seq<char>) -> Seq<char> {
    let rest = match crate::text::first_occurrence(url, "://"@) {
        Some(i) => url.skip(i + 3),
        None => url,
    };
    let host = crate::text::split_by(rest, seq!['/'])[0];
    if host.len() > 0 {
        host
    } else {
        url
    }
}

/// What a download request does before it fetches anything.
#[derive(Clone, Copy, Debug, PartialEq, Eq, Structural)]
pub enum DownloadStart {
    /// The model is installed already: nothing to do.
    AlreadyInstalled,
    /// Mark it downloading and fetch its package.
    Begin,
}

/// The checks before a download, in order: the model must have a package,
/// an installed model is left alone, and one download per model runs.
pub fn download_start(has_package: bool, installed: bool, downloading: bool) -> (r: Result<DownloadStart, String>)
    ensures
        !has_package ==> (r matches Err(m) && m@ == "In-app download is not available for this model."@),
        has_package && installed ==> r == Ok::<DownloadStart, String>(DownloadStart::AlreadyInstalled),
        has_package && !installed && downloading ==> (r matches Err(m) && m@
            == "This model is already downloading"@),
        has_package && !installed && !downloading ==> r == Ok::<DownloadStart, String>(
            DownloadStart::Begin,
        ),
{
    if !has_package {
        return Err(string_from("In-app download is not available for this model."));
    }
    if installed {
        return Ok(DownloadStart::AlreadyInstalled);
    }
    if downloading {
        return Err(string_from("This model is already downloading"));
    }
    Ok(DownloadStart::Begin)
}

/// The error when a download finished but the model still is not complete.
pub const FILES_MISSING_AFTER_DOWNLOAD: &'static str =
    "Download finished but the expected model files are missing. Try Remove, then Download again.";

/// The share of the progress bar (0 to 99) that file `index` of a
/// multi-file package fills: equal slices of 99 per file.
pub fn file_progress_range(index: usize, count: usize) -> (r: (u8, u8))
    requires
        index < count <= 255,
    ensures
        r.0 == index * (99int / (count as int)),
        r.1 == (index + 1) * (99int / (count as int)),
        r.1 <= 99,
{
    let c = count as u8;
    let i = index as u8;
    let slice = 99 / c;
    let ghost q: int = 99int / (count as int);
    assert((index + 1) * q <= 99) by (nonlinear_arith)
        requires
            index < count,
            count >= 1,
            q == 99int / (count as int),
    {
        assert((index + 1) * q <= count * q);
        assert(count * q <= 99);
    }
    assert(index * q <= (index + 1) * q) by (nonlinear_arith)
        requires
            q >= 0,
    {
    }
    assert(slice == q);
    let start = i * slice;
    let end = (i + 1) * slice;
    (start, end)
}

/// Files that some archives carry from macOS and a model never needs.
pub fn is_archive_junk(name: &str) -> (r: bool)
    ensures
        r == (starts_with(name@, "._"@) || name@ == ".DS_Store"@),
{
    let v = chars_of(name);
    chars_start_with(&v, "._") || str_eq(name, ".DS_Store")
}

/// An archive whose only entry is a directory holds the model in it;
/// otherwise the model is the archive's top level.
pub fn archive_payload_is_inner_dir(entry_count: usize, only_entry_is_dir: bool) -> (r: bool)
    ensures
        r == (entry_count == 1 && only_entry_is_dir),
{
    entry_count == 1 && only_entry_is_dir
}

/// The host of a download URL, for progress messages.
pub fn url_host(url: &str) -> (out: String)
    ensures
        out@ == url_host_spec(url@),
{
    let v = chars_of(url);
    let sep = chars_of("://");
    proof {
        reveal_strlit("://");
    }
    let rest = match crate::text::find_first(&v, &sep) {
        Some(i) => crate::text::copy_range(&v, i + 3, v.len()),
        None => crate::text::copy_range(&v, 0, v.len()),
    };
    proof {
        match crate::text::first_occurrence(url@, "://"@) {
            Some(i) => assert(rest@ =~= url@.skip(i + 3)),
            None => assert(rest@ =~= url@),
        }
    }
    let slash = vec!['/'];
    assert(slash@ =~= seq!['/']);
    let parts = crate::text::split_chars(&rest, &slash);
    proof {
        crate::text::lemma_split_by_nonempty(rest@, slash@);
        assert(crate::text::vviews(parts@)[0] == parts@[0]@);
    }
    if parts[0].len() > 0 {
        string_of(&parts[0])
    } else {
        string_from(url)
    }
}

/// The sibling file a download is staged in: the destination's file name
/// (or `download` when it has none) with `.part` added. Adding rather than
/// replacing the extension keeps it apart from a destination that already
/// ends in `.partial`.
pub fn download_staging_name(file_name: Option<&str>) -> (out: String)
    ensures
        out@ == match file_name {
            Some(n) => n@,
            None => "download"@,
        } + ".part"@,
{
    let mut v = match file_name {
        Some(n) => chars_of(n),
        None => chars_of("download"),
    };
    push_str(&mut v, ".part");
    string_of(&v)
}


// ---------------------------------------------------------------------------
// Languages
// ---------------------------------------------------------------------------

/// The language names of the settings and the codes the decoders take.
pub open spec fn language_table() -> Seq<(Seq<char>, Seq<char>)> {
    seq![
        ("English"@, "en"@),
        ("Spanish"@, "es"@),
        ("French"@, "fr"@),
        ("German"@, "de"@),
        ("Italian"@, "it"@),
        ("Portuguese"@, "pt"@),
        ("Dutch"@, "nl"@),
        ("Russian"@, "ru"@),
        ("Japanese"@, "ja"@),
        ("Chinese"@, "zh"@),
        ("Korean"@, "ko"@),
        ("Arabic"@, "ar"@),
        ("Hindi"@, "hi"@),
        ("Turkish"@, "tr"@),
        ("Polish"@, "pl"@),
        ("Ukrainian"@, "uk"@),
        ("Swedish"@, "sv"@),
        ("Norwegian"@, "no"@),
        ("Danish"@, "da"@),
        ("Finnish"@, "fi"@),
        ("Czech"@, "cs"@),
        ("Greek"@, "el"@),
        ("Hebrew"@, "he"@),
        ("Indonesian"@, "id"@),
        ("Vietnamese"@, "vi"@),
        ("Thai"@, "th"@),
        ("Romanian"@, "ro"@),
        ("Hungarian"@, "hu"@),
        ("Bulgarian"@, "bg"@),
        ("Croatian"@, "hr"@),
        ("Estonian"@, "et"@),
        ("Latvian"@, "lv"@),
        ("Lithuanian"@, "lt"@),
        ("Maltese"@, "mt"@),
        ("Slovak"@, "sk"@),
        ("Slovenian"@, "sl"@),
        ("Catalan"@, "ca"@),
    ]
}

/// The code of the first row of `table` named `language`.
pub open spec fn lookup(table: Seq<(Seq<char>, Seq<char>)>, language: Seq<char>) -> Option<Seq<char>>
    decreases table.len(),
{
    if table.len() == 0 {
        None
    } else if table[0].0 == language {
        Some(table[0].1)
    } else {
        lookup(table.drop_first(), language)
    }
}

/// The decoder's code for a language name of the settings; `None` for
/// Auto-detect and names it does not know.
pub fn language_code(language: &str) -> (r: Option<&'static str>)
    ensures
        match r {
            Some(code) => lookup(language_table(), language@) == Some(code@),
            None => lookup(language_table(), language@) is None,
        },
{
    let table: Vec<(&'static str, &'static str)> = vec![
        ("English", "en"),
        ("Spanish", "es"),
        ("French", "fr"),
        ("German", "de"),
        ("Italian", "it"),
        ("Portuguese", "pt"),
        ("Dutch", "nl"),
        ("Russian", "ru"),
        ("Japanese", "ja"),
        ("Chinese", "zh"),
        ("Korean", "ko"),
        ("Arabic", "ar"),
        ("Hindi", "hi"),
        ("Turkish", "tr"),
        ("Polish", "pl"),
        ("Ukrainian", "uk"),
        ("Swedish", "sv"),
        ("Norwegian", "no"),
        ("Danish", "da"),
        ("Finnish", "fi"),
        ("Czech", "cs"),
        ("Greek", "el"),
        ("Hebrew", "he"),
        ("Indonesian", "id"),
        ("Vietnamese", "vi"),
        ("Thai", "th"),
        ("Romanian", "ro"),
        ("Hungarian", "hu"),
        ("Bulgarian", "bg"),
        ("Croatian", "hr"),
        ("Estonian", "et"),
        ("Latvian", "lv"),
        ("Lithuanian", "lt"),
        ("Maltese", "mt"),
        ("Slovak", "sk"),
        ("Slovenian", "sl"),
        ("Catalan", "ca"),
    ];
    let ghost t = table@.map_values(|p: (&'static str, &'static str)| (p.0@, p.1@));
    assert(t =~= language_table());
    let mut i: usize = 0;
    assert(t.skip(0) =~= t);
    while i < table.len()
        invariant
            i <= table.len(),
            t == table@.map_values(|p: (&'static str, &'static str)| (p.0@, p.1@)),
            t == language_table(),
            lookup(t.skip(i as int), language@) == lookup(t, language@),
        decreases table.len() - i,
    {
        assert(t.skip(i as int).drop_first() =~= t.skip(i + 1));
        assert(t.skip(i as int)[0] == (table@[i as int].0@, table@[i as int].1@));
        if str_eq(table[i].0, language) {
            assert(lookup(t.skip(i as int), language@) == Some(table@[i as int].1@));
            return Some(table[i].1);
        }
        i += 1;
    }
    None
}

/// The language codes Canary 180M Flash transcribes, in the order the list gives them.
pub open spec fn canary_flash_codes() -> Seq<Seq<char>> {
    seq!["en"@, "de"@, "es"@, "fr"@]
}

/// Languages Canary 180M Flash transcribes.
pub fn canary_flash_languages() -> (v: Vec<&'static str>)
    ensures
        v@.map_values(|s: &'static str| s@) == canary_flash_codes(),
{
    let v = vec!["en", "de", "es", "fr"];
    assert(v@.map_values(|s: &'static str| s@) =~= canary_flash_codes());
    v
}

/// The language codes Canary 1B v2 transcribes, in the order the list gives them.
pub open spec fn canary_v2_codes() -> Seq<Seq<char>> {
    seq!["bg"@, "hr"@, "cs"@, "da"@, "nl"@, "en"@, "et"@, "fi"@, "fr"@, "de"@, "el"@, "hu"@, "it"@, "lv"@, "lt"@, "mt"@, "pl"@, "pt"@, "ro"@, "sk"@, "sl"@, "es"@, "sv"@, "ru"@, "uk"@]
}

/// Languages Canary 1B v2 transcribes.
pub fn canary_v2_languages() -> (v: Vec<&'static str>)
    ensures
        v@.map_values(|s: &'static str| s@) == canary_v2_codes(),
{
    let v = vec!["bg", "hr", "cs", "da", "nl", "en", "et", "fi", "fr", "de", "el", "hu", "it", "lv", "lt", "mt", "pl", "pt", "ro", "sk", "sl", "es", "sv", "ru", "uk"];
    assert(v@.map_values(|s: &'static str| s@) =~= canary_v2_codes());
    v
}

/// The language codes Cohere Transcribe transcribes, in the order the list gives them.
pub open spec fn cohere_codes() -> Seq<Seq<char>> {
    seq!["en"@, "de"@, "fr"@, "it"@, "es"@, "pt"@, "el"@, "nl"@, "pl"@, "ar"@, "vi"@, "zh"@, "ja"@, "ko"@]
}

/// Languages Cohere Transcribe transcribes.
pub fn cohere_languages() -> (v: Vec<&'static str>)
    ensures
        v@.map_values(|s: &'static str| s@) == cohere_codes(),
{
    let v = vec!["en", "de", "fr", "it", "es", "pt", "el", "nl", "pl", "ar", "vi", "zh", "ja", "ko"];
    assert(v@.map_values(|s: &'static str| s@) =~= cohere_codes());
    v
}

/// The language an encoder-decoder model is told: the chosen one when the
/// model knows it, else none (the model then assumes English).
pub fn prompt_language(language: Option<&str>, supported: &[&str]) -> (r: Option<String>)
    ensures
        match language {
            Some(code) => if supported@.map_values(|s: &str| s@).contains(code@) {
                r matches Some(out) && out@ == code@
            } else {
                r is None
            },
            None => r is None,
        },
{
    match language {
        None => None,
        Some(code) => {
            let ghost sv = supported@.map_values(|s: &str| s@);
            let mut i: usize = 0;
            while i < supported.len()
                invariant
                    i <= supported@.len(),
                    sv == supported@.map_values(|s: &str| s@),
                    language == Some(code),
                    forall|j: int| 0 <= j < i ==> sv[j] != code@,
                decreases supported@.len() - i,
            {
                if str_eq(supported[i], code) {
                    assert(sv.len() == supported@.len());
                    assert(sv[i as int] == code@);
                    assert(sv.contains(code@));
                    return Some(string_from(code));
                }
                i += 1;
            }
            None
        },
    }
}

/// What `decoder_language` returns. Voca Hinglish writes romanized Hindi
/// only when decoded as English, so it ignores the setting.
pub open spec fn decoder_language_spec(selected_model: Seq<char>, language: Seq<char>) -> Option<Seq<char>> {
    if selected_model == VOCA_HINGLISH@ {
        Some("en"@)
    } else {
        lookup(language_table(), language)
    }
}

pub fn decoder_language(selected_model: &str, language: &str) -> (r: Option<&'static str>)
    ensures
        match r {
            Some(code) => decoder_language_spec(selected_model@, language@) == Some(code@),
            None => decoder_language_spec(selected_model@, language@) is None,
        },
{
    if str_eq(selected_model, VOCA_HINGLISH) {
        Some("en")
    } else {
        language_code(language)
    }
}

/// The catalog's language label of `id`, if it is a catalog model.
pub open spec fn catalog_languages(id: Seq<char>) -> Option<Seq<char>> {
    let rows = catalog_rows();
    if exists|i: int| 0 <= i < rows.len() && rows[i].0 == id {
        Some(rows[choose|i: int| 0 <= i < rows.len() && rows[i].0 == id].1)
    } else {
        None
    }
}

/// What `text_language` returns: Hindi for Voca Hinglish (its text is
/// Hindi in Latin letters), else the chosen language, else English for an
/// English-only model.
pub open spec fn text_language_spec(selected_model: Seq<char>, language: Seq<char>) -> Option<Seq<char>> {
    if selected_model == VOCA_HINGLISH@ {
        Some("hi"@)
    } else {
        match lookup(language_table(), language) {
            Some(code) => Some(code),
            None => if catalog_languages(selected_model) == Some("English"@) {
                Some("en"@)
            } else {
                None
            },
        }
    }
}

/// The language the text rules may assume.
pub fn text_language(selected_model: &str, language: &str) -> (r: Option<&'static str>)
    ensures
        match r {
            Some(code) => text_language_spec(selected_model@, language@) == Some(code@),
            None => text_language_spec(selected_model@, language@) is None,
        },
{
    if str_eq(selected_model, VOCA_HINGLISH) {
        return Some("hi");
    }
    match language_code(language) {
        Some(code) => Some(code),
        None => {
            let catalog = model_catalog(false, false);
            let mut i: usize = 0;
            while i < catalog.len()
                invariant
                    i <= catalog@.len(),
                    catalog@.len() == catalog_rows().len(),
                    selected_model@ != VOCA_HINGLISH@,
                    lookup(language_table(), language@) is None,
                    forall|k: int|
                        0 <= k < catalog@.len() ==> row_matches(#[trigger] catalog@[k], catalog_rows()[k], false, false),
                    forall|j: int| 0 <= j < i ==> catalog_rows()[j].0 != selected_model@,
                decreases catalog@.len() - i,
            {
                assert(row_matches(catalog@[i as int], catalog_rows()[i as int], false, false));
                if str_eq(catalog[i].id, selected_model) {
                    proof {
                        law_catalog_ids_are_distinct();
                        let rows = catalog_rows();
                        assert(0 <= i < rows.len() && rows[i as int].0 == selected_model@);
                        let k = choose|k: int| 0 <= k < rows.len() && rows[k].0 == selected_model@;
                        if k < i {
                            assert(rows[k].0 != rows[i as int].0);
                        } else if k > i {
                            assert(rows[i as int].0 != rows[k].0);
                        }
                        assert(catalog_languages(selected_model@) == Some(catalog@[i as int].languages@));
                    }
                    if str_eq(catalog[i].languages, "English") {
                        return Some("en");
                    }
                    return None;
                }
                i += 1;
            }
            None
        },
    }
}

// ---------------------------------------------------------------------------
// Decoding with fallbacks
// ---------------------------------------------------------------------------

/// After a Parakeet decode with its lead-in: done with this result, or
/// (`None`) decode again without the lead-in because it returned nothing.
pub open spec fn parakeet_next_spec(first: Result<String, String>) -> Option<Result<String, String>> {
    match first {
        Err(e) => Some(Err(e)),
        Ok(t) => if trim(t@).len() > 0 {
            Some(Ok(t))
        } else {
            None
        },
    }
}

/// What follows a Parakeet decode with its lead-in.
#[derive(Debug, PartialEq, Eq)]
pub enum ParakeetStep {
    /// The take's result: no further decode.
    Done(Result<String, String>),
    /// It returned nothing: decode once more without the lead-in, and that
    /// result is the take's.
    DecodeWithoutLeadIn,
}

/// Parakeet's lead-in silence sometimes makes the int8 model return nothing
/// for a take the same audio without it decodes; only an empty result gets
/// the second pass, and an error is not retried.
pub fn parakeet_step(first: Result<String, String>) -> (s: ParakeetStep)
    ensures
        match first {
            Err(e) => s == ParakeetStep::Done(Err(e)),
            Ok(t) => if trim(t@).len() > 0 {
                s == ParakeetStep::Done(Ok(t))
            } else {
                s == ParakeetStep::DecodeWithoutLeadIn
            },
        },
{
    match first {
        Err(e) => ParakeetStep::Done(Err(e)),
        Ok(t) => {
            let v = chars_of(t.as_str());
            let kept = trim_chars(&v);
            if kept.len() > 0 {
                ParakeetStep::Done(Ok(t))
            } else {
                ParakeetStep::DecodeWithoutLeadIn
            }
        },
    }
}

/// Decodes a Parakeet take: `decode(true)` with the lead-in, then what
/// `parakeet_step` says: done, or one `decode(false)` whose result is the
/// take's.
pub fn decode_parakeet<F: FnMut(bool) -> Result<String, String>>(mut decode: F) -> (r: Result<String, String>)
    requires
        forall|f: F, with_lead_in: bool| #[trigger] call_requires(f, (with_lead_in,)),
    ensures
        exists|f1: F, first: Result<String, String>|
            call_ensures(f1, (true,), first) && match parakeet_next_spec(first) {
                Some(done) => r == done,
                None => exists|f2: F| call_ensures(f2, (false,), r),
            },
{
    let first = decode(true);
    match parakeet_step(first) {
        ParakeetStep::Done(r) => r,
        ParakeetStep::DecodeWithoutLeadIn => decode(false),
    }
}

/// What follows the first decode of an ONNX take.
#[derive(Debug, PartialEq, Eq)]
pub enum FallbackStep {
    /// The take's result, and whether DirectML is to blame for a failure.
    Done(Result<String, String>, bool),
    /// DirectML failed: decode once more on the CPU.
    DecodeOnCpu,
}

/// The first decode runs on DirectML when `gpu`, else on the CPU. A CPU
/// result, or a DirectML success, is final and blames nothing; a DirectML
/// failure is followed by one CPU decode.
pub fn fallback_step(gpu: bool, first: Result<String, String>) -> (s: FallbackStep)
    ensures
        !gpu ==> s == FallbackStep::Done(first, false),
        gpu && first is Ok ==> s == FallbackStep::Done(first, false),
        gpu && first is Err ==> s == FallbackStep::DecodeOnCpu,
{
    if !gpu {
        return FallbackStep::Done(first, false);
    }
    match first {
        Ok(t) => FallbackStep::Done(Ok(t), false),
        Err(_) => FallbackStep::DecodeOnCpu,
    }
}

/// After the CPU retry: its result is the take's, and DirectML is to blame
/// only when the CPU decoded what the GPU could not.
pub fn fallback_after_cpu(second: Result<String, String>) -> (r: (Result<String, String>, bool))
    ensures
        r.0 == second,
        r.1 == (second is Ok),
{
    let broken = second.is_ok();
    (second, broken)
}

/// Decodes an ONNX take: `decode(gpu)` first, then what `fallback_step`
/// says: done, or one `decode(false)` whose result `fallback_after_cpu`
/// reports.
pub fn decode_with_cpu_fallback<F: FnMut(bool) -> Result<String, String>>(gpu: bool, mut decode: F) -> (r: (Result<String, String>, bool))
    requires
        forall|f: F, on_gpu: bool| #[trigger] call_requires(f, (on_gpu,)),
    ensures
        !gpu ==> !r.1 && exists|f1: F| call_ensures(f1, (false,), r.0),
        gpu ==> exists|f1: F, first: Result<String, String>|
            call_ensures(f1, (true,), first) && match first {
                Ok(_) => r.0 == first && !r.1,
                Err(_) => (exists|f2: F| call_ensures(f2, (false,), r.0)) && r.1 == (r.0 is Ok),
            },
{
    let ghost before = decode;
    let first = decode(gpu);
    let ghost g = first;
    let r = match fallback_step(gpu, first) {
        FallbackStep::Done(result, blame) => (result, blame),
        FallbackStep::DecodeOnCpu => fallback_after_cpu(decode(false)),
    };
    proof {
        if !gpu {
            assert(r.0 == g);
            assert(call_ensures(before, (false,), r.0));
        }
    }
    r
}

/// Whether a take tries DirectML first: on Windows, for a model that uses
/// it, installed, with DirectML not yet failed in this run, and a GPU found.
pub fn onnx_tries_directml(model_id: &str, on_windows: bool, installed: bool, directml_failed: bool, gpu_available: bool) -> (r: bool)
    ensures
        r == (on_windows && uses_directml(model_id@) && installed && !directml_failed
            && gpu_available),
{
    on_windows && onnx_uses_directml(model_id) && installed && !directml_failed && gpu_available
}

// ---------------------------------------------------------------------------
// Laws of the catalog
// ---------------------------------------------------------------------------

/// No two catalog models share an id.
pub proof fn law_catalog_ids_are_distinct()
    ensures
        forall|i: int, j: int|
            0 <= i < j < catalog_rows().len() ==> #[trigger] catalog_rows()[i].0 != #[trigger] catalog_rows()[j].0,
{
    reveal_strlit("whisper-tiny");
    reveal_strlit("whisper-base");
    reveal_strlit("whisper-small");
    reveal_strlit("whisper-medium");
    reveal_strlit("whisper-large-v3");
    reveal_strlit("whisper-large-v3-turbo");
    reveal_strlit("distil-whisper-large-v3");
    reveal_strlit("voca-hinglish");
    reveal_strlit("parakeet-tdt-0.6b-v3");
    reveal_strlit("moonshine-tiny");
    reveal_strlit("moonshine-base");
    reveal_strlit("sensevoice-small");
    reveal_strlit("gigaam-v3");
    reveal_strlit("canary-180m");
    reveal_strlit("canary-1b-v2");
    reveal_strlit("cohere-transcribe");
    let rows = catalog_rows();
    assert forall|i: int, j: int| 0 <= i < j < rows.len() implies #[trigger] rows[i].0 != #[trigger] rows[j].0 by {
        if rows[i].0.len() == rows[j].0.len() {
            let a = rows[i].0;
            let b = rows[j].0;
            assert(exists|k: int| 0 <= k < a.len() && a[k] != b[k]) by {
                if a[0] != b[0] {
                    assert(a[0] != b[0]);
                } else if a[8] != b[8] {
                    assert(a[8] != b[8]);
                } else if a[9] != b[9] {
                    assert(a[9] != b[9]);
                } else {
                    assert(a[10] != b[10]);
                }
            }
        }
    }
}


/// A catalog model runs on whisper.cpp exactly when its id names a
/// whisper.cpp model, and decodes on DirectML exactly when its id is one
/// of the DirectML models.
pub proof fn law_catalog_engines_follow_ids()
    ensures
        forall|i: int|
            0 <= i < catalog_rows().len() ==> (#[trigger] catalog_rows()[i]).2 == whisper_model(
                catalog_rows()[i].0,
            ) && catalog_rows()[i].3 == uses_directml(catalog_rows()[i].0),
{
    reveal_strlit("whisper-tiny");
    reveal_strlit("whisper-base");
    reveal_strlit("whisper-small");
    reveal_strlit("whisper-medium");
    reveal_strlit("whisper-large-v3");
    reveal_strlit("whisper-large-v3-turbo");
    reveal_strlit("distil-whisper-large-v3");
    reveal_strlit("voca-hinglish");
    reveal_strlit("parakeet-tdt-0.6b-v3");
    reveal_strlit("moonshine-tiny");
    reveal_strlit("moonshine-base");
    reveal_strlit("sensevoice-small");
    reveal_strlit("gigaam-v3");
    reveal_strlit("canary-180m");
    reveal_strlit("canary-1b-v2");
    reveal_strlit("cohere-transcribe");
    reveal_strlit("whisper-");
    reveal_strlit("distil-whisper-");
    assert("whisper-tiny"@.subrange(0, 8) =~= "whisper-"@);
    assert("whisper-base"@.subrange(0, 8) =~= "whisper-"@);
    assert("whisper-small"@.subrange(0, 8) =~= "whisper-"@);
    assert("whisper-medium"@.subrange(0, 8) =~= "whisper-"@);
    assert("whisper-large-v3"@.subrange(0, 8) =~= "whisper-"@);
    assert("whisper-large-v3-turbo"@.subrange(0, 8) =~= "whisper-"@);
    assert("distil-whisper-large-v3"@.subrange(0, 15) =~= "distil-whisper-"@);
    lemma_first_char_differs("whisper-tiny"@, "parakeet-tdt-0.6b-v3"@);
    lemma_first_char_differs("whisper-tiny"@, "sensevoice-small"@);
    lemma_first_char_differs("whisper-base"@, "parakeet-tdt-0.6b-v3"@);
    lemma_first_char_differs("whisper-base"@, "sensevoice-small"@);
    lemma_first_char_differs("whisper-small"@, "parakeet-tdt-0.6b-v3"@);
    lemma_first_char_differs("whisper-small"@, "sensevoice-small"@);
    lemma_first_char_differs("whisper-medium"@, "parakeet-tdt-0.6b-v3"@);
    lemma_first_char_differs("whisper-medium"@, "sensevoice-small"@);
    lemma_first_char_differs("whisper-large-v3"@, "parakeet-tdt-0.6b-v3"@);
    lemma_first_char_differs("whisper-large-v3"@, "sensevoice-small"@);
    lemma_first_char_differs("whisper-large-v3-turbo"@, "parakeet-tdt-0.6b-v3"@);
    lemma_first_char_differs("whisper-large-v3-turbo"@, "sensevoice-small"@);
    lemma_first_char_differs("distil-whisper-large-v3"@, "parakeet-tdt-0.6b-v3"@);
    lemma_first_char_differs("distil-whisper-large-v3"@, "sensevoice-small"@);
    lemma_first_char_differs("voca-hinglish"@, "parakeet-tdt-0.6b-v3"@);
    lemma_first_char_differs("voca-hinglish"@, "sensevoice-small"@);
    lemma_first_char_differs("parakeet-tdt-0.6b-v3"@, "whisper-"@);
    lemma_first_char_differs("parakeet-tdt-0.6b-v3"@, "distil-whisper-"@);
    lemma_first_char_differs("parakeet-tdt-0.6b-v3"@, "voca-hinglish"@);
    lemma_first_char_differs("moonshine-tiny"@, "whisper-"@);
    lemma_first_char_differs("moonshine-tiny"@, "distil-whisper-"@);
    lemma_first_char_differs("moonshine-tiny"@, "voca-hinglish"@);
    lemma_first_char_differs("moonshine-tiny"@, "parakeet-tdt-0.6b-v3"@);
    lemma_first_char_differs("moonshine-tiny"@, "sensevoice-small"@);
    lemma_first_char_differs("moonshine-base"@, "whisper-"@);
    lemma_first_char_differs("moonshine-base"@, "distil-whisper-"@);
    lemma_first_char_differs("moonshine-base"@, "voca-hinglish"@);
    lemma_first_char_differs("moonshine-base"@, "parakeet-tdt-0.6b-v3"@);
    lemma_first_char_differs("moonshine-base"@, "sensevoice-small"@);
    lemma_first_char_differs("sensevoice-small"@, "whisper-"@);
    lemma_first_char_differs("sensevoice-small"@, "distil-whisper-"@);
    lemma_first_char_differs("sensevoice-small"@, "voca-hinglish"@);
    lemma_first_char_differs("gigaam-v3"@, "whisper-"@);
    lemma_first_char_differs("gigaam-v3"@, "distil-whisper-"@);
    lemma_first_char_differs("gigaam-v3"@, "voca-hinglish"@);
    lemma_first_char_differs("gigaam-v3"@, "parakeet-tdt-0.6b-v3"@);
    lemma_first_char_differs("gigaam-v3"@, "sensevoice-small"@);
    lemma_first_char_differs("canary-180m"@, "whisper-"@);
    lemma_first_char_differs("canary-180m"@, "distil-whisper-"@);
    lemma_first_char_differs("canary-180m"@, "voca-hinglish"@);
    lemma_first_char_differs("canary-180m"@, "parakeet-tdt-0.6b-v3"@);
    lemma_first_char_differs("canary-180m"@, "sensevoice-small"@);
    lemma_first_char_differs("canary-1b-v2"@, "whisper-"@);
    lemma_first_char_differs("canary-1b-v2"@, "distil-whisper-"@);
    lemma_first_char_differs("canary-1b-v2"@, "voca-hinglish"@);
    lemma_first_char_differs("canary-1b-v2"@, "parakeet-tdt-0.6b-v3"@);
    lemma_first_char_differs("canary-1b-v2"@, "sensevoice-small"@);
    lemma_first_char_differs("cohere-transcribe"@, "whisper-"@);
    lemma_first_char_differs("cohere-transcribe"@, "distil-whisper-"@);
    lemma_first_char_differs("cohere-transcribe"@, "voca-hinglish"@);
    lemma_first_char_differs("cohere-transcribe"@, "parakeet-tdt-0.6b-v3"@);
    lemma_first_char_differs("cohere-transcribe"@, "sensevoice-small"@);
    lemma_first_char_differs("voca-hinglish"@, "whisper-"@);
    lemma_first_char_differs("voca-hinglish"@, "distil-whisper-"@);
}

/// Every catalog model can be downloaded.
pub proof fn law_every_catalog_model_has_a_package()
    ensures
        forall|i: int| 0 <= i < catalog_rows().len() ==> (#[trigger] package_spec(catalog_rows()[i].0)) is Some,
{
    let rows = catalog_rows();
    assert forall|i: int| 0 <= i < rows.len() implies (#[trigger] package_spec(rows[i].0)) is Some by {
        assert(package_spec(rows[0].0) is Some);
        assert(package_spec(rows[1].0) is Some);
        assert(package_spec(rows[2].0) is Some);
        assert(package_spec(rows[3].0) is Some);
        assert(package_spec(rows[4].0) is Some);
        assert(package_spec(rows[5].0) is Some);
        assert(package_spec(rows[6].0) is Some);
        assert(package_spec(rows[7].0) is Some);
        assert(package_spec(rows[8].0) is Some);
        assert(package_spec(rows[9].0) is Some);
        assert(package_spec(rows[10].0) is Some);
        assert(package_spec(rows[11].0) is Some);
        assert(package_spec(rows[12].0) is Some);
        assert(package_spec(rows[13].0) is Some);
        assert(package_spec(rows[14].0) is Some);
        assert(package_spec(rows[15].0) is Some);
    }
}

/// Voca Hinglish is decoded as English whatever the language setting, and
/// its text is treated as Hindi.
pub proof fn law_voca_hinglish_is_pinned_to_english(language: Seq<char>)
    ensures
        decoder_language_spec(VOCA_HINGLISH@, language) == Some("en"@),
        text_language_spec(VOCA_HINGLISH@, language) == Some("hi"@),
        whisper_model(VOCA_HINGLISH@),
{
}

// ---------------------------------------------------------------------------
// Language names and codes
// ---------------------------------------------------------------------------

/// Length and first two characters: enough to tell the table's names apart,
/// and its codes.
spec fn lang_sig(s: Seq<char>) -> (nat, char, char) {
    (s.len(), s[0], s[1])
}

/// No row before `n` has the name `p`.
spec fn name_unseen(t: Seq<(Seq<char>, Seq<char>)>, p: Seq<char>, n: nat) -> bool
    decreases n,
{
    n == 0 || (lang_sig(t[n - 1].0) != lang_sig(p) && name_unseen(t, p, (n - 1) as nat))
}

/// No row before `n` has the code `c`.
spec fn code_unseen(t: Seq<(Seq<char>, Seq<char>)>, c: Seq<char>, n: nat) -> bool
    decreases n,
{
    n == 0 || (lang_sig(t[n - 1].1) != lang_sig(c) && code_unseen(t, c, (n - 1) as nat))
}

/// The first `n` rows have names and codes of their own.
spec fn language_rows_own(n: nat) -> bool
    decreases n,
{
    let t = language_table();
    n == 0 || (name_unseen(t, t[n - 1].0, (n - 1) as nat) && code_unseen(t, t[n - 1].1, (n - 1) as nat)
        && language_rows_own((n - 1) as nat))
}

#[verifier::rlimit(100)]
proof fn lemma_language_rows_own()
    ensures
        language_rows_own(37),
{
    reveal_strlit("English");
    reveal_strlit("en");
    reveal_strlit("Spanish");
    reveal_strlit("es");
    reveal_strlit("French");
    reveal_strlit("fr");
    reveal_strlit("German");
    reveal_strlit("de");
    reveal_strlit("Italian");
    reveal_strlit("it");
    reveal_strlit("Portuguese");
    reveal_strlit("pt");
    reveal_strlit("Dutch");
    reveal_strlit("nl");
    reveal_strlit("Russian");
    reveal_strlit("ru");
    reveal_strlit("Japanese");
    reveal_strlit("ja");
    reveal_strlit("Chinese");
    reveal_strlit("zh");
    reveal_strlit("Korean");
    reveal_strlit("ko");
    reveal_strlit("Arabic");
    reveal_strlit("ar");
    reveal_strlit("Hindi");
    reveal_strlit("hi");
    reveal_strlit("Turkish");
    reveal_strlit("tr");
    reveal_strlit("Polish");
    reveal_strlit("pl");
    reveal_strlit("Ukrainian");
    reveal_strlit("uk");
    reveal_strlit("Swedish");
    reveal_strlit("sv");
    reveal_strlit("Norwegian");
    reveal_strlit("no");
    reveal_strlit("Danish");
    reveal_strlit("da");
    reveal_strlit("Finnish");
    reveal_strlit("fi");
    reveal_strlit("Czech");
    reveal_strlit("cs");
    reveal_strlit("Greek");
    reveal_strlit("el");
    reveal_strlit("Hebrew");
    reveal_strlit("he");
    reveal_strlit("Indonesian");
    reveal_strlit("id");
    reveal_strlit("Vietnamese");
    reveal_strlit("vi");
    reveal_strlit("Thai");
    reveal_strlit("th");
    reveal_strlit("Romanian");
    reveal_strlit("ro");
    reveal_strlit("Hungarian");
    reveal_strlit("hu");
    reveal_strlit("Bulgarian");
    reveal_strlit("bg");
    reveal_strlit("Croatian");
    reveal_strlit("hr");
    reveal_strlit("Estonian");
    reveal_strlit("et");
    reveal_strlit("Latvian");
    reveal_strlit("lv");
    reveal_strlit("Lithuanian");
    reveal_strlit("lt");
    reveal_strlit("Maltese");
    reveal_strlit("mt");
    reveal_strlit("Slovak");
    reveal_strlit("sk");
    reveal_strlit("Slovenian");
    reveal_strlit("sl");
    reveal_strlit("Catalan");
    reveal_strlit("ca");
    reveal_with_fuel(name_unseen, 38);
    reveal_with_fuel(code_unseen, 38);
    reveal_with_fuel(language_rows_own, 38);
}

proof fn lemma_language_rows(n: nat)
    requires
        language_rows_own(n),
    ensures
        forall|i: int, j: int|
            0 <= i < j < n ==> #[trigger] language_table()[i].0 != #[trigger] language_table()[j].0
                && language_table()[i].1 != language_table()[j].1,
    decreases n,
{
    if n > 0 {
        lemma_language_rows((n - 1) as nat);
        lemma_unseen((n - 1) as nat);
    }
}

proof fn lemma_unseen(m: nat)
    requires
        name_unseen(language_table(), language_table()[m as int].0, m),
        code_unseen(language_table(), language_table()[m as int].1, m),
    ensures
        forall|i: int|
            0 <= i < m ==> #[trigger] language_table()[i].0 != language_table()[m as int].0
                && language_table()[i].1 != language_table()[m as int].1,
    decreases m,
{
    let t = language_table();
    if m > 0 {
        lemma_unseen_names(t, t[m as int].0, m);
        lemma_unseen_codes(t, t[m as int].1, m);
    }
}

proof fn lemma_unseen_names(t: Seq<(Seq<char>, Seq<char>)>, p: Seq<char>, n: nat)
    requires
        name_unseen(t, p, n),
    ensures
        forall|i: int| 0 <= i < n ==> #[trigger] t[i].0 != p,
    decreases n,
{
    if n > 0 {
        lemma_unseen_names(t, p, (n - 1) as nat);
    }
}

proof fn lemma_unseen_codes(t: Seq<(Seq<char>, Seq<char>)>, c: Seq<char>, n: nat)
    requires
        code_unseen(t, c, n),
    ensures
        forall|i: int| 0 <= i < n ==> #[trigger] t[i].1 != c,
    decreases n,
{
    if n > 0 {
        lemma_unseen_codes(t, c, (n - 1) as nat);
    }
}

/// `lookup` gives the code of the first row with the name.
proof fn lemma_lookup_at(t: Seq<(Seq<char>, Seq<char>)>, p: Seq<char>, j: int)
    requires
        0 <= j < t.len(),
        t[j].0 == p,
        forall|i: int| 0 <= i < j ==> #[trigger] t[i].0 != p,
    ensures
        lookup(t, p) == Some(t[j].1),
    decreases j,
{
    if j > 0 {
        let d = t.drop_first();
        assert forall|i: int| 0 <= i < j - 1 implies #[trigger] d[i].0 != p by {
            assert(d[i] == t[i + 1]);
        }
        lemma_lookup_at(d, p, j - 1);
        assert(t[0].0 != p);
    }
}

/// A code `lookup` gives is the code of a row with the name.
proof fn lemma_lookup_row(t: Seq<(Seq<char>, Seq<char>)>, p: Seq<char>)
    requires
        lookup(t, p) is Some,
    ensures
        exists|j: int| 0 <= j < t.len() && #[trigger] t[j].0 == p && t[j].1 == lookup(t, p)->0,
    decreases t.len(),
{
    if t[0].0 == p {
        assert(t[0].0 == p && t[0].1 == lookup(t, p)->0);
    } else {
        let d = t.drop_first();
        lemma_lookup_row(d, p);
        let j = choose|j: int| 0 <= j < d.len() && #[trigger] d[j].0 == p && d[j].1 == lookup(d, p)->0;
        assert(t[j + 1] == d[j]);
    }
}

/// Each language name gives its own code, and no two names give the same
/// one: `language_code` is one-to-one where it is defined.
pub proof fn law_language_codes_are_one_to_one(a: Seq<char>, b: Seq<char>)
    ensures
        lookup(language_table(), a) is Some && lookup(language_table(), a) == lookup(
            language_table(),
            b,
        ) ==> a == b,
        forall|j: int|
            0 <= j < language_table().len() ==> lookup(language_table(), #[trigger] language_table()[j].0)
                == Some(language_table()[j].1),
{
    let t = language_table();
    lemma_language_rows_own();
    lemma_language_rows(37);
    assert forall|j: int| 0 <= j < t.len() implies lookup(t, #[trigger] t[j].0) == Some(t[j].1) by {
        assert forall|i: int| 0 <= i < j implies #[trigger] t[i].0 != t[j].0 by {
            assert(t[i].0 != t[j].0);
        }
        lemma_lookup_at(t, t[j].0, j);
    }
    if lookup(t, a) is Some && lookup(t, a) == lookup(t, b) {
        lemma_lookup_row(t, a);
        lemma_lookup_row(t, b);
        let ja = choose|j: int| 0 <= j < t.len() && #[trigger] t[j].0 == a && t[j].1 == lookup(t, a)->0;
        let jb = choose|j: int| 0 <= j < t.len() && #[trigger] t[j].0 == b && t[j].1 == lookup(t, b)->0;
        if ja < jb {
            assert(t[ja].1 != t[jb].1);
        } else if jb < ja {
            assert(t[jb].1 != t[ja].1);
        }
    }
}

/// The rows whose codes are Canary 1B v2's, in that list's order.
spec fn canary_v2_rows() -> Seq<int> {
    seq![28int, 29, 20, 18, 6, 0, 30, 19, 2, 3, 21, 27, 4, 31, 32, 33, 14, 5, 26, 34, 35, 1, 16, 7, 15]
}

/// The names of the languages Canary 1B v2 transcribes, in the order of
/// its code list.
pub open spec fn canary_v2_names() -> Seq<Seq<char>> {
    seq!["Bulgarian"@, "Croatian"@, "Czech"@, "Danish"@, "Dutch"@, "English"@, "Estonian"@, "Finnish"@, "French"@, "German"@, "Greek"@, "Hungarian"@, "Italian"@, "Latvian"@, "Lithuanian"@, "Maltese"@, "Polish"@, "Portuguese"@, "Romanian"@, "Slovak"@, "Slovenian"@, "Spanish"@, "Swedish"@, "Russian"@, "Ukrainian"@]
}

/// `lookup` finds nothing when no row has the name.
proof fn lemma_lookup_none(t: Seq<(Seq<char>, Seq<char>)>, p: Seq<char>)
    requires
        forall|i: int| 0 <= i < t.len() ==> #[trigger] t[i].0 != p,
    ensures
        lookup(t, p) is None,
    decreases t.len(),
{
    if t.len() > 0 {
        let d = t.drop_first();
        assert forall|i: int| 0 <= i < d.len() implies #[trigger] d[i].0 != p by {
            assert(d[i] == t[i + 1]);
        }
        assert(t[0].0 != p);
        lemma_lookup_none(d, p);
    }
}

/// Every language Canary 1B v2 transcribes can be chosen by its name: the
/// names of its list give its codes, in order; "Auto-detect" names no
/// language.
pub proof fn law_every_canary_v2_language_can_be_chosen()
    ensures
        canary_v2_names().len() == canary_v2_codes().len(),
        forall|k: int|
            0 <= k < canary_v2_codes().len() ==> lookup(language_table(), #[trigger] canary_v2_names()[k])
                == Some(canary_v2_codes()[k]),
        lookup(language_table(), "Auto-detect"@) is None,
{
    let t = language_table();
    let rows = canary_v2_rows();
    law_language_codes_are_one_to_one(seq![], seq![]);
    assert forall|k: int| 0 <= k < canary_v2_codes().len() implies lookup(
        language_table(),
        #[trigger] canary_v2_names()[k],
    ) == Some(canary_v2_codes()[k]) by {
        let j = rows[k];
        assert(0 <= j < t.len() && t[j].1 == canary_v2_codes()[k] && t[j].0 == canary_v2_names()[k]);
        assert(lookup(t, t[j].0) == Some(t[j].1));
    }
    reveal_strlit("English");
    reveal_strlit("Spanish");
    reveal_strlit("French");
    reveal_strlit("German");
    reveal_strlit("Italian");
    reveal_strlit("Portuguese");
    reveal_strlit("Dutch");
    reveal_strlit("Russian");
    reveal_strlit("Japanese");
    reveal_strlit("Chinese");
    reveal_strlit("Korean");
    reveal_strlit("Arabic");
    reveal_strlit("Hindi");
    reveal_strlit("Turkish");
    reveal_strlit("Polish");
    reveal_strlit("Ukrainian");
    reveal_strlit("Swedish");
    reveal_strlit("Norwegian");
    reveal_strlit("Danish");
    reveal_strlit("Finnish");
    reveal_strlit("Czech");
    reveal_strlit("Greek");
    reveal_strlit("Hebrew");
    reveal_strlit("Indonesian");
    reveal_strlit("Vietnamese");
    reveal_strlit("Thai");
    reveal_strlit("Romanian");
    reveal_strlit("Hungarian");
    reveal_strlit("Bulgarian");
    reveal_strlit("Croatian");
    reveal_strlit("Estonian");
    reveal_strlit("Latvian");
    reveal_strlit("Lithuanian");
    reveal_strlit("Maltese");
    reveal_strlit("Slovak");
    reveal_strlit("Slovenian");
    reveal_strlit("Catalan");
    reveal_strlit("Auto-detect");
    reveal_with_fuel(name_unseen, 38);
    assert(name_unseen(t, "Auto-detect"@, 37));
    lemma_unseen_names(t, "Auto-detect"@, 37);
    lemma_lookup_none(t, "Auto-detect"@);
}

} // verus!
