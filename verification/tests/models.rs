use vocawin::models::{
    fallback_after_cpu, fallback_step, parakeet_step, FallbackStep, ParakeetStep,
    archive_payload_is_inner_dir, download_start, file_progress_range, is_archive_junk, DownloadStart,
    canary_flash_languages, canary_v2_languages, cohere_languages, decode_parakeet,
    decode_with_cpu_fallback, decoder_language, download_staging_name, gpu_backends_summary,
    is_whisper_model, language_code, model_catalog, model_entry_name, model_is_installed,
    model_package, onnx_acceleration, onnx_tries_directml, onnx_uses_directml, prompt_language,
    text_language, url_host, whisper_acceleration, ModelEntry, ModelPackage, VOCA_HINGLISH,
};

#[test]
fn a_failed_parakeet_decode_is_not_retried() {
    let mut calls = 0;
    let text = decode_parakeet(|_| {
        calls += 1;
        Err("Parakeet transcription failed: boom".into())
    });
    assert_eq!(text, Err("Parakeet transcription failed: boom".into()));
    assert_eq!(calls, 1);
}

#[test]
fn parakeet_text_from_the_usual_decode_is_kept() {
    let mut calls = Vec::new();
    let text = decode_parakeet(|lead_in| {
        calls.push(lead_in);
        Ok("I have a dream.".into())
    });
    assert_eq!(text, Ok("I have a dream.".into()));
    assert_eq!(calls, vec![true]);
}

#[test]
fn an_empty_parakeet_decode_retries_without_the_lead_in() {
    let mut calls = Vec::new();
    let text = decode_parakeet(|lead_in| {
        calls.push(lead_in);
        Ok(if lead_in {
            "  ".into()
        } else {
            "Everything that money can buy.".into()
        })
    });
    assert_eq!(text, Ok("Everything that money can buy.".into()));
    assert_eq!(calls, vec![true, false]);
    assert_eq!(decode_parakeet(|_| Ok(String::new())), Ok(String::new()));
}

#[test]
fn catalog_has_unique_ids_and_voca_engines() {
    for (vulkan, windows) in [(false, false), (true, true), (false, true), (true, false)] {
        let catalog = model_catalog(vulkan, windows);
        let mut ids: Vec<_> = catalog.iter().map(|m| m.id).collect();
        ids.sort();
        ids.dedup();
        assert_eq!(ids.len(), catalog.len());
        assert!(catalog.iter().any(|m| m.engine == "whisper.cpp"));
        assert!(catalog.iter().any(|m| m.engine == "ONNX Runtime"));
        assert!(catalog.iter().all(|m| model_package(m.id).is_some()));
        assert!(!catalog
            .iter()
            .any(|m| m.id.contains("vosk") || m.id.contains("ctc")));
    }
}

#[test]
fn voca_hinglish_is_a_whisper_model_pinned_to_english() {
    assert!(is_whisper_model(VOCA_HINGLISH));
    assert!(matches!(
        model_package(VOCA_HINGLISH),
        Some(ModelPackage::GgmlBin { .. })
    ));
    assert_eq!(model_entry_name(VOCA_HINGLISH), "voca-hinglish.bin");
    for language in ["Hindi", "Auto-detect", "English", "German"] {
        assert_eq!(decoder_language(VOCA_HINGLISH, language), Some("en"), "{language}");
        assert_eq!(text_language(VOCA_HINGLISH, language), Some("hi"), "{language}");
    }
    assert_eq!(decoder_language("whisper-small", "Hindi"), Some("hi"));
}

#[test]
fn directml_success_needs_no_cpu_pass() {
    let mut calls = Vec::new();
    let (result, broken) = decode_with_cpu_fallback(true, |gpu| {
        calls.push(gpu);
        Ok("text".into())
    });
    assert_eq!(result, Ok("text".into()));
    assert!(!broken);
    assert_eq!(calls, vec![true]);
}

#[test]
fn directml_is_blamed_only_when_cpu_then_decodes() {
    let (result, broken) = decode_with_cpu_fallback(true, |gpu| {
        if gpu {
            Err("DirectML device lost".into())
        } else {
            Ok("text".into())
        }
    });
    assert_eq!(result, Ok("text".into()));
    assert!(broken);

    let mut calls = Vec::new();
    let (result, broken) = decode_with_cpu_fallback(true, |gpu| {
        calls.push(gpu);
        Err(format!("Could not load Parakeet ({gpu})"))
    });
    assert_eq!(result, Err("Could not load Parakeet (false)".into()));
    assert!(!broken);
    assert_eq!(calls, vec![true, false]);
}

#[test]
fn cpu_only_decodes_once() {
    let mut calls = Vec::new();
    let (result, broken) = decode_with_cpu_fallback(false, |gpu| {
        calls.push(gpu);
        Err("bad audio".into())
    });
    assert_eq!(result, Err("bad audio".into()));
    assert!(!broken);
    assert_eq!(calls, vec![false]);
}

#[test]
fn encoder_decoder_models_are_told_the_chosen_language() {
    let flash = canary_flash_languages();
    assert_eq!(prompt_language(Some("de"), &flash).as_deref(), Some("de"));
    assert_eq!(prompt_language(Some("it"), &flash), None);
    assert_eq!(prompt_language(None, &flash), None);
    assert_eq!(
        prompt_language(Some("it"), &canary_v2_languages()).as_deref(),
        Some("it")
    );
    assert_eq!(
        prompt_language(Some("ja"), &cohere_languages()).as_deref(),
        Some("ja")
    );
    assert_eq!(prompt_language(Some("hi"), &cohere_languages()), None);
}

#[test]
fn every_canary_v2_language_can_be_chosen() {
    let chosen: Vec<_> = [
        "English", "Spanish", "French", "German", "Italian", "Portuguese", "Dutch", "Russian",
        "Polish", "Ukrainian", "Swedish", "Danish", "Finnish", "Czech", "Greek", "Romanian",
        "Hungarian", "Bulgarian", "Croatian", "Estonian", "Latvian", "Lithuanian", "Maltese",
        "Slovak", "Slovenian",
    ]
    .iter()
    .filter_map(|name| language_code(name))
    .collect();
    let v2 = canary_v2_languages();
    assert_eq!(chosen.len(), v2.len());
    assert!(v2.iter().all(|code| chosen.contains(code)));
}

#[test]
fn new_onnx_models_download_what_their_loader_opens() {
    for (id, needed) in [
        (
            "canary-1b-v2",
            &["encoder-model.int8.onnx", "decoder-model.int8.onnx", "nemo128.onnx", "vocab.txt"][..],
        ),
        (
            "cohere-transcribe",
            &[
                "cohere-encoder.int4.onnx",
                "cohere-encoder.int4.onnx.data",
                "cohere-decoder.int4.onnx",
                "cohere-decoder.int4.onnx.data",
                "tokens.txt",
            ][..],
        ),
    ] {
        let Some(ModelPackage::Files { files }) = model_package(id) else {
            panic!("{id} should download flat files");
        };
        let names: Vec<_> = files.iter().map(|(name, _)| *name).collect();
        assert_eq!(names.len(), needed.len(), "{id}");
        assert!(needed.iter().all(|file| names.contains(file)), "{id}");
        assert!(files.iter().all(|(name, url)| url.ends_with(name) && !url.contains("/main/")), "{id}");
        let mut entry = ModelEntry {
            is_file: false,
            exists: true,
            files: Vec::new(),
        };
        for file in needed {
            assert!(!model_is_installed(id, &entry), "{id} before {file}");
            entry.files.push(file.to_string());
        }
        assert!(model_is_installed(id, &entry), "{id}");
    }
}

#[test]
fn onnx_directml_label_matches_the_models_that_use_it() {
    for windows in [false, true] {
        let onnx: Vec<_> = model_catalog(false, windows)
            .into_iter()
            .filter(|model| model.engine == "ONNX Runtime")
            .collect();
        assert!(!onnx.is_empty());
        for model in onnx {
            let expected = if windows && onnx_uses_directml(model.id) {
                "CPU · DirectML"
            } else {
                "CPU"
            };
            assert_eq!(model.acceleration, expected, "{}", model.id);
            assert_eq!(onnx_acceleration(model.id, windows), expected);
        }
    }
    assert!(onnx_uses_directml("parakeet-tdt-0.6b-v3"));
    assert!(!onnx_uses_directml("canary-180m"));
    assert!(!onnx_uses_directml("moonshine-base"));
    assert!(!onnx_uses_directml("whisper-tiny"));
}

#[test]
fn whisper_acceleration_matches_vulkan_cfg() {
    for vulkan in [false, true] {
        let expected = if vulkan { "CPU · Vulkan" } else { "CPU" };
        assert_eq!(whisper_acceleration(vulkan), expected);
        assert!(model_catalog(vulkan, true)
            .iter()
            .filter(|model| model.engine == "whisper.cpp")
            .all(|model| model.acceleration == expected));
        let backends = gpu_backends_summary(vulkan, true);
        assert!(backends.contains(&"CPU fallback"));
        if vulkan {
            assert!(backends.iter().any(|b| b.contains("Vulkan")));
        } else {
            assert!(!backends.iter().any(|b| b.contains("Vulkan")));
        }
    }
}

#[test]
fn download_staging_path_never_equals_a_partial_tar_dest() {
    let staging = download_staging_name(Some("gigaam-v3.tar.gz.partial"));
    assert_ne!(staging, "gigaam-v3.tar.gz.partial");
    assert_eq!(staging, "gigaam-v3.tar.gz.partial.part");
    assert_eq!(download_staging_name(Some("whisper-tiny.bin")), "whisper-tiny.bin.part");
    assert_eq!(download_staging_name(Some("encoder_model.onnx")), "encoder_model.onnx.part");
    assert_eq!(download_staging_name(None), "download.part");
    assert_eq!(
        url_host("https://blob.handy.computer/giga-am-v3-int8.tar.gz"),
        "blob.handy.computer"
    );
    assert_eq!(url_host("no-scheme/path"), "no-scheme");
    assert_eq!(url_host("https:///x"), "https:///x");
}

#[test]
fn installation_follows_each_models_loader() {
    let whisper = ModelEntry { is_file: true, exists: true, files: Vec::new() };
    assert!(model_is_installed("whisper-base", &whisper));
    let dir = ModelEntry { is_file: false, exists: true, files: vec!["model.onnx".into(), "vocab.txt".into()] };
    assert!(model_is_installed("gigaam-v3", &dir));
    assert!(!model_is_installed("whisper-base", &dir));
    assert!(!model_is_installed("sensevoice-small", &dir));
    assert!(model_is_installed("unknown-model", &dir));
    assert_eq!(model_entry_name("moonshine-base"), "moonshine-base");
    assert_eq!(language_code("Auto-detect"), None);
    assert_eq!(language_code("Catalan"), Some("ca"));
    assert_eq!(text_language("moonshine-tiny", "Auto-detect"), Some("en"));
    assert_eq!(text_language("parakeet-tdt-0.6b-v3", "Auto-detect"), None);
    assert!(onnx_tries_directml("sensevoice-small", true, true, false, true));
    assert!(!onnx_tries_directml("sensevoice-small", true, true, true, true));
    assert!(!onnx_tries_directml("canary-180m", true, true, false, true));
}

#[test]
fn downloads_start_once_and_share_the_progress_bar() {
    assert_eq!(
        download_start(false, false, false).unwrap_err(),
        "In-app download is not available for this model."
    );
    assert_eq!(download_start(true, true, true), Ok(DownloadStart::AlreadyInstalled));
    assert_eq!(download_start(true, false, true).unwrap_err(), "This model is already downloading");
    assert_eq!(download_start(true, false, false), Ok(DownloadStart::Begin));
    assert_eq!(file_progress_range(0, 1), (0, 99));
    assert_eq!(file_progress_range(0, 4), (0, 24));
    assert_eq!(file_progress_range(3, 4), (72, 96));
    assert_eq!(file_progress_range(4, 5), (76, 95));
}

#[test]
fn archive_junk_is_skipped_and_single_folders_unwrapped() {
    assert!(is_archive_junk("._encoder.onnx"));
    assert!(is_archive_junk(".DS_Store"));
    assert!(!is_archive_junk("encoder.onnx"));
    assert!(!is_archive_junk(".ds_store"));
    assert!(archive_payload_is_inner_dir(1, true));
    assert!(!archive_payload_is_inner_dir(1, false));
    assert!(!archive_payload_is_inner_dir(3, true));
}

#[test]
fn the_catalog_names_sizes_and_describes_each_model() {
    let catalog = model_catalog(false, false);
    assert_eq!(catalog[0].name, "Whisper Tiny");
    assert_eq!(catalog[0].size, "75 MB");
    assert_eq!(catalog[15].name, "Cohere Transcribe");
    assert_eq!(catalog[15].size, "1.9 GB");
    assert!(catalog[14].description.starts_with("Larger Canary"));
}

#[test]
fn language_names_give_distinct_codes() {
    let names = [
        "English", "Spanish", "French", "German", "Italian", "Portuguese", "Dutch", "Russian",
        "Japanese", "Chinese", "Korean", "Arabic", "Hindi", "Turkish", "Polish", "Ukrainian",
        "Swedish", "Norwegian", "Danish", "Finnish", "Czech", "Greek", "Hebrew", "Indonesian",
        "Vietnamese", "Thai", "Romanian", "Hungarian", "Bulgarian", "Croatian", "Estonian",
        "Latvian", "Lithuanian", "Maltese", "Slovak", "Slovenian", "Catalan",
    ];
    let codes: Vec<&str> = names.iter().filter_map(|n| language_code(n)).collect();
    assert_eq!(codes.len(), names.len());
    for (i, a) in codes.iter().enumerate() {
        for b in &codes[i + 1..] {
            assert_ne!(a, b);
        }
    }
    assert_eq!(language_code("Auto-detect"), None);
}

#[test]
fn each_decode_result_fixes_the_next_call() {
    assert_eq!(parakeet_step(Ok("hello".into())), ParakeetStep::Done(Ok("hello".into())));
    assert_eq!(parakeet_step(Err("boom".into())), ParakeetStep::Done(Err("boom".into())));
    assert_eq!(parakeet_step(Ok("  ".into())), ParakeetStep::DecodeWithoutLeadIn);
    assert_eq!(fallback_step(false, Err("cpu".into())), FallbackStep::Done(Err("cpu".into()), false));
    assert_eq!(fallback_step(true, Ok("t".into())), FallbackStep::Done(Ok("t".into()), false));
    assert_eq!(fallback_step(true, Err("dml".into())), FallbackStep::DecodeOnCpu);
    assert_eq!(fallback_after_cpu(Ok("t".into())), (Ok("t".into()), true));
    assert_eq!(fallback_after_cpu(Err("e".into())), (Err("e".into()), false));
}
