use companion_api::doctor::{
    benchmark, diagnose, health_word, metric_excerpt, setup_status, worst_of, Findings, Health,
};
use companion_api::fit::{
    batched_fit_holds, choose_micro_batch, confirming_probe, confirms, contrary_probes,
    free_vram_mib, micro_batch_sizes, plan_fit, requested_context, unavailable, AtRequested,
    Choice, Combination, Fit, FitDecision, FitPlan, FitPurpose, FitSearch, Placed, Placement,
    SizeAnswers,
};
use companion_api::load::{
    apply_fit_decision, base_inference_config, Drafting, LoadSettings, RuntimePolicy,
};
use companion_api::types::Message;

fn combinations() -> Vec<Combination> {
    vec![
        Combination { cache: "f16".into(), margin: 1024 },
        Combination { cache: "q8_0".into(), margin: 1024 },
        Combination { cache: "q8_0".into(), margin: 512 },
    ]
}

fn search(keeps_requested: bool, draft_head: bool) -> FitSearch {
    FitSearch::new(32_768, combinations(), keeps_requested, None, draft_head, 900, 3)
}

#[test]
fn the_preferred_setting_is_asked_first() {
    let mut s = search(false, true);
    let first = s.first_probes();
    assert_eq!(first.len(), 1);
    assert_eq!((first[0].context, first[0].margin_mib, first[0].micro_batch), (32_768, 1924, 512));
    assert!(s.rest_probes(&[Ok(Fit::AllLayers)]).is_empty(), "it fits: nothing else is asked");
    assert!(!s.batched);
    let rest = s.rest_probes(&[Ok(Fit::Layers(20))]);
    assert_eq!(rest.len(), 2);
    assert_eq!(rest[1].margin_mib, 1412);
    assert!(s.batched);
}

#[test]
fn the_draft_head_is_dropped_before_layers_are() {
    let mut s = search(false, true);
    let partial = [Ok(Fit::Layers(20)), Ok(Fit::Layers(21)), Ok(Fit::Layers(22))];
    assert_eq!(s.read_requested(&partial), AtRequested::Retry);
    assert!(s.draft_head_dropped);
    assert_eq!(s.reserve, 0);
    assert!(s.notes[0].contains("draft head is off for this load"));
    assert!(s.notes[0].contains("32,768 tokens"));
    assert_eq!(
        s.read_requested(&partial),
        AtRequested::Fits(vec![Fit::Layers(20), Fit::Layers(21), Fit::Layers(22)])
    );
    let settled = [Ok(Fit::Layers(20)), Ok(Fit::AllLayers), Ok(Fit::Layers(22))];
    assert_eq!(
        search(false, true).read_requested(&settled),
        AtRequested::Fits(vec![Fit::Layers(20), Fit::AllLayers])
    );
    match search(false, false).read_requested(&[Err("no tool".into())]) {
        AtRequested::Unavailable(notes) => assert_eq!(notes, unavailable("no tool")),
        other => panic!("{other:?}"),
    }
}

#[test]
fn a_context_is_kept_or_shrunk() {
    let mut kept = search(true, false);
    match kept.pick(Some((1, Fit::Layers(20)))) {
        Choice::Settled(p) => {
            assert_eq!((p.context, p.at, p.placement), (32_768, 1, Placement::Hybrid));
        }
        other => panic!("{other:?}"),
    }
    assert!(kept.notes[0].starts_with("Context kept at 32768 tokens as set;"));
    let mut s = search(false, false);
    assert!(matches!(s.pick(None), Choice::Unavailable));
    assert!(matches!(s.pick(Some((0, Fit::Layers(20)))), Choice::Shrink));
    assert!(matches!(s.pick(Some((0, Fit::AllLayers))), Choice::Settled(_)));
    let better = s.headroom_probes(16_384);
    assert_eq!(better.len(), 2, "the settings preferred to the most permissive one");
    let p = s.shrunk(16_384, &[Ok(Fit::Layers(3)), Ok(Fit::AllLayers)]);
    assert_eq!((p.context, p.at, p.placement), (16_384, 1, Placement::Gpu));
    assert_eq!(s.shrunk(16_384, &[Ok(Fit::Layers(3)), Ok(Fit::Layers(4))]).at, 2);
    let never = s.never_fits(2, Fit::Layers(9));
    assert_eq!((never.context, never.at), (32_768, 2));
    assert!(s.notes[0].starts_with("No setting keeps every layer on the GPU even at 4096 tokens"));
}

#[test]
fn a_smaller_context_keeps_every_layer() {
    // Some setting keeps every layer: the request stands, whatever was asked.
    let row = [Ok(Fit::Layers(20)), Ok(Fit::AllLayers)];
    let settled = Choice::Settled(Placed {
        context: 32_768,
        at: 1,
        placement: Placement::Gpu,
        fit: Fit::AllLayers,
    });
    for keeps in [true, false] {
        let mut s = search(keeps, false);
        assert_eq!(
            s.read_requested(&row),
            AtRequested::Fits(vec![Fit::Layers(20), Fit::AllLayers])
        );
        assert_eq!(s.pick(Some((1, Fit::AllLayers))), settled);
    }
    // None does: a smaller context comes with every layer on the GPU.
    let mut s = search(false, false);
    assert_eq!(s.pick(Some((1, Fit::Layers(20)))), Choice::Shrink);
    let smaller = s.shrunk(8192, &[Ok(Fit::Layers(30)), Err("x".into())]);
    let d = s.decide(smaller, None).0;
    assert_eq!((d.context, d.placement, d.fit), (8192, Placement::Gpu, Fit::AllLayers));
    // Not even then: the request stays.
    let mut s = search(false, false);
    let never = s.never_fits(0, Fit::ExpertsOnCpu { blocks: 4, layers: 30 });
    let d = s.decide(never, None).0;
    assert_eq!((d.context, d.placement), (32_768, Placement::Hybrid));
    assert!(d.notes.is_empty());
}

fn answers(fits: Vec<Option<Fit>>, calibrated_fits: bool, default_size: u32) -> SizeAnswers {
    SizeAnswers { fits, calibrated_fits, default_size, free_blocks: 1 }
}

#[test]
fn the_micro_batch_follows_the_calibration_where_it_holds() {
    assert_eq!(micro_batch_sizes(None), vec![1024]);
    assert_eq!(micro_batch_sizes(Some((2048, 0))), vec![2048, 1024]);
    assert!(micro_batch_sizes(Some((512, 0))).is_empty());
    let all = Fit::AllLayers;
    let chosen = choose_micro_batch(
        "Micro-batch of ",
        Some((2048, 0)),
        all,
        &answers(vec![Some(all), Some(all)], true, 1024),
    );
    assert_eq!(chosen.size, 2048);
    assert!(chosen.note.starts_with("Micro-batch of 2,048 tokens while reading prompts, from this"));
    let set_aside = choose_micro_batch(
        "Micro-batch of ",
        Some((2048, 0)),
        all,
        &answers(vec![Some(Fit::Layers(3)), Some(all)], false, 1024),
    );
    assert_eq!((set_aside.size, set_aside.fit), (1024, all));
    assert!(set_aside.note.contains("This model's calibration chose 2,048, but"));
    let plain = choose_micro_batch("M ", None, Fit::Layers(5), &answers(vec![None], false, 512));
    assert_eq!((plain.size, plain.fit), (512, Fit::Layers(5)));
    assert!(plain.note.ends_with("the fit at 1,024 could not be measured."));
}

fn decision(fit: Fit) -> FitDecision {
    let mut s = search(false, false);
    let placed = Placed {
        context: 16_384,
        at: 1,
        placement: if fit == Fit::AllLayers { Placement::Gpu } else { Placement::Hybrid },
        fit,
    };
    assert_eq!(s.size_probes(&placed, true).len(), 1);
    assert!(s.size_probes(&placed, false).is_empty());
    let size = choose_micro_batch("M ", None, fit, &answers(vec![Some(fit)], false, 1024));
    s.decide(placed, Some(size)).0
}

#[test]
fn a_remembered_fit_is_confirmed_before_it_is_used() {
    assert_eq!(plan_fit(FitPurpose::Load, false, false), FitPlan::Search);
    assert_eq!(plan_fit(FitPurpose::Load, true, true), FitPlan::Confirm);
    let d = decision(Fit::AllLayers);
    assert_eq!((d.context, d.cache.as_str(), d.margin), (16_384, "q8_0", 1024));
    assert_eq!(d.micro_batch, Some(1024));
    let probe = confirming_probe(&d, false, 900);
    assert_eq!((probe.context, probe.margin_mib), (16_384, 1024));
    assert!(confirms(&d, &Ok(Fit::AllLayers)));
    assert!(!confirms(&d, &Ok(Fit::Layers(3))));
    assert!(!confirms(&d, &Err("x".into())));
    let contrary = contrary_probes(&d, &combinations(), 32_768, false, 900);
    let none_full: Vec<Result<Fit, String>> =
        contrary.iter().map(|_| Ok(Fit::Layers(3))).collect();
    assert!(batched_fit_holds(&d, &Ok(Fit::AllLayers), &none_full));
    assert!(!batched_fit_holds(&d, &Ok(Fit::Layers(3)), &none_full));
    assert_eq!((requested_context(32_768, 8192), requested_context(4096, 8192)), (8192, 4096));
    assert_eq!((requested_context(32_768, 0), requested_context(0, 8192)), (1, 1));
    assert_eq!(free_vram_mib(8 << 30, 6 << 30), 2048);
    assert_eq!(free_vram_mib(1, 2), 0);
}

#[test]
fn a_fit_decides_the_load() {
    let settings = LoadSettings {
        context_size: 32_768,
        batch_size: 512,
        cpu_threads: 8,
        threads_batch: 8,
        poll: None,
        priority: None,
        gpu_layers: -1,
        flash_attention: true,
        kv_cache_gpu: true,
        top_k: 40,
    };
    let mut cfg = base_inference_config(
        &settings,
        "/m".into(),
        None,
        None,
        None,
        None,
        "off".into(),
        "f16".into(),
    );
    cfg.runtime_policy = Some(RuntimePolicy {
        speculative: "off".into(),
        spec_draft_n_max: None,
        effective_context: 32_768,
        cache_type_k: "f16".into(),
        cache_type_v: "f16".into(),
        placement: "hybrid".into(),
        threads: 8,
        context_note: None,
        notes: vec!["Context reduced to guess.".into(), "kept".into()],
    });
    let drafting = Drafting { draft_head: "mtp".into(), plain: "ngram".into() };
    apply_fit_decision(&decision(Fit::AllLayers), 32_768, &mut cfg, None, &drafting);
    assert_eq!((cfg.n_ctx, cfg.kv_cache_type_k.as_str()), (16_384, "q8_0"));
    assert_eq!((cfg.fit_target_mib, cfg.micro_batch), (Some(1024), Some(1024)));
    let policy = cfg.runtime_policy.unwrap();
    assert_eq!((policy.effective_context, policy.placement.as_str()), (16_384, "gpu"));
    assert_eq!(policy.notes[0], "kept", "the estimate's notes give way to the measured ones");
    assert!(policy.context_note.is_some());
}

fn findings() -> Findings {
    Findings {
        conversations: Ok(2),
        models_dir: "/models".into(),
        models_dir_there: true,
        models: 1,
        models_with_file: 1,
        runtime: Ok(()),
        running: true,
        model: Some("tiny".into()),
        ram_enough: true,
        ram_available: "12.0".into(),
        ram_total: "32.0".into(),
        vram: Some(("1.0".into(), "8.0".into())),
        projects: Ok((1, vec![])),
        tools: 12,
        search_provider: "duckduckgo".into(),
        artifacts_dir: "/artifacts".into(),
        artifacts: Ok(()),
    }
}

#[test]
fn doctor_reports_rows() {
    let rows = diagnose(&findings());
    assert_eq!(rows.len(), 12);
    assert_eq!(worst_of(&rows), Health::Good);
    let ids: Vec<&str> = rows.iter().map(|r| r.id).collect();
    assert_eq!(
        ids,
        vec![
            "backend", "database", "models_dir", "models", "sidecar", "inference", "memory", "gpu",
            "workspaces", "tools", "search", "artifacts"
        ]
    );
    assert_eq!(rows[1].detail, "SQLite readable (2 conversations)");
    assert_eq!(rows[5].detail, "running (tiny)");
    assert_eq!(rows[7].detail, "nvidia-smi: 1.0 / 8.0 GB used");
    let warned = diagnose(&Findings {
        running: false,
        models: 0,
        projects: Ok((2, vec!["a".into(), "b".into()])),
        vram: None,
        runtime: Err("no binary".into()),
        ..findings()
    });
    assert_eq!(worst_of(&warned), Health::Warned);
    assert_eq!(warned[8].detail, "missing dirs: a, b");
    assert_eq!(warned[5].detail, "idle — load a model to start");
    let failed = diagnose(&Findings {
        conversations: Err("locked".into()),
        artifacts: Err("read-only".into()),
        projects: Err("locked".into()),
        models_dir_there: false,
        ..findings()
    });
    assert_eq!(failed.len(), 12, "a broken part never hides the others");
    assert_eq!(worst_of(&failed), Health::Failed);
    assert_eq!(failed[2].detail, "missing: /models");
    assert_eq!(worst_of(&[]), Health::Good);
    assert_eq!(health_word(Health::Failed), "fail");
    assert_eq!((health_word(Health::Good), health_word(Health::Warned)), ("ok", "warn"));
}

#[test]
fn setup_status_shape_and_benchmark_needs_sidecar() {
    let (steps, needs_setup) = setup_status(true, 0, false, 3);
    let done: Vec<bool> = steps.iter().map(|s| s.done).collect();
    assert_eq!(done, vec![true, true, false, false, true]);
    assert!(needs_setup);
    assert!(!setup_status(true, 1, false, 0).1);
    assert_eq!(benchmark(false, "x", 1).unwrap_err().status, 503);
    let b = benchmark(true, " ", 1).unwrap();
    assert!(b.prompt.starts_with("Repeat exactly: "));
    assert_eq!(b.max_tokens, 16);
    let b = benchmark(true, &"x".repeat(3000), 9999).unwrap();
    assert_eq!((b.prompt.len(), b.max_tokens), (2000, 256));
    let said = Message {
        id: "m".into(),
        conversation_id: "c".into(),
        role: "assistant".into(),
        content: "x".repeat(500),
        prose: String::new(),
        created_at: String::new(),
    };
    assert_eq!(metric_excerpt(&[said], "m").len(), 120);
    assert_eq!(metric_excerpt(&[], "m"), "");
}
