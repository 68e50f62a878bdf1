use companion_api::calibrate::{
    admit_calibration, apply_calibrated_profile, calibrated_micro_batch, earlier_calibration,
    fitted_sizes, measured_context, measures_without_mmap, measuring_threads, size_stage,
    sizes_to_fit, threads_stage, title_case, FittedSize, Layers, Measure, Measuring, Profile, Run,
    SizeFit, NO_TOOLS,
};
use companion_api::error::ApiError;
use companion_api::fit::Fit;
use companion_api::load::{
    admit_load, base_inference_config, chat_format, closing_stage, guard_agent_running,
    opening_detail, start_target, Changing, ChatTemplate, InferenceConfig, LoadProgress,
    LoadSettings, RuntimePolicy, ServedModel, StartTarget,
};
use companion_api::models::{
    admit_deletion, described_context, download_failed, git_output, has_new_model,
    instruction_excerpt, memory_project, missing_model, ocr_detail, or_default, other_sessions,
    plan_model, plugin_failed, plugin_record, registered, sharing, tool_support, unreadable_size,
    DownloadStep, PlanModel, Support,
};
use companion_api::intent::AgentState;
use companion_api::prepare::{
    admit_model, assess_switch, begin_preparing, checking_stage, config_text, finish_preparing,
    mask_members, ready_stages, switch_target, PrepareFailure, Preparing, Saved, Section,
};
use companion_api::start::{
    admit_recheck, admit_start, checks_tools, engine_status, fit_applies, load_failure, load_gate,
    load_notices, load_pinned, model_ram, preparation_order, prepares_fits, reads_calibration,
    recheck_failed, set_prompt_cache, shorten_drafts, start_gate, strip_prefix, tool_check_notice,
    tooling_identity, Devices, ProfileState,
};
use companion_api::types::{Attachment, Message};

fn load_settings() -> LoadSettings {
    LoadSettings {
        context_size: 8192,
        batch_size: 512,
        cpu_threads: 8,
        threads_batch: 4,
        poll: None,
        priority: Some(1),
        gpu_layers: -1,
        flash_attention: true,
        kv_cache_gpu: true,
        top_k: 40,
    }
}

fn config(policy: bool) -> InferenceConfig {
    let mut cfg = base_inference_config(
        &load_settings(),
        "/m.gguf".into(),
        None,
        None,
        None,
        None,
        "off".into(),
        "f16".into(),
    );
    if policy {
        cfg.runtime_policy = Some(RuntimePolicy {
            speculative: "off".into(),
            spec_draft_n_max: None,
            effective_context: 8192,
            cache_type_k: "f16".into(),
            cache_type_v: "f16".into(),
            placement: "gpu".into(),
            threads: 8,
            context_note: None,
            notes: vec!["first".into()],
        });
    }
    cfg
}

fn notes(cfg: &InferenceConfig) -> Vec<String> {
    cfg.runtime_policy.as_ref().unwrap().notes.iter().map(|n| n.to_string()).collect()
}

fn served(projector: &str, projector_is_file: bool) -> Option<ServedModel> {
    Some(ServedModel {
        projector: Some(projector.into()),
        projector_is_file,
        chat_template: ChatTemplate { system_role: false, strict_alternation: true },
    })
}

#[test]
fn a_load_starts_from_the_settings() {
    let cfg = config(false);
    assert_eq!((cfg.n_ctx, cfg.n_threads, cfg.n_threads_batch), (8192, 8, 4));
    assert_eq!((cfg.poll, cfg.priority), (None, Some(1)));
    let asked = base_inference_config(
        &load_settings(),
        "/m.gguf".into(),
        served("/p.gguf", true),
        Some(4096),
        Some(0),
        Some(2),
        "ngram".into(),
        "q8_0".into(),
    );
    assert_eq!((asked.n_ctx, asked.n_gpu_layers, asked.n_threads), (4096, 0, 2));
    assert_eq!((asked.kv_cache_type_k.as_str(), asked.kv_cache_type_v.as_str()), ("q8_0", "q8_0"));
    assert_eq!(asked.projector_path.as_deref(), Some("/p.gguf"));
    assert_eq!(asked.chat_template, ChatTemplate { system_role: false, strict_alternation: true });
    // Without a model the template asks for nothing.
    assert_eq!(cfg.chat_template, ChatTemplate { system_role: true, strict_alternation: false });
    assert_eq!(cfg.projector_path, None);
    let gone = base_inference_config(
        &load_settings(),
        "/m.gguf".into(),
        served("/p.gguf", false),
        None,
        None,
        None,
        "off".into(),
        "f16".into(),
    );
    assert_eq!(gone.projector_path, None, "a projector that is not there is left out");
    assert!(!asked.load_without_mmap);
}

#[test]
fn load_progress_lifecycle() {
    let mut p = LoadProgress::idle("t0");
    assert_eq!((p.stage.as_str(), p.updated_at.as_str()), ("idle", "t0"));
    // An id that is not registered: not found, and the error is recorded.
    let id = admit_load(" nope ").unwrap();
    p.advance(&id, "validating", opening_detail(Changing::Load), "t0");
    let gate = load_gate(None, p.cancel_requested);
    assert!(gate.refusal.is_none());
    p.advance(&id, gate.stage, &gate.detail, "t0");
    let unknown = admit_model(&id, false).unwrap_err();
    assert_eq!(unknown.status, 404);
    let (stage, detail) = closing_stage(Changing::Load, Some(&unknown.message));
    p.advance(&id, stage, &detail, "t0");
    assert_eq!((p.stage.as_str(), p.detail.as_str()), ("error", "unknown model 'nope'"));
    p.cancel("t1");
    assert_eq!((p.stage.as_str(), p.cancel_requested), ("cancelled", true));
    p.advance("m", "loading", "Loading.", "t2");
    assert!(p.cancel_requested, "a request to cancel is kept");
    p.advance("m", "validating", "Checking.", "t3");
    assert!(!p.cancel_requested, "a new load forgets it");
    assert_eq!((p.model_id.as_str(), p.updated_at.as_str()), ("m", "t3"));
}

#[test]
fn load_refuses_while_work_is_under_way() {
    let chat = guard_agent_running(true, &["r".to_string()], true).unwrap_err();
    assert_eq!((chat.status, chat.message.as_str()), (409, "A chat response is still running."));
    let runs = ["a".to_string(), "b".to_string()];
    let live = guard_agent_running(false, &runs, false).unwrap_err();
    assert_eq!(live.message, "2 agent run(s) active: a, b");
    assert_eq!(live.hint, "Finish or stop the active run before switching models.");
    assert!(guard_agent_running(false, &runs, true).is_ok(), "forced");
    assert!(guard_agent_running(true, &runs, true).is_err(), "a reply is never cut off");
    assert!(guard_agent_running(false, &[], false).is_ok());
    let gate = load_gate(Some(ApiError::new(409, "busy", "wait")), true);
    assert_eq!((gate.stage, gate.detail.as_str()), ("error", "busy"));
    let gate = load_gate(None, true);
    assert_eq!((gate.stage, gate.refusal.unwrap().message.as_str()), ("cancelled", "load cancelled"));
    assert_eq!(load_gate(None, false).stage, "loading");
    assert_eq!(start_gate(true).refusal.unwrap().message, "start cancelled");
    assert!(start_gate(false).refusal.is_none());
}

#[test]
fn a_start_names_its_model() {
    let some = |s: &str| Some(s.to_string());
    assert_eq!(start_target(some("m"), some("/f"), true), StartTarget::Model("m".into()));
    assert_eq!(start_target(some(" "), some("/f"), true), StartTarget::File("/f".into()));
    assert_eq!(start_target(None, some(""), true), StartTarget::Current);
    assert_eq!(start_target(None, None, false), StartTarget::Nothing);
    assert_eq!(admit_model(" ", true).unwrap_err().message, "model id is empty");
    assert_eq!(admit_model("x", false).unwrap_err().message, "unknown model 'x'");
    assert!(admit_model("x", true).is_ok());
    assert_eq!(admit_start(false, "/f", None).unwrap_err().status, 404);
    let missing = admit_start(true, "/f", Some("no runtime")).unwrap_err();
    assert_eq!((missing.status, missing.message.as_str()), (503, "no runtime"));
    assert!(admit_start(true, "/f", None).is_ok());
}

#[test]
fn the_engine_says_what_it_is() {
    let status = engine_status(Some((4096, 0)), Some("m".into()), false, 0);
    assert_eq!((status.engine, status.context_size), ("llama-server", 4096));
    assert!(status.runtime_notice.unwrap().starts_with("Running on CPU."));
    assert!(engine_status(Some((1, 9)), None, false, 0).runtime_notice.is_none());
    let stub = engine_status(None, Some("m".into()), false, 77);
    assert_eq!((stub.engine, stub.model, stub.context_size), ("stub", None, 77));
    assert_eq!(engine_status(None, Some("m".into()), true, 0).model.as_deref(), Some("m"));
}

#[test]
fn notes_go_to_the_policy() {
    let mut cfg = config(true);
    shorten_drafts(&mut cfg, "Drafts", 16);
    assert_eq!(cfg.spec_ngram_length, Some(16));
    load_pinned(
        &mut cfg,
        &Fit::ExpertsOnCpu { blocks: 3, layers: 30 },
        true,
        true,
        "Loading",
        "12.3",
        "40.0",
    );
    assert!(cfg.load_without_mmap);
    set_prompt_cache(&mut cfg, 2048);
    assert_eq!(cfg.cache_ram_mib, Some(2048));
    let all = notes(&cfg);
    assert_eq!(all.len(), 4);
    assert_eq!(all[0], "first");
    assert!(all[1].starts_with("Drafts of at most 16 tokens: "));
    assert!(all[2].starts_with("Loading: the runtime is asked to read the expert weights"));
    assert!(all[2].contains("from the 12.3 GB file") && all[2].contains("Free RAM (40.0 GB)"));
    assert!(all[3].starts_with("Prompt cache in RAM: up to 2048 MiB"));
    let mut same = config(true);
    load_pinned(&mut same, &Fit::AllLayers, true, false, "L", "1", "2");
    assert_eq!(same, config(true));
    let mut bare = config(false);
    set_prompt_cache(&mut bare, 0);
    assert!(bare.runtime_policy.is_none());
    let mut off = config(true);
    set_prompt_cache(&mut off, 0);
    assert!(notes(&off)[1].starts_with("The RAM prompt cache is off"));
}

#[test]
fn ram_is_shared_out_by_placement() {
    assert_eq!(model_ram("gpu", Some(9), 100, 10, 10), 0);
    assert_eq!(model_ram("hybrid", Some(9), 100, 10, 10), 109);
    assert_eq!(model_ram("hybrid", None, 100, 10, 10), 150);
    assert_eq!(model_ram("cpu", None, 100, 10, 10), 200);
    assert_eq!(model_ram("cpu", None, 0, u64::MAX, 2), u64::MAX);
}

#[test]
fn a_failed_load_is_told_in_one_sentence() {
    assert_eq!(strip_prefix("aaab", "a"), "b");
    assert_eq!(strip_prefix("abab-ab", "ab"), "-ab");
    assert_eq!(strip_prefix("x", ""), "x");
    let failed = load_failure("Generation failed: Generation failed: out of memory");
    assert_eq!((failed.status, failed.message.as_str()), (500, "out of memory"));
    let said = |s: &str| Some(s.to_string());
    assert_eq!(load_notices(said("a"), None, said("c")), vec!["a", "c"]);
    assert!(load_notices(None, None, None).is_empty());
    assert_eq!(chat_format("chatml", "x", false), (None, None));
    let (named, notice) = chat_format("gemma", "gemma3", true);
    assert_eq!(named.as_deref(), Some("gemma"));
    assert!(notice.unwrap().contains("built-in \"gemma\" chat format for the gemma3"));
    assert!(chat_format("gemma", "gemma3", false).1.unwrap().contains("does not list"));
}

#[test]
fn tool_checks_run_once_for_a_runtime_and_a_template() {
    assert!(!checks_tools(ProfileState::Current));
    assert!(checks_tools(ProfileState::Stale) && checks_tools(ProfileState::Absent));
    assert_eq!(tooling_identity("b1", None), ("b1".to_string(), "none".to_string()));
    assert_eq!(tooling_identity("b1", Some("fp")).1, "fp");
    assert_eq!(
        tool_check_notice(ProfileState::Absent, Ok(("3.2", "calls tools natively"))),
        "Tool check (first load, 3.2 s): this model calls tools natively."
    );
    assert!(tool_check_notice(ProfileState::Stale, Ok(("1.0", "x")))
        .starts_with("Tool check (checked again because"));
    assert!(tool_check_notice(ProfileState::Absent, Err("timeout"))
        .starts_with("The tool check could not run (timeout)."));
    assert!(admit_recheck("m", true, true, Some("m"), None).is_ok());
    assert_eq!(admit_recheck("m", false, true, Some("m"), None).unwrap_err().status, 404);
    assert_eq!(
        admit_recheck("m", true, true, Some("n"), None).unwrap_err().message,
        "this model is not loaded"
    );
    assert!(admit_recheck("m", true, false, Some("m"), None).is_err());
    assert_eq!(
        admit_recheck("m", true, true, Some("m"), Some("gone")).unwrap_err().message,
        "runtime not found: gone"
    );
    assert_eq!(recheck_failed("x").status, 503);
}

#[test]
fn fits_are_prepared_for_the_default_model_first() {
    let ids: Vec<String> = ["a", "b", "c"].iter().map(|s| s.to_string()).collect();
    assert_eq!(preparation_order(&ids, "b"), vec![1, 0, 2]);
    assert_eq!(preparation_order(&ids, "z"), vec![0, 1, 2]);
    assert!(prepares_fits(true, true, true, false, Devices::Available));
    assert!(!prepares_fits(true, true, true, true, Devices::Available));
    assert!(!prepares_fits(true, true, true, false, Devices::Absent));
    assert!(fit_applies(true, Devices::Available) && !fit_applies(true, Devices::Unknown));
    assert!(reads_calibration(true, false, true) && !reads_calibration(false, true, true));
}

fn profile(name: &str, threads: u32) -> Profile {
    Profile {
        name: name.into(),
        threads,
        threads_batch: 8,
        poll: 0,
        priority: -1,
        generation_tps: "12.5".into(),
        generation_share: 97,
        prompt_tps: "210".into(),
        free_cores_generating: 4,
    }
}

#[test]
fn a_calibrated_profile_changes_the_load() {
    let profiles = [profile("fastest", 6), profile("light", 1)];
    let mut cfg = config(true);
    let note = apply_calibrated_profile("light", Some((&profiles, true)), &mut cfg);
    assert_eq!(
        note,
        "Light profile from this model's calibration: 1 generation thread and 8 for prompts, sleeping between operations, yielding the CPU to other applications; measured 12.5 tok/s generating (97% of the fastest) and 210 tok/s reading prompts, leaving 4 cores free while generating."
    );
    assert_eq!((cfg.n_threads, cfg.n_threads_batch), (1, 8));
    assert_eq!((cfg.poll, cfg.priority), (Some(0), Some(-1)));
    assert_eq!(cfg.runtime_policy.as_ref().unwrap().threads, 1);
    let unchanged = |calibration: Option<(&[Profile], bool)>, says: &str| {
        let mut cfg = config(true);
        let note = apply_calibrated_profile("light", calibration, &mut cfg);
        assert!(note.contains(says), "{note}");
        assert_eq!(cfg, config(true));
    };
    unchanged(None, "Light profile selected, but this model has not been calibrated");
    unchanged(Some((&profiles, false)), "measured under different conditions");
    unchanged(Some((&profiles[..1], true)), "has no such profile");
    assert_eq!(title_case("éclair"), "Éclair");
    assert_eq!(title_case("ß"), "SS");
    assert_eq!(title_case(""), "");
    assert_eq!(measuring_threads(&profiles, 16), 6);
    assert_eq!(measuring_threads(&[], 0), 1);
    assert_eq!(calibrated_micro_batch(Some((1024, 2)), true), Some((1024, 2)));
    assert_eq!(calibrated_micro_batch(Some((1024, 2)), false), None);
    assert_eq!(earlier_calibration(&[false, true, true]), Some(1));
    assert_eq!(earlier_calibration(&[false]), None);
}

#[test]
fn micro_batches_are_measured_in_two_passes_with_one_pause() {
    let fit = |layers| SizeFit {
        layers,
        gpu_layers: 20,
        expert_blocks_on_cpu: 0,
        load_without_mmap: false,
    };
    let base = fit(Layers::Hybrid);
    let sizes = sizes_to_fit(Layers::Hybrid, vec![512, 1024, 2048, 4096]);
    assert!(sizes_to_fit(Layers::Cpu, vec![512]).is_empty());
    let answers = [None, Some(fit(Layers::Gpu)), Some(fit(Layers::Cpu)), None];
    let fitted = fitted_sizes(&sizes, base, &answers);
    assert_eq!(
        fitted,
        vec![
            FittedSize { size: 512, fit: base },
            FittedSize { size: 1024, fit: fit(Layers::Gpu) }
        ],
        "the default keeps its placement; a size off the GPU or without a fit is left out"
    );
    let run = |pass, size| Run { pass, size };
    let order = vec![run(0, 512), run(0, 1024), run(1, 1024), run(1, 9), run(1, 512)];
    let mut measuring = Measuring::new(fitted, order);
    let mut steps = Vec::new();
    loop {
        match measuring.step() {
            Measure::Pause => steps.push("pause".to_string()),
            Measure::Size { run, .. } => steps.push(format!("{}:{}", run.pass, run.size)),
            Measure::Done => break,
        }
    }
    assert_eq!(steps, vec!["0:512", "0:1024", "pause", "1:1024", "1:512"]);
    assert_eq!(
        size_stage(run(1, 2048), 3000),
        "Measuring a micro-batch of 2,048 tokens with the placement that fits at that size (reads a 3,000-token prompt; pass 2 of 2)."
    );
    assert!(size_stage(run(0, 512), 100_000).contains("4,096-token prompt; pass 1"));
    assert_eq!((measured_context(8192, 4096), measured_context(8192, 0)), (4096, 1));
    assert!(measures_without_mmap(Layers::Gpu, true) && !measures_without_mmap(Layers::Cpu, true));
    assert!(threads_stage(3, Layers::Hybrid, true)
        .starts_with("Measuring 3 thread settings (every layer on the GPU, some expert weights"));
    assert!(threads_stage(3, Layers::Hybrid, false).contains("layers split between GPU and CPU"));
    assert!(threads_stage(3, Layers::Cpu, false).contains("(CPU only)"));
    assert_eq!(admit_calibration(Some("busy"), false, "m", None, false).as_deref(), Some("busy"));
    assert_eq!(
        admit_calibration(None, false, "m", None, true).as_deref(),
        Some("unknown model 'm'")
    );
    assert_eq!(admit_calibration(None, true, "m", Some("no"), true).as_deref(), Some("no"));
    assert_eq!(admit_calibration(None, true, "m", None, false).as_deref(), Some(NO_TOOLS));
    assert_eq!(admit_calibration(None, true, "m", None, true), None);
}

#[test]
fn preparing_never_interrupts_and_never_claims_a_cache() {
    let saved = || Saved {
        model_id: "own".into(),
        messages: 3,
        attachments: 1,
        memory_entries: 2,
    };
    let begin = |busy, saved, asked: &str| begin_preparing(busy, saved, asked, "current");
    assert_eq!(
        begin(Some("A chat response is still running."), Ok(saved()), "x"),
        Preparing::Stopped(PrepareFailure::Other("A chat response is still running.".into()))
    );
    assert_eq!(
        begin(None, Err(PrepareFailure::Missing), ""),
        Preparing::Stopped(PrepareFailure::Missing)
    );
    assert_eq!(begin(None, Ok(saved()), " x "), Preparing::Check { target: "x".into() });
    assert_eq!(begin(None, Ok(saved()), " "), Preparing::Check { target: "own".into() });
    let none = Saved { model_id: String::new(), ..saved() };
    assert_eq!(
        begin_preparing(None, Ok(none), "", ""),
        Preparing::Stopped(PrepareFailure::NoModel)
    );
    let finish = |known, load: Option<&str>, busy: Option<&str>, running| {
        finish_preparing("m".into(), known, load, busy, running)
    };
    let said = |p: Preparing| match p {
        Preparing::Stopped(f) => f.text(),
        other => panic!("{other:?}"),
    };
    assert_eq!(said(finish(false, None, None, true)), "Unknown model 'm'.");
    assert_eq!(
        said(finish(true, Some("oom"), None, true)),
        "Model failed to load: oom. Try fewer GPU layers or a smaller context."
    );
    assert_eq!(said(finish(true, None, Some("busy"), true)), "busy");
    assert!(said(finish(true, None, None, false)).starts_with("The running model changed"));
    assert_eq!(finish(true, None, None, true), Preparing::Ready { target: "m".into() });
    assert_eq!(PrepareFailure::Missing.text(), "conversation not found");
    assert_eq!(PrepareFailure::Memory("x".into()).text(), "Could not read saved memory: x");
    assert_eq!(PrepareFailure::NoModel.text(), "No model selected. Load a model first.");
    assert_eq!(checking_stage("m").detail, "checking m");
    let stages = ready_stages("m", &saved());
    assert_eq!(stages.len(), 5);
    assert_eq!(stages[0].detail, "m loaded");
    assert!(stages[1].detail.contains("nothing has been submitted"));
    assert!(stages[2].detail.starts_with("3 saved messages retained."));
    assert!(stages[3].detail.starts_with("1 saved attachment(s)"));
    assert!(stages[4].detail.starts_with("2 scoped saved memory entries"));
}

#[test]
fn compatibility_reports_tool_and_vision() {
    let tool = Message {
        id: "1".into(),
        conversation_id: "c".into(),
        role: "tool".into(),
        content: String::new(),
        prose: String::new(),
        created_at: String::new(),
    };
    let image = Attachment {
        id: "f".into(),
        conversation_id: "c".into(),
        filename: "f.png".into(),
        mime: "image/png".into(),
        size_bytes: 1,
        text_excerpt: String::new(),
        kind: "image".into(),
        status: "ready".into(),
        created_at: String::new(),
    };
    let (messages, files) = ([tool], [image]);
    let lost = assess_switch(&messages, &files, "Tiny", false, false);
    assert!(!lost.vision && !lost.tool_calling && !lost.tool_history);
    assert_eq!(lost.warnings.len(), 2);
    assert!(lost.warnings[0].starts_with("1 image attachment(s) cannot be"));
    assert!(lost.warnings[1].starts_with("Thread contains tool calls but Tiny"));
    let kept = assess_switch(&messages, &files, "Big", true, true);
    assert!(kept.vision && kept.tool_calling && kept.warnings.is_empty());
    let empty = assess_switch(&[], &[], "Tiny", false, false);
    assert!(empty.vision && empty.tool_history && empty.warnings.is_empty());
    assert_eq!((switch_target(" a ", "b"), switch_target("", "b")), ("a".into(), "b".into()));
    assert!(config_text(" ", None).starts_with("Sections: general"));
    let value = |text: &str| Some(Section::Value(text.into()));
    assert_eq!(config_text(" memory ", value("{}")), "memory:\n```json\n{}\n```");
    assert_eq!(
        config_text("sizes", value("[1,\"a\"]")),
        "sizes:\n```json\n[\n  1,\n  \"a\"\n]\n```"
    );
    assert_eq!(config_text("x", value("{")), "x:\n```json\nnull\n```");
    assert_eq!(config_text("x", None), "Unknown section 'x'. Try /config with no args.");
}

#[test]
fn models_are_deleted_by_their_registered_id_only() {
    assert!(admit_deletion("m", true, None).is_ok());
    for id in ["", "a/b", "a\\b", "..", "a..b"] {
        assert_eq!(admit_deletion(id, true, None).unwrap_err().message, "invalid model id");
    }
    assert_eq!(admit_deletion("m", false, None).unwrap_err().status, 404);
    assert_eq!(admit_deletion("m", true, Some("outside")).unwrap_err().message, "outside");
    assert_eq!((registered(5, 2), registered(1, 2)), (3, 0));
    assert_eq!((described_context(8192, 4096), described_context(0, 5)), (4096, 1));
    assert_eq!(tool_support(Support::No, true), (false, Some("runtime")));
    assert_eq!(tool_support(Support::Yes, false), (true, Some("runtime")));
    assert_eq!(tool_support(Support::Unknown, true), (true, Some("template")));
    assert_eq!(tool_support(Support::Unknown, false), (false, None));
    let ids = |v: &[&str]| v.iter().map(|s| s.to_string()).collect::<Vec<_>>();
    assert!(has_new_model(&ids(&["a", "b"]), &ids(&["a"])));
    assert!(!has_new_model(&ids(&["a"]), &ids(&["a", "b"])));
}

#[test]
fn plans_are_made_for_a_model_that_is_there() {
    assert_eq!(plan_model(Some("x"), true, true, true), PlanModel::Asked);
    assert_eq!(plan_model(Some("x"), false, true, true), PlanModel::Nothing);
    assert_eq!(plan_model(Some(""), false, true, true), PlanModel::Current);
    assert_eq!(plan_model(None, false, false, true), PlanModel::Default);
    assert_eq!(plan_model(None, false, false, false), PlanModel::Nothing);
    assert_eq!(missing_model(Some("x"), false).as_deref(), Some("x"));
    assert_eq!(missing_model(Some(""), false), None);
    assert_eq!((or_default("", "chat"), or_default("x", "chat")), ("chat".into(), "x".into()));
    let runs = [AgentState::Idle, AgentState::Failed, AgentState::Planning];
    assert_eq!((other_sessions(&runs), other_sessions(&[])), (2, 0));
    assert_eq!((sharing(false, 0), sharing(true, 2)), (1, 3));
    assert!(unreadable_size("big").message.ends_with("'big'"));
    assert_eq!(download_failed(DownloadStep::Start, "r").hint, "Use a fresh id and an https:// file URL.");
    assert_eq!(download_failed(DownloadStep::Pause, "r").status, 400);
    assert_eq!(download_failed(DownloadStep::Resume, "r").status, 400);
    assert_eq!(download_failed(DownloadStep::Cancel, "r").status, 404);
    assert_eq!(plugin_record("p", "t", "{}", "o", true).conversation_id, "plugin:p");
    assert_eq!(plugin_failed("t", true, "r").message, "Permission required for 't': r");
    assert_eq!(plugin_failed("t", false, "r").status, 400);
    assert_eq!(instruction_excerpt(&"x".repeat(5000)).len(), 4000);
    assert_eq!(git_output(Ok(("a", "b"))), "ab");
    assert_eq!(git_output(Err("x")), "(unavailable: x)");
    assert!(ocr_detail(false).starts_with("No OCR engine") && ocr_detail(true).starts_with("Tess"));
    assert_eq!(memory_project("", "c", Some("p")), "p");
    assert_eq!(memory_project("w", "c", Some("p")), "w");
    assert_eq!(memory_project("", "", Some("p")), "");
}

fn members(pairs: &[(&str, &str)]) -> Vec<(String, String)> {
    pairs.iter().map(|(name, value)| (name.to_string(), value.to_string())).collect()
}

#[test]
fn the_search_key_is_never_shown() {
    let search = |key: &str| {
        let pairs = [("brave_key", key), ("max_results", "5"), ("sites", "[\"a\",\"b\"]")];
        config_text(" search ", Some(Section::Members(members(&pairs))))
    };
    let shown = search("\"hidden\"");
    assert_eq!(
        shown,
        "search:\n```json\n{\n  \"brave_key\": \"***\",\n  \"max_results\": 5,\n  \"sites\": [\n    \"a\",\n    \"b\"\n  ]\n}\n```"
    );
    assert_eq!(shown, search("\"another\""));
    assert_eq!(shown, search("null"));
    // The mask stands there even where no key is saved.
    assert_eq!(
        mask_members("search", members(&[("provider", "\"brave\"")])),
        members(&[("provider", "\"brave\""), ("brave_key", "\"***\"")])
    );
    // Other sections are shown as they are.
    let other = members(&[("brave_key", "1")]);
    assert_eq!(mask_members("memory", members(&[("brave_key", "1")])), other);
}
