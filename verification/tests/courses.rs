use companion_api::agent::stream_ended;
use companion_api::calibrate::{
    Course, Doing, Layers, Profile, Progress, SizeFit, NO_MEASUREMENTS,
};
use companion_api::commands::search_refused;
use companion_api::compact::{conclude, needs_inference, Conclusion};
use companion_api::fit::Fit;
use companion_api::intent::AgentState;
use companion_api::knowledge::{
    admit_path, rebase_knowledge, Ingest, KnowledgeChunk, PathKind, INGEST_FILES,
};
use companion_api::load::{
    admit_load, admit_target, base_inference_config, closing_stage, opening_detail, start_label,
    start_target, Changing, InferenceConfig, LoadSettings, RuntimePolicy, StartTarget,
};
use companion_api::offer::ToolCall;
use companion_api::start::{tune_for_fit, use_profile, Tuning};
use companion_api::toolround::{announce, close_round, turn_away, ToolOutcome};
use companion_api::toolrun::{finish_call, CallOutcome, ExecuteToolReq, Route, ToolFault, Via};
use companion_api::types::Message;
use companion_api::workspace::list_index;

fn profile(name: &str, threads: u32) -> Profile {
    Profile {
        name: name.into(),
        threads,
        threads_batch: threads,
        poll: 50,
        priority: 0,
        generation_tps: "10.0".into(),
        generation_share: 100,
        prompt_tps: "200".into(),
        free_cores_generating: 2,
    }
}

fn placed(layers: Layers) -> SizeFit {
    SizeFit { layers, gpu_layers: 20, expert_blocks_on_cpu: 0, load_without_mmap: false }
}

#[test]
fn a_calibration_goes_its_course() {
    let (c, d) = Course::Unloading.advance(&Progress::Unloaded, 8, true);
    assert_eq!((c, d), (Course::Placing, Doing::Place));
    let hybrid = placed(Layers::Hybrid);
    let (c, d) = c.advance(&Progress::Placed(Ok(hybrid)), 8, true);
    assert_eq!((c, d), (Course::Threads { placed: hybrid }, Doing::MeasureThreads));
    let measured = Progress::ThreadsMeasured(Ok(Some(vec![profile("fastest", 6), profile("light", 2)])));
    let (c, d) = c.advance(&measured, 8, true);
    assert_eq!((c, d), (Course::Quiet { placed: hybrid }, Doing::MeasureQuiet { threads: 2 }));
    let quiet = Progress::QuietMeasured(Some(vec![profile("fastest", 6)]));
    let (c, d) = c.advance(&quiet, 8, true);
    assert_eq!((c, d), (Course::Sizes, Doing::MeasureSizes { threads: 6 }));
    let (c, d) = c.advance(&Progress::SizesMeasured, 8, true);
    assert_eq!((c, d), (Course::Saving, Doing::Save));
    assert_eq!(c.advance(&Progress::Unloaded, 8, true), (Course::Saving, Doing::Wait));
    assert_eq!(c.advance(&Progress::Saved(Ok(())), 8, true), (Course::Ended, Doing::Finish));
}

#[test]
fn a_calibration_without_a_gpu_measures_no_micro_batches() {
    let c = Course::Threads { placed: placed(Layers::Cpu) };
    let measured = Progress::ThreadsMeasured(Ok(Some(vec![profile("fastest", 6)])));
    assert_eq!(c.advance(&measured, 8, true), (Course::Saving, Doing::Save));
    let gpu = Course::Threads { placed: placed(Layers::Gpu) };
    let none_fastest = Progress::ThreadsMeasured(Ok(Some(vec![])));
    assert_eq!(
        gpu.advance(&none_fastest, 8, true),
        (Course::Sizes, Doing::MeasureSizes { threads: 8 })
    );
    assert_eq!(gpu.advance(&none_fastest, 8, false), (Course::Saving, Doing::Save));
}

#[test]
fn a_failed_step_ends_a_calibration() {
    let at = placed(Layers::Gpu);
    let failed = |c: Course, p: Progress| match c.advance(&p, 8, true) {
        (Course::Ended, Doing::Fail(text)) => text,
        other => panic!("{other:?}"),
    };
    assert_eq!(
        failed(Course::Placing, Progress::Placed(Err("e".into()))),
        "The runtime could not place this model: e"
    );
    let threads = Course::Threads { placed: at };
    assert_eq!(failed(threads, Progress::ThreadsMeasured(Err("bench".into()))), "bench");
    assert_eq!(failed(threads, Progress::ThreadsMeasured(Ok(None))), NO_MEASUREMENTS);
    assert_eq!(
        failed(Course::Quiet { placed: at }, Progress::QuietMeasured(None)),
        NO_MEASUREMENTS
    );
    assert_eq!(
        failed(Course::Saving, Progress::Saved(Err("disk".into()))),
        "Measured, but could not save the calibration: disk"
    );
}

fn config() -> InferenceConfig {
    let settings = LoadSettings {
        context_size: 32_768,
        batch_size: 512,
        cpu_threads: 8,
        threads_batch: 8,
        poll: None,
        priority: None,
        gpu_layers: -1,
        flash_attention: true,
        kv_cache_gpu: true,
        top_k: 40,
    };
    let mut cfg = base_inference_config(
        &settings,
        "/m".into(),
        None,
        None,
        None,
        None,
        "off".into(),
        "f16".into(),
    );
    cfg.runtime_policy = Some(RuntimePolicy {
        speculative: "off".into(),
        spec_draft_n_max: None,
        effective_context: 32_768,
        cache_type_k: "f16".into(),
        cache_type_v: "f16".into(),
        placement: "hybrid".into(),
        threads: 8,
        context_note: None,
        notes: vec![],
    });
    cfg
}

fn notes(cfg: &InferenceConfig) -> &Vec<String> {
    &cfg.runtime_policy.as_ref().unwrap().notes
}

#[test]
fn a_load_is_tuned_to_its_fit_in_order() {
    let tuning = Tuning {
        draft_length: Some(16),
        draft_prefix: "Drafts".into(),
        pinned: true,
        pinned_supported: true,
        pinned_prefix: "Pinned".into(),
        file_gb: "12.0".into(),
        free_gb: "40.0".into(),
    };
    let mut cfg = config();
    tune_for_fit(&mut cfg, Some(Fit::Layers(20)), &tuning);
    assert_eq!((cfg.spec_ngram_length, cfg.load_without_mmap), (Some(16), true));
    assert!(notes(&cfg)[0].starts_with("Drafts of at most 16 tokens"));
    assert!(notes(&cfg)[1].starts_with("Pinned: the runtime is asked to read the layers"));
    let mut without = config();
    tune_for_fit(&mut without, None, &tuning);
    assert_eq!(without, config());
}

#[test]
fn a_profile_is_used_where_the_calibration_holds() {
    let profiles = [profile("light", 2)];
    let mut cfg = config();
    use_profile(&mut cfg, Some("light"), true, Some((&profiles, true)));
    assert_eq!((cfg.n_threads, notes(&cfg).len()), (2, 1));
    assert!(notes(&cfg)[0].starts_with("Light profile from this model's calibration: 2 generation"));
    let mut stale = config();
    use_profile(&mut stale, Some("light"), true, Some((&profiles, false)));
    assert_eq!(stale.n_threads, 8);
    assert!(notes(&stale)[0].contains("measured under different conditions"));
    let mut unknown = config();
    use_profile(&mut unknown, Some("light"), false, Some((&profiles, true)));
    assert_eq!(unknown, config());
}

#[test]
fn a_start_names_its_target() {
    assert_eq!(admit_load("  m  ").unwrap(), "m");
    assert_eq!(admit_load(" ").unwrap_err().hint, "Pick a model from the selector first.");
    let named = start_target(Some("m".into()), None, false);
    assert!(admit_target(&named, true).is_ok());
    let missing = admit_target(&named, false).unwrap_err();
    assert_eq!((missing.status, missing.message.as_str()), (404, "unknown model 'm'"));
    assert_eq!(
        admit_target(&StartTarget::Nothing, true).unwrap_err().message,
        "no model selected"
    );
    assert!(admit_target(&StartTarget::Current, false).is_ok());
    assert_eq!(start_label(&None, &Some("/f".into())), "/f");
    assert_eq!(start_label(&Some("m".into()), &Some("/f".into())), "m");
    assert_eq!(start_label(&None, &None), "");
    assert_eq!(opening_detail(Changing::Load), "Checking model registry and agent guard.");
    assert_eq!(
        closing_stage(Changing::Start, None),
        ("ready", "Inference running and healthy.".to_string())
    );
    assert_eq!(closing_stage(Changing::Load, Some("e")), ("error", "e".to_string()));
}

fn message(id: &str, content: &str) -> Message {
    Message {
        id: id.into(),
        conversation_id: "c".into(),
        role: "user".into(),
        content: content.into(),
        prose: content.into(),
        created_at: String::new(),
    }
}

#[test]
fn a_compaction_is_concluded_once() {
    let then = vec![message("a", "one"), message("b", "two"), message("c", "three")];
    match conclude(100, "short", &then, &then, 2).unwrap() {
        Conclusion::Save { ids, summary, stats } => {
            assert_eq!(ids, vec!["a", "b"]);
            assert!(summary.ends_with("2 older messages; original history preserved]\nshort"));
            assert_eq!((stats.before_chars, stats.after_chars, stats.saved_pct), (100, 5, 95));
        }
        other => panic!("{other:?}"),
    }
    match conclude(5, "short", &then, &then, 2).unwrap() {
        Conclusion::Keep(stats) => assert_eq!((stats.status.as_str(), stats.messages), ("noop", 2)),
        other => panic!("{other:?}"),
    }
    let edited = vec![message("a", "one"), message("b", "changed")];
    assert_eq!(
        conclude(100, "short", &edited, &then, 2).unwrap_err().message,
        "conversation changed during compaction"
    );
    assert_eq!(needs_inference().hint, "Start inference first, then /compact.");
}

#[test]
fn files_are_taken_in_within_bounds() {
    let mut ingest = Ingest::new();
    let long = "word ".repeat(60_000);
    assert_eq!(ingest.take_file(10, Some(&long)).unwrap().len(), 200);
    assert_eq!(ingest.take_file(2_000_001, Some("x")), None);
    assert_eq!(ingest.take_file(10, None), None);
    assert_eq!(ingest.take_file(10, Some("x")).unwrap(), vec!["x"]);
    assert_eq!((ingest.files_seen, ingest.files_indexed, ingest.chunks_added), (4, 2, 201));
    while ingest.files_seen < INGEST_FILES {
        ingest.take_file(1, None);
    }
    assert_eq!(ingest.take_file(10, Some("x")), None);
    assert_eq!(ingest.files_indexed, 2);
    assert_eq!(admit_path(Ok(PathKind::File)), Ok(PathKind::File));
    assert_eq!(
        admit_path(Ok(PathKind::Neither)).unwrap_err().message,
        "path is not a file or directory"
    );
    assert_eq!(admit_path(Err("outside")).unwrap_err().hint, "Pick a path inside the workspace.");
    let chunk = KnowledgeChunk {
        id: "k".into(),
        workspace_id: "w".into(),
        path: "sub\\a.md".into(),
        chunk_idx: 3,
        text: "t".into(),
    };
    let kept = rebase_knowledge(&[chunk], "sub/");
    assert_eq!((kept[0].id.as_str(), kept[0].path.as_str(), kept[0].chunk_idx), ("k", "a.md", 3));
}

#[test]
fn an_index_lists_its_first_files() {
    let listing = list_index(&[50, 3]);
    assert_eq!((listing.files_total, listing.symbols_total, listing.files_capped), (2, 53, false));
    assert_eq!(listing.symbols_listed, vec![40, 3]);
    let many = list_index(&vec![1; 2500]);
    assert_eq!((many.files_listed, many.files_capped, many.symbols_total), (2000, true, 2500));
    assert!(stream_ended(&[AgentState::Observing, AgentState::Failed]));
    assert!(!stream_ended(&[AgentState::Observing]));
}

fn call(name: &str) -> ToolCall {
    ToolCall { name: name.into(), args: "{\"path\":\"a.rs\"}".into() }
}

#[test]
fn a_tool_round_is_closed_with_its_records() {
    let mut turns = vec![];
    let outcome = ToolOutcome::Ran { ok: true, output: "x".repeat(20_000) };
    let r = close_round(&mut turns, "round", &call("read_file"), "Reading a.rs…", None, outcome);
    assert_eq!(r.status, "✓ Reading a.rs");
    assert_eq!((r.entry.kind, r.entry.message.as_str()), ("tool_result", "Inspection finished"));
    assert!(r.entry.output.unwrap().ends_with("[Output truncated for display]"));
    assert_eq!((r.record.conversation_id.as_str(), r.record.tool.as_str()), ("direct", "chat:read_file"));
    assert_eq!((r.record.result.len(), r.record.approved), (2000, false));
    assert_eq!((turns[0].role.as_str(), turns[1].role.as_str()), ("assistant", "user"));
    let (entry, status) = turn_away(&mut turns, "round", "write_file");
    assert_eq!((entry.kind, entry.output), ("tool_error", None));
    assert!(status.starts_with("Skipped 'write_file'"));
    assert_eq!(turns.len(), 4);
    assert_eq!(announce("Reading…").kind, "tool_started");
    let failed = ToolOutcome::Failed { error: "no".into() };
    let r = close_round(&mut turns, "r", &call("create_document"), "Creating x…", Some("c"), failed);
    assert_eq!((r.entry.kind, r.entry.message.as_str()), ("tool_error", "Document failed"));
    assert_eq!(r.record.conversation_id, "c");
}

#[test]
fn a_call_ends_with_an_answer_and_a_record() {
    let req = ExecuteToolReq {
        workspace: "/w".into(),
        tool: "read_file".into(),
        args: "{}".into(),
        approved_once: false,
        grant_session: false,
        conversation_id: " c ".into(),
    };
    let ran = CallOutcome::Ran { ok: false, output: "exit 1".into(), exit_code: Some(1) };
    let (record, answer) = finish_call(&req, Route::Tool, Via::Auto, ran);
    let answer = answer.unwrap();
    assert_eq!((answer.ok, answer.exit_code, answer.approved_via), (false, Some(1), "auto"));
    let read = CallOutcome::Ran { ok: true, output: "text".into(), exit_code: None };
    assert_eq!(finish_call(&req, Route::Tool, Via::Auto, read).1.unwrap().exit_code, None);
    assert_eq!((record.conversation_id.as_str(), record.approved), ("c", false));
    let found = CallOutcome::Ran { ok: true, output: "{}".into(), exit_code: Some(0) };
    let (record, answer) = finish_call(&req, Route::Search, Via::Once, found);
    assert_eq!((record.tool.as_str(), record.conversation_id.as_str()), ("web_search", " c "));
    let answer = answer.unwrap();
    assert_eq!((answer.ok, answer.exit_code, answer.approved_via), (true, None, "once"));
    let written = CallOutcome::Ran { ok: true, output: "d".into(), exit_code: Some(0) };
    assert_eq!(finish_call(&req, Route::Document, Via::Once, written).1.unwrap().exit_code, None);
    let failed = |route| {
        let outcome = CallOutcome::Failed { fault: ToolFault::Other, reason: "r".into() };
        finish_call(&req, route, Via::Once, outcome).1.unwrap_err()
    };
    assert_eq!(failed(Route::Search).message, "Internet search failed: r");
    assert_eq!(failed(Route::Document).hint, "Fix the filename/spec and retry.");
    assert_eq!(failed(Route::Tool).status, 500);
    assert_eq!(search_refused("bad regex").hint, "Fix the pattern and retry.");
}
