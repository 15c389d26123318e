use imgopt::compresser::CompressError;
use imgopt::compresser::CompressOptions;
use imgopt::compresser::Status;
use imgopt::dispatcher::CompressRequest;
use imgopt::dispatcher::CreateRequest;
use imgopt::dispatcher::Orchestrator;
use imgopt::format_meta::ImageFormat;
use imgopt::format_meta::ProcessStrategy;

fn options(extension: &str, quality: Option<u32>) -> CompressOptions {
    CompressOptions { quality, extension: extension.to_string() }
}

fn output(path: &str, size: u64, elapsed: u64, extension: &str) -> imgopt::compresser::Result {
    imgopt::compresser::Result {
        size,
        path: path.to_string(),
        elapsed,
        extension: extension.to_string(),
    }
}

fn create_one(orch: &mut Orchestrator, key: &str, size: u64) {
    let notes = orch.handle_create(&vec![CreateRequest {
        key: key.to_string(),
        stat: Some(size),
    }]);
    assert_eq!(notes.len(), 1);
}

fn request(key: &str, target: ImageFormat) -> CompressRequest {
    CompressRequest { key: key.to_string(), target }
}

#[test]
fn create_emits_one_note_per_entry() {
    let mut orch = Orchestrator::new(options("webp", None));
    let notes = orch.handle_create(&vec![
        CreateRequest { key: "a.jpg".to_string(), stat: Some(10) },
        CreateRequest { key: "b.txt".to_string(), stat: Some(20) },
        CreateRequest { key: "c.png".to_string(), stat: None },
        CreateRequest { key: "a.jpg".to_string(), stat: Some(99) },
    ]);
    // The unknown extension and the unreadable file yield no record and no
    // note; the duplicate key reports the existing record unchanged.
    assert_eq!(notes.len(), 2);
    assert_eq!(notes[0].key, "a.jpg");
    assert_eq!(notes[0].status, Status::Initialized);
    assert_eq!(notes[1].key, "a.jpg");
    assert_eq!(notes[1].input.size_bytes, 10);
    assert_eq!(orch.get_all().len(), 1);
}

#[test]
fn idempotent_create_keeps_input_metadata() {
    let mut orch = Orchestrator::new(options("webp", None));
    create_one(&mut orch, "a.jpg", 111);
    let first = orch.get_job(&"a.jpg".to_string()).unwrap();
    create_one(&mut orch, "a.jpg", 222);
    let second = orch.get_job(&"a.jpg".to_string()).unwrap();
    assert_eq!(first.input.size_bytes, 111);
    assert_eq!(second.input.size_bytes, 111);
    assert_eq!(orch.get_all().len(), 1);
}

#[test]
fn all_parallel_targets_use_parallel_path() {
    let mut orch = Orchestrator::new(options("webp", None));
    create_one(&mut orch, "a.jpg", 1);
    create_one(&mut orch, "b.jpg", 2);
    let (strategy, kept) = orch.plan_compress(&vec![
        request("a.jpg", ImageFormat::WebP),
        request("b.jpg", ImageFormat::Jpeg),
    ]);
    assert_eq!(strategy, ProcessStrategy::Parallel);
    assert_eq!(kept.len(), 2);
}

#[test]
fn one_serial_target_makes_whole_batch_serial() {
    let mut orch = Orchestrator::new(options("webp", None));
    create_one(&mut orch, "a.jpg", 1);
    create_one(&mut orch, "b.png", 2);
    create_one(&mut orch, "c.webp", 3);
    let (strategy, kept) = orch.plan_compress(&vec![
        request("a.jpg", ImageFormat::WebP),
        request("b.png", ImageFormat::Png),
        request("c.webp", ImageFormat::Jpeg),
    ]);
    assert_eq!(strategy, ProcessStrategy::Serial);
    assert_eq!(kept.len(), 3);
}

#[test]
fn empty_batch_is_parallel() {
    let orch = Orchestrator::new(options("webp", None));
    let (strategy, kept) = orch.plan_compress(&vec![]);
    assert_eq!(strategy, ProcessStrategy::Parallel);
    assert!(kept.is_empty());
}

#[test]
fn unknown_keys_are_dropped_from_plan() {
    let mut orch = Orchestrator::new(options("webp", None));
    create_one(&mut orch, "a.jpg", 1);
    let (_, kept) = orch.plan_compress(&vec![
        request("a.jpg", ImageFormat::WebP),
        request("never-created.png", ImageFormat::Png),
    ]);
    assert_eq!(kept.len(), 1);
    assert_eq!(kept[0].key, "a.jpg");
}

#[test]
fn success_is_sticky_under_compress() {
    let mut orch = Orchestrator::new(options("webp", Some(750)));
    create_one(&mut orch, "a.jpg", 1);
    let key = "a.jpg".to_string();
    let (note, _opts) = orch.begin_job(&key).unwrap();
    assert_eq!(note.status, Status::Pending);
    let note = orch.finish_job(&key, Ok(output("a.webp", 5, 3, "webp"))).unwrap();
    assert_eq!(note.status, Status::Success);
    // Resubmitting the same key leaves it out of the run list: the codec
    // is not invoked again and no further notification comes from it.
    let (_, kept) = orch.plan_compress(&vec![request("a.jpg", ImageFormat::WebP)]);
    assert!(kept.is_empty());
}

#[test]
fn failed_is_retried_on_next_compress() {
    let mut orch = Orchestrator::new(options("webp", None));
    create_one(&mut orch, "a.jpg", 1);
    let key = "a.jpg".to_string();
    orch.begin_job(&key).unwrap();
    let note = orch.finish_job(&key, Err(CompressError::CodecError)).unwrap();
    assert_eq!(note.status, Status::Failed);
    assert!(note.output.is_none());
    // The filter only drops Success: the failed job runs again.
    let (_, kept) = orch.plan_compress(&vec![request("a.jpg", ImageFormat::WebP)]);
    assert_eq!(kept.len(), 1);
    assert_eq!(kept[0].key, "a.jpg");
}

#[test]
fn handle_clear_removes_all_entries() {
    let mut orch = Orchestrator::new(options("webp", None));
    create_one(&mut orch, "a.jpg", 1);
    create_one(&mut orch, "b.png", 2);
    create_one(&mut orch, "c.webp", 3);
    assert_eq!(orch.get_all().len(), 3);
    orch.handle_clear();
    assert!(orch.get_all().is_empty());
}

#[test]
fn scenario_create_then_compress_notifications() {
    let mut orch = Orchestrator::new(options("webp", Some(750)));
    let notes = orch.handle_create(&vec![CreateRequest {
        key: "a.jpg".to_string(),
        stat: Some(2048),
    }]);
    assert_eq!(notes.len(), 1);
    assert_eq!(notes[0].status, Status::Initialized);
    assert_eq!(notes[0].input.detected_format, ImageFormat::Jpeg);

    let key = "a.jpg".to_string();
    let (strategy, kept) = orch.plan_compress(&vec![request("a.jpg", ImageFormat::WebP)]);
    assert_eq!(strategy, ProcessStrategy::Parallel);
    assert_eq!(kept.len(), 1);

    let (pending, opts) = orch.begin_job(&key).unwrap();
    assert_eq!(pending.status, Status::Pending);
    assert!(pending.output.is_none());
    assert_eq!(opts.quality, Some(750));

    // The codec runs outside the dispatcher; its outcome is reported back.
    let done = orch.finish_job(&key, Ok(output("a.webp", 512, 17, "webp"))).unwrap();
    assert_eq!(done.status, Status::Success);
    let out = done.output.unwrap();
    assert_eq!(out.extension, "webp");
    assert!(out.size > 0);
}

#[test]
fn scenario_update_between_compress_calls_changes_quality() {
    let mut orch = Orchestrator::new(options("webp", Some(300)));
    create_one(&mut orch, "a.jpg", 1);
    let key = "a.jpg".to_string();

    let (_, opts) = orch.begin_job(&key).unwrap();
    assert_eq!(opts.quality, Some(300));
    orch.finish_job(&key, Err(CompressError::CodecError)).unwrap();

    // An Update between two Compress calls changes the snapshot the next
    // run is dispatched with; no job is touched and nothing is emitted.
    orch.handle_update_options(options("webp", Some(900)));
    assert_eq!(orch.get_job(&key).unwrap().status, Status::Failed);

    let (_, opts) = orch.begin_job(&key).unwrap();
    assert_eq!(opts.quality, Some(900));
    assert_eq!(opts.extension, "webp");
}

#[test]
fn begin_and_finish_unknown_key_do_nothing() {
    let mut orch = Orchestrator::new(options("webp", None));
    assert!(orch.begin_job(&"nope.jpg".to_string()).is_none());
    assert!(orch.finish_job(&"nope.jpg".to_string(), Err(CompressError::CodecError)).is_none());
    assert!(orch.get_all().is_empty());
}

#[test]
fn current_options_reflects_updates() {
    let mut orch = Orchestrator::new(options("webp", None));
    assert_eq!(orch.current_options().extension, "webp");
    assert_eq!(orch.current_options().quality, None);
    orch.handle_update_options(options("jpg", Some(10)));
    assert_eq!(orch.current_options().extension, "jpg");
    assert_eq!(orch.current_options().quality, Some(10));
}
