use list_images::images::{Thumbnail, ThumbError};
use list_images::render::Renderer;
use list_images::schedule::{consume_result, drain_jobs, JobResult};
use list_images::term::Term;
use list_images::Args;

fn args() -> Args {
    Args {
        thumbnail_size: 1,
        no_hyperlinks: false,
        images: Vec::new(),
        hyperlink_color: [1, 2, 3],
        max_file_size: None,
        jobs: None,
    }
}

fn renderer() -> Renderer {
    let term = Term { columns: 1000, cell_height: 1, cell_width: 1 };
    Renderer::new_with_output(Vec::new(), term, args())
}

fn ok(path: &str) -> JobResult {
    JobResult {
        path: String::from(path),
        outcome: Ok(Thumbnail { height: 1, width: 1, pixels: vec![1] }),
    }
}

fn err(path: &str, e: ThumbError) -> JobResult {
    JobResult { path: String::from(path), outcome: Err(e) }
}

/// The positions of each hyperlinked path in the rendered output.
fn link_positions(out: &str, paths: &[&str]) -> Vec<usize> {
    paths
        .iter()
        .map(|p| out.find(&format!("\x1B]8;;{}\x07", p)).expect("path must be rendered"))
        .collect()
}

#[test]
fn renders_in_original_input_order() {
    // Three jobs, the middle one expanding to two results: rendering must
    // follow the flattened input order no matter when workers finished.
    let jobs = vec![
        vec![ok("first")],
        vec![ok("second-a"), ok("second-b")],
        vec![ok("third")],
    ];
    let mut r = renderer();
    let failed = drain_jobs(&mut r, jobs);
    assert!(failed.is_empty());
    let out = String::from_utf8(r.finish()).unwrap();
    let pos = link_positions(&out, &["first", "second-a", "second-b", "third"]);
    assert!(pos[0] < pos[1] && pos[1] < pos[2] && pos[2] < pos[3]);
}

#[test]
fn failures_are_collected_in_order_and_not_rendered() {
    let jobs = vec![
        vec![ok("a")],
        vec![err("bad-b", ThumbError::DecodeFailed)],
        vec![ok("c"), err("bad-d", ThumbError::IoFailure)],
    ];
    let mut r = renderer();
    let failed = drain_jobs(&mut r, jobs);
    assert_eq!(failed.len(), 2);
    assert_eq!(failed[0].0.as_str(), "bad-b");
    assert_eq!(failed[0].1, ThumbError::DecodeFailed);
    assert_eq!(failed[1].0.as_str(), "bad-d");
    assert_eq!(failed[1].1, ThumbError::IoFailure);
    let out = String::from_utf8(r.finish()).unwrap();
    assert!(out.contains("\x1B]8;;a\x07"));
    assert!(out.contains("\x1B]8;;c\x07"));
    assert!(!out.contains("bad-b"));
    assert!(!out.contains("bad-d"));
}

#[test]
fn empty_jobs_render_nothing() {
    let mut r = renderer();
    let failed = drain_jobs(&mut r, Vec::new());
    assert!(failed.is_empty());
    assert!(r.finish().is_empty());
}

#[test]
fn jobs_without_results_are_skipped() {
    // An archive that expanded to nothing contributes no output.
    let jobs = vec![vec![], vec![ok("only")], vec![]];
    let mut r = renderer();
    let failed = drain_jobs(&mut r, jobs);
    assert!(failed.is_empty());
    let out = String::from_utf8(r.finish()).unwrap();
    assert!(out.contains("\x1B]8;;only\x07"));
}

#[test]
fn consume_result_reports_renders() {
    let mut r = renderer();
    let mut failed = Vec::new();
    assert!(consume_result(&mut r, &mut failed, ok("x")));
    assert!(!consume_result(&mut r, &mut failed, err("y", ThumbError::EncodeFailed)));
    assert_eq!(failed.len(), 1);
    assert_eq!(failed[0].0.as_str(), "y");
}

#[test]
fn size_error_carries_byte_counts() {
    let mut r = renderer();
    let mut failed = Vec::new();
    consume_result(
        &mut r,
        &mut failed,
        err("big", ThumbError::SizeExceeded { len: 4096, max: 1024 }),
    );
    assert_eq!(failed[0].1, ThumbError::SizeExceeded { len: 4096, max: 1024 });
}
