use buck_scan::scan::{
    partition_batches, BuckDetection, ScanError, ScanStateInner, BATCH_SIZE,
};

fn paths(n: usize) -> Vec<String> {
    (0..n).map(|i| format!("/photos/img{}.jpg", i)).collect()
}

fn detection(path: &str, has_buck: bool, confidence: f32) -> BuckDetection {
    BuckDetection {
        path: path.to_string(),
        has_buck,
        confidence_bits: confidence.to_bits(),
    }
}

fn answer_all(batch: &[String]) -> Vec<BuckDetection> {
    batch
        .iter()
        .enumerate()
        .map(|(i, p)| detection(p, i % 3 == 0, 0.5 + i as f32 / 100.0))
        .collect()
}

#[test]
fn twenty_three_items_make_three_batches() {
    let batches = partition_batches(&paths(23));
    let sizes: Vec<usize> = batches.iter().map(|b| b.len()).collect();
    assert_eq!(sizes, vec![10, 10, 3]);
    assert_eq!(batches[0][0], "/photos/img0.jpg");
    assert_eq!(batches[2][2], "/photos/img22.jpg");
    assert_eq!(BATCH_SIZE, 10);
}

#[test]
fn partition_edge_sizes() {
    assert!(partition_batches(&paths(0)).is_empty());
    let one = partition_batches(&paths(1));
    assert_eq!(one.len(), 1);
    assert_eq!(one[0].len(), 1);
    let ten = partition_batches(&paths(10));
    assert_eq!(ten.len(), 1);
    assert_eq!(ten[0].len(), 10);
    let eleven = partition_batches(&paths(11));
    assert_eq!(eleven.iter().map(|b| b.len()).collect::<Vec<_>>(), vec![10, 1]);
}

#[test]
fn all_batches_failing_still_completes() {
    let mut state = ScanStateInner::new();
    let started = state.start_scan("/photos".to_string(), &paths(23)).unwrap();
    assert_eq!(started.total_images, 23);
    let generation = state.generation();
    let mut seen = Vec::new();
    while let Some(batch) = state.next_batch(generation) {
        seen.push(batch.len());
        state.complete_batch(generation, Err("detector crashed".to_string()));
    }
    assert_eq!(seen, vec![10, 10, 3]);
    let progress = state.snapshot();
    assert_eq!(progress.total, 23);
    assert_eq!(progress.processed, 23);
    assert!(progress.is_complete);
    assert!(progress.buck_images.is_empty());
    assert!(!state.is_scanning());
}

#[test]
fn empty_folder_leaves_prior_state() {
    let mut state = ScanStateInner::new();
    state.start_scan("/first".to_string(), &paths(3)).unwrap();
    let generation = state.generation();
    let batch = state.next_batch(generation).unwrap();
    state.complete_batch(generation, Ok(vec![detection(&batch[0], true, 0.9)]));
    let err = state.start_scan("/empty".to_string(), &Vec::new());
    assert!(matches!(err, Err(ScanError::NoItemsFound)));
    assert_eq!(state.total(), 3);
    assert_eq!(state.processed(), 3);
    assert_eq!(state.generation(), generation);
    assert_eq!(state.source_folder(), Some("/first".to_string()));
    let progress = state.snapshot();
    assert_eq!(progress.buck_images.len(), 1);
    assert_eq!(progress.buck_images[0].path, batch[0]);
}

#[test]
fn empty_folder_on_fresh_state() {
    let mut state = ScanStateInner::new();
    assert_eq!(
        state.start_scan("/empty".to_string(), &Vec::new()).err(),
        Some(ScanError::NoItemsFound)
    );
    assert_eq!(state.total(), 0);
    assert!(!state.is_scanning());
    assert!(!state.is_complete());
    assert_eq!(state.source_folder(), None);
    assert_eq!(
        ScanError::NoItemsFound.message(),
        "No images found in the selected folder"
    );
}

#[test]
fn progress_only_moves_forward_on_batch_boundaries() {
    let mut state = ScanStateInner::new();
    state.start_scan("/photos".to_string(), &paths(23)).unwrap();
    let generation = state.generation();
    let mut processed = vec![state.snapshot().processed];
    let mut previous_results: Vec<String> = Vec::new();
    let mut round = 0;
    while let Some(batch) = state.next_batch(generation) {
        let outcome = if round == 1 {
            Err("bad output".to_string())
        } else {
            Ok(answer_all(&batch))
        };
        state.complete_batch(generation, outcome);
        let snap = state.snapshot();
        let now: Vec<String> = snap.buck_images.iter().map(|d| d.path.clone()).collect();
        assert!(now.len() >= previous_results.len());
        assert_eq!(&now[..previous_results.len()], &previous_results[..]);
        previous_results = now;
        processed.push(snap.processed);
        round += 1;
    }
    assert_eq!(processed, vec![0, 10, 20, 23]);
    assert!(state.is_complete());
}

#[test]
fn only_matches_are_kept_in_answer_order() {
    let mut state = ScanStateInner::new();
    state.start_scan("/photos".to_string(), &paths(4)).unwrap();
    let generation = state.generation();
    let batch = state.next_batch(generation).unwrap();
    assert_eq!(batch, paths(4));
    let answer = vec![
        detection("/photos/img3.jpg", true, 0.8),
        detection("/photos/img1.jpg", false, 0.1),
        detection("/photos/img0.jpg", true, 0.95),
    ];
    state.complete_batch(generation, Ok(answer));
    let snap = state.snapshot();
    assert_eq!(snap.processed, 4);
    assert!(snap.is_complete);
    let kept: Vec<&str> = snap.buck_images.iter().map(|d| d.path.as_str()).collect();
    assert_eq!(kept, vec!["/photos/img3.jpg", "/photos/img0.jpg"]);
    assert_eq!(f32::from_bits(snap.buck_images[1].confidence_bits), 0.95);
    assert!(snap.buck_images.iter().all(|d| d.has_buck));
}

#[test]
fn answer_for_superseded_scan_is_ignored() {
    let mut state = ScanStateInner::new();
    state.start_scan("/old".to_string(), &paths(15)).unwrap();
    let old_generation = state.generation();
    state.start_scan("/new".to_string(), &paths(5)).unwrap();
    let new_generation = state.generation();
    assert_ne!(old_generation, new_generation);
    state.complete_batch(old_generation, Ok(vec![detection("/old/x.jpg", true, 0.7)]));
    let snap = state.snapshot();
    assert_eq!(snap.total, 5);
    assert_eq!(snap.processed, 0);
    assert!(snap.buck_images.is_empty());
    assert!(state.is_scanning());
    assert_eq!(state.source_folder(), Some("/new".to_string()));
    assert!(state.next_batch(old_generation).is_none());
    assert_eq!(state.next_batch(new_generation).map(|b| b.len()), Some(5));
}

#[test]
fn new_scan_resets_results() {
    let mut state = ScanStateInner::new();
    state.start_scan("/a".to_string(), &paths(2)).unwrap();
    let g = state.generation();
    state.complete_batch(g, Ok(vec![detection("/a/1.jpg", true, 0.6)]));
    assert!(state.is_complete());
    state.start_scan("/b".to_string(), &paths(12)).unwrap();
    let snap = state.snapshot();
    assert_eq!(snap.total, 12);
    assert_eq!(snap.processed, 0);
    assert!(!snap.is_complete);
    assert!(snap.buck_images.is_empty());
    assert!(state.is_scanning());
}

#[test]
fn answer_after_completion_changes_nothing() {
    let mut state = ScanStateInner::new();
    state.start_scan("/a".to_string(), &paths(1)).unwrap();
    let g = state.generation();
    state.complete_batch(g, Err("failed".to_string()));
    state.complete_batch(g, Ok(vec![detection("/a/late.jpg", true, 0.6)]));
    let snap = state.snapshot();
    assert_eq!(snap.processed, 1);
    assert!(snap.buck_images.is_empty());
    assert!(state.next_batch(g).is_none());
}
