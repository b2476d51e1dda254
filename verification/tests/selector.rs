use gifff::MediaRecord;
use gifff::errors::Error;
use gifff::history::History;
use gifff::selector::pick;
use gifff::selector::pick_n;

fn record(id: &str, url: &str) -> MediaRecord {
    MediaRecord { id: id.to_string(), url: url.to_string() }
}

fn three_records() -> Vec<MediaRecord> {
    vec![record("a", "u1"), record("b", "u2"), record("c", "u3")]
}

#[test]
fn empty_history_always_yields_a_candidate() {
    for _ in 0..32 {
        let mut candidates = three_records();
        let history = History::new();
        let chosen = pick(&mut candidates, &history, false).expect("non-empty candidates");
        assert!(["a", "b", "c"].contains(&chosen.id.as_str()));
        assert_eq!(candidates.len(), 2);
        assert!(!candidates.iter().any(|g| g.id == chosen.id));
    }
}

#[test]
fn fully_seen_candidates_yield_empty_result() {
    let mut candidates = three_records();
    let mut history = History::new();
    history.insert("a".to_string());
    history.insert("b".to_string());
    history.insert("c".to_string());
    let outcome = pick(&mut candidates, &history, false);
    assert!(matches!(outcome, Err(Error::EmptyResult)));
    assert!(candidates.is_empty());
}

#[test]
fn ignore_history_draws_from_everything() {
    for _ in 0..32 {
        let mut candidates = three_records();
        let mut history = History::new();
        history.insert("a".to_string());
        history.insert("b".to_string());
        history.insert("c".to_string());
        let chosen = pick(&mut candidates, &history, true).expect("history is ignored");
        assert!(["a", "b", "c"].contains(&chosen.id.as_str()));
        assert_eq!(candidates.len(), 2);
    }
}

#[test]
fn partially_seen_candidates_draw_only_from_unseen() {
    for _ in 0..32 {
        let mut candidates = three_records();
        let mut history = History::new();
        history.insert("b".to_string());
        let chosen = pick(&mut candidates, &history, false).expect("two survivors remain");
        assert!(chosen.id == "a" || chosen.id == "c");
        assert_eq!(candidates.len(), 1);
    }
}

#[test]
fn empty_candidates_yield_empty_result() {
    let mut candidates: Vec<MediaRecord> = Vec::new();
    let history = History::new();
    let outcome = pick(&mut candidates, &history, false);
    assert!(matches!(outcome, Err(Error::EmptyResult)));
}

#[test]
fn pick_n_yields_distinct_records() {
    for _ in 0..32 {
        let candidates = three_records();
        let history = History::new();
        let picked = pick_n(candidates, &history, false, 3).expect("three candidates suffice");
        assert_eq!(picked.len(), 3);
        let mut ids: Vec<String> = picked.iter().map(|g| g.id.clone()).collect();
        ids.sort();
        ids.dedup();
        assert_eq!(ids.len(), 3, "an id was repeated within one invocation");
    }
}

#[test]
fn pick_n_smaller_than_pool() {
    for _ in 0..32 {
        let candidates = three_records();
        let history = History::new();
        let picked = pick_n(candidates, &history, false, 2).expect("three candidates suffice");
        assert_eq!(picked.len(), 2);
        assert_ne!(picked[0].id, picked[1].id);
    }
}

#[test]
fn pick_n_too_many_fails_up_front() {
    let candidates = three_records();
    let history = History::new();
    let outcome = pick_n(candidates, &history, false, 4);
    assert!(matches!(outcome, Err(Error::EmptyResult)));
}

#[test]
fn pick_n_counts_only_survivors() {
    let candidates = three_records();
    let mut history = History::new();
    history.insert("b".to_string());
    let outcome = pick_n(candidates, &history, false, 3);
    assert!(matches!(outcome, Err(Error::EmptyResult)));

    let candidates = three_records();
    let picked = pick_n(candidates, &history, false, 2).expect("two survivors remain");
    assert_eq!(picked.len(), 2);
    for g in &picked {
        assert!(g.id == "a" || g.id == "c");
    }
}
