use backend::error::Error;
use backend::ranking::{
    drop_repeats, may_precede, post_ids, rank, results, to_hit, Found, Hit, MAX_SCORE,
};

fn hit(score: f32, post_id: u32) -> Hit {
    Hit { score: score.to_bits(), post_id }
}

#[test]
fn better_score_ranks_first() {
    let hits = vec![hit(0.5, 1), hit(2.0, 2), hit(1.25, 3)];
    assert_eq!(rank(&hits), vec![hit(2.0, 2), hit(1.25, 3), hit(0.5, 1)]);
    assert_eq!(post_ids(&rank(&hits)), vec![2, 3, 1]);
}

#[test]
fn equal_scores_rank_by_id() {
    let hits = vec![hit(1.0, 9), hit(1.0, 3), hit(3.0, 8), hit(1.0, 5), hit(3.0, 2)];
    assert_eq!(post_ids(&rank(&hits)), vec![2, 8, 3, 5, 9]);
}

#[test]
fn ranking_keeps_every_hit() {
    let hits = vec![hit(1.0, 4), hit(1.0, 4), hit(0.0, 1), hit(7.5, 4)];
    let ranking = rank(&hits);
    assert_eq!(ranking, vec![hit(7.5, 4), hit(1.0, 4), hit(1.0, 4), hit(0.0, 1)]);
    assert_eq!(rank(&ranking), ranking);
    assert_eq!(rank(&vec![]), vec![]);
    assert_eq!(post_ids(&vec![]), Vec::<u32>::new());
}

#[test]
fn scores_compare_as_numbers() {
    let scores = [0.0f32, 1.0e-30, 0.001, 0.5, 1.0, 1.5, 2.0, 1000.0, 3.0e38];
    for pair in scores.windows(2) {
        assert!(pair[0].to_bits() < pair[1].to_bits());
        assert!(may_precede(&hit(pair[1], 9), &hit(pair[0], 1)));
        assert!(!may_precede(&hit(pair[0], 1), &hit(pair[1], 9)));
    }
    assert!(may_precede(&hit(1.0, 1), &hit(1.0, 1)));
    assert!(may_precede(&hit(1.0, 1), &hit(1.0, 2)));
    assert!(!may_precede(&hit(1.0, 2), &hit(1.0, 1)));
}

#[test]
fn match_names_a_post_id() {
    let found = |stored| Found { score: 7, stored };
    assert_eq!(to_hit(&found(Some(0))), Some(Hit { score: 7, post_id: 0 }));
    assert_eq!(to_hit(&found(Some(17))), Some(Hit { score: 7, post_id: 17 }));
    assert_eq!(to_hit(&found(Some(4294967295))), Some(Hit { score: 7, post_id: u32::MAX }));
    assert_eq!(to_hit(&found(Some(4294967296))), None);
    assert_eq!(to_hit(&found(Some(u64::MAX))), None);
    assert_eq!(to_hit(&found(None)), None);
}

#[test]
fn match_needs_a_score_that_is_not_negative() {
    let scored = |score: f32| Found { score: score.to_bits(), stored: Some(5) };
    assert_eq!(MAX_SCORE, f32::INFINITY.to_bits());
    assert!(to_hit(&scored(0.0)).is_some());
    assert!(to_hit(&scored(12.5)).is_some());
    assert!(to_hit(&scored(f32::MAX)).is_some());
    assert!(to_hit(&scored(f32::INFINITY)).is_some());
    assert_eq!(to_hit(&scored(-0.0)), None);
    assert_eq!(to_hit(&scored(-1.5)), None);
    assert_eq!(to_hit(&scored(f32::NAN)), None);
    assert_eq!(to_hit(&Found { score: MAX_SCORE + 1, stored: Some(5) }), None);
    assert_eq!(results(&vec![scored(1.0), scored(-1.0)]), Err(Error::SearchErr));
}

#[test]
fn nothing_found_is_an_empty_result() {
    assert_eq!(results(&vec![]), Ok(vec![]));
}

#[test]
fn results_are_the_ranked_post_ids() {
    let found = vec![
        Found { score: 1.0f32.to_bits(), stored: Some(9) },
        Found { score: 2.5f32.to_bits(), stored: Some(4) },
        Found { score: 1.0f32.to_bits(), stored: Some(3) },
    ];
    assert_eq!(results(&found), Ok(vec![4, 3, 9]));
}

#[test]
fn match_without_a_post_id_fails_the_search() {
    let found = vec![
        Found { score: 3, stored: Some(9) },
        Found { score: 2, stored: None },
        Found { score: 1, stored: Some(3) },
    ];
    assert_eq!(results(&found), Err(Error::SearchErr));
    let too_big = vec![Found { score: 3, stored: Some(1 << 32) }];
    assert_eq!(results(&too_big), Err(Error::SearchErr));
}

#[test]
fn repeated_ids_are_dropped_after_the_first() {
    assert_eq!(drop_repeats(&vec![3, 1, 3, 2, 1, 3]), vec![3, 1, 2]);
    assert_eq!(drop_repeats(&vec![]), Vec::<u32>::new());
    assert_eq!(drop_repeats(&vec![5, 5, 5]), vec![5]);
    let found = vec![
        Found { score: 1.0f32.to_bits(), stored: Some(9) },
        Found { score: 2.5f32.to_bits(), stored: Some(4) },
        Found { score: 3.0f32.to_bits(), stored: Some(9) },
        Found { score: 1.0f32.to_bits(), stored: Some(4) },
    ];
    assert_eq!(results(&found), Ok(vec![9, 4]));
}
