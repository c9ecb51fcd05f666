use bulk_query::join_outcomes;

#[test]
fn all_chunks_succeeding_is_success() {
    let outcomes: Vec<Result<(), String>> = vec![Ok(()), Ok(()), Ok(())];
    assert!(join_outcomes(outcomes).is_ok());
}

#[test]
fn no_chunks_is_success() {
    assert!(join_outcomes(Vec::new()).is_ok());
}

#[test]
fn failed_chunk_is_reported_and_sibling_outcome_kept() {
    // The first chunk's insert succeeded and stays committed; the second hit a
    // constraint violation. The aggregate is a failure naming chunk one; the
    // sibling's success is not reverted by this layer.
    let outcomes: Vec<Result<(), String>> = vec![
        Ok(()),
        Err("constraint violation".to_string()),
        Ok(()),
    ];
    let failure = join_outcomes(outcomes).unwrap_err();
    assert_eq!(failure.chunk_index, 1);
    assert_eq!(failure.message, "constraint violation");
}

#[test]
fn first_of_several_failures_is_surfaced() {
    let outcomes: Vec<Result<(), String>> = vec![
        Err("connectivity loss".to_string()),
        Err("constraint violation".to_string()),
    ];
    let failure = join_outcomes(outcomes).unwrap_err();
    assert_eq!(failure.chunk_index, 0);
    assert_eq!(failure.message, "connectivity loss");
}
