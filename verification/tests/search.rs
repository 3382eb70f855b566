use backend::error::Error;
use backend::model::Post;
use backend::search::{indexing_outcome, SearchIndex, MAX_HITS, MAX_INDEXED_TIME, MIN_INDEXED_TIME};

fn post(id: u32, body: &str) -> Post {
    Post { id, body: body.to_string(), created_at: 1_600_000_000 + id as i64, image: None, user_id: 1 }
}

#[test]
fn indexed_post_is_found_by_a_word_of_its_body() {
    let mut index = SearchIndex::new().unwrap();
    assert!(index.is_healthy());
    index.index_post(1, "hello world", 1, 10).unwrap();
    assert_eq!(index.search("hello", 10), Ok(vec![1]));
    assert_eq!(index.search("world", 10), Ok(vec![1]));
    assert_eq!(index.search("HELLO", 10), Ok(vec![1]));
    assert_eq!(index.search("hello there", 10), Ok(vec![1]));
    assert!(index.is_healthy());
}

#[test]
fn query_matching_nothing_gives_no_results() {
    let mut index = SearchIndex::new().unwrap();
    assert_eq!(index.search("hello", 10), Ok(vec![]));
    index.index_post(1, "hello world", 1, 10).unwrap();
    assert_eq!(index.search("goodbye", 10), Ok(vec![]));
    assert_eq!(index.search("hell", 10), Ok(vec![]));
}

#[test]
fn malformed_query_is_a_parse_error() {
    let mut index = SearchIndex::new().unwrap();
    index.index_post(1, "hello world", 1, 10).unwrap();
    assert_eq!(index.search("nosuchfield:hello", 10), Err(Error::QueryParseErr));
    assert_eq!(index.search("post_id:hello", 10), Err(Error::QueryParseErr));
}

#[test]
fn results_never_exceed_the_limit() {
    let mut index = SearchIndex::new().unwrap();
    for id in 1..=7u32 {
        index.index_post(id, "the same words in every post", 1, 10).unwrap();
    }
    assert_eq!(index.search("words", 3).unwrap().len(), 3);
    assert_eq!(index.search("words", 7).unwrap().len(), 7);
    assert_eq!(index.search("words", 100).unwrap().len(), 7);
    assert_eq!(index.search("words", 0), Ok(vec![]));
    // A query is parsed before the limit is looked at.
    assert_eq!(index.search("nosuchfield:hello", 0), Err(Error::QueryParseErr));
    assert_eq!(index.search("words", usize::MAX).unwrap().len(), 7);
}

#[test]
fn equal_matches_come_in_the_order_of_their_ids() {
    let mut index = SearchIndex::new().unwrap();
    for id in [5u32, 2, 9, 1, 7] {
        index.index_post(id, "the same words in every post", 1, 10).unwrap();
    }
    assert_eq!(index.search("words", 100), Ok(vec![1, 2, 5, 7, 9]));
    assert_eq!(index.search("same words", MAX_HITS), Ok(vec![1, 2, 5, 7, 9]));
    let posts: Vec<Post> = [4u32, 3, 8].iter().map(|id| post(*id, "equal text")).collect();
    index.reindex_all(&posts).unwrap();
    assert_eq!(index.search("equal", 10), Ok(vec![3, 4, 8]));
}

#[test]
fn better_match_comes_first() {
    let mut index = SearchIndex::new().unwrap();
    index.index_post(1, "a long post that mentions rust once among many other words", 1, 10).unwrap();
    index.index_post(2, "rust rust rust", 1, 11).unwrap();
    index.index_post(3, "nothing of the kind", 1, 12).unwrap();
    assert_eq!(index.search("rust", 10), Ok(vec![2, 1]));
    assert_eq!(index.search("rust", 1), Ok(vec![2]));
}

#[test]
fn rebuilt_index_finds_the_posts_of_the_store() {
    let mut index = SearchIndex::new().unwrap();
    index.index_post(1, "hello world", 1, 10).unwrap();
    index.index_post(8, "left over from a post that is gone", 1, 10).unwrap();
    let posts = vec![post(1, "hello world"), post(2, "hello again")];
    assert_eq!(index.reindex_all(&posts), Ok(()));
    assert!(index.is_healthy());
    let mut found = index.search("hello", 10).unwrap();
    found.sort();
    assert_eq!(found, vec![1, 2]);
    assert_eq!(index.search("again", 10), Ok(vec![2]));
    assert_eq!(index.search("gone", 10), Ok(vec![]));
    // Rebuilding twice gives the same index, without duplicates.
    assert_eq!(index.reindex_all(&posts), Ok(()));
    let mut found = index.search("hello", 10).unwrap();
    found.sort();
    assert_eq!(found, vec![1, 2]);
    assert_eq!(index.reindex_all(&vec![]), Ok(()));
    assert_eq!(index.search("hello", 10), Ok(vec![]));
}

#[test]
fn time_that_the_index_cannot_hold_is_refused() {
    let mut index = SearchIndex::new().unwrap();
    index.index_post(1, "first words", 1, MAX_INDEXED_TIME).unwrap();
    index.index_post(2, "second words", 1, MIN_INDEXED_TIME).unwrap();
    assert_eq!(index.index_post(3, "third words", 1, MAX_INDEXED_TIME + 1), Err(Error::SearchErr));
    assert_eq!(index.index_post(3, "third words", 1, MIN_INDEXED_TIME - 1), Err(Error::SearchErr));
    assert_eq!(index.index_post(3, "third words", 1, i64::MAX), Err(Error::SearchErr));
    assert_eq!(index.index_post(3, "third words", 1, i64::MIN), Err(Error::SearchErr));
    assert!(index.is_healthy());
    assert_eq!(index.search("words", 10), Ok(vec![1, 2]));
    assert_eq!(index.search("third", 10), Ok(vec![]));
    let mut late = post(7, "late words");
    late.created_at = i64::MAX;
    assert_eq!(index.reindex_all(&vec![post(1, "first words"), late]), Err(Error::SearchErr));
    assert_eq!(index.search("words", 10), Ok(vec![1, 2]));
    assert_eq!((MIN_INDEXED_TIME, MAX_INDEXED_TIME), (-9_223_372_036, 9_223_372_036));
}

#[test]
fn post_that_is_indexed_twice_is_found_once() {
    let mut index = SearchIndex::new().unwrap();
    index.index_post(4, "twice told words", 1, 10).unwrap();
    index.index_post(4, "twice told words", 1, 10).unwrap();
    index.index_post(2, "other words", 1, 10).unwrap();
    assert_eq!(index.search("twice", 10), Ok(vec![4]));
    let mut found = index.search("words", 10).unwrap();
    found.sort();
    assert_eq!(found, vec![2, 4]);
}

#[test]
fn steps_of_an_indexing_call_decide_its_outcome() {
    assert_eq!(indexing_outcome(true, true), (Ok(()), true));
    assert_eq!(indexing_outcome(true, false), (Err(Error::SearchErr), false));
    assert_eq!(indexing_outcome(false, true), (Err(Error::SearchErr), true));
    assert_eq!(indexing_outcome(false, false), (Err(Error::SearchErr), false));
}
