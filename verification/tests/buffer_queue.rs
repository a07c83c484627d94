use html5lex::buffer_queue::SetResult;
use html5lex::BufferQueue;
use html5lex::SmallCharSet;

#[test]
fn smoke_test() {
    let mut bq = BufferQueue::new();
    assert_eq!(bq.peek(), None);
    assert_eq!(bq.next(), None);

    bq.push_back("abc".to_string());
    assert_eq!(bq.peek(), Some('a'));
    assert_eq!(bq.next(), Some('a'));
    assert_eq!(bq.peek(), Some('b'));
    assert_eq!(bq.peek(), Some('b'));
    assert_eq!(bq.next(), Some('b'));
    assert_eq!(bq.peek(), Some('c'));
    assert_eq!(bq.next(), Some('c'));
    assert_eq!(bq.peek(), None);
    assert_eq!(bq.next(), None);
}

#[test]
fn can_unconsume() {
    let mut bq = BufferQueue::new();
    bq.push_back("abc".to_string());
    assert_eq!(bq.next(), Some('a'));

    bq.push_front("xy".to_string());
    assert_eq!(bq.next(), Some('x'));
    assert_eq!(bq.next(), Some('y'));
    assert_eq!(bq.next(), Some('b'));
    assert_eq!(bq.next(), Some('c'));
    assert_eq!(bq.next(), None);
}

#[test]
fn can_pop_except_set() {
    let mut bq = BufferQueue::new();
    bq.push_back("abc&def".to_string());
    let set = SmallCharSet::from_slice(&['&']);
    assert_eq!(bq.pop_except_from(set), Some(SetResult::NotFromSet("abc".to_string())));
    assert_eq!(bq.pop_except_from(set), Some(SetResult::FromSet('&')));
    assert_eq!(bq.pop_except_from(set), Some(SetResult::NotFromSet("def".to_string())));
    assert_eq!(bq.pop_except_from(set), None);
}

#[test]
fn can_eat() {
    // This is not very comprehensive.  We rely on the tokenizer
    // integration tests for more thorough testing with many
    // different input buffer splits.
    let mut bq = BufferQueue::new();
    bq.push_back("a".to_string());
    bq.push_back("bc".to_string());
    assert_eq!(bq.eat("abcd", true), Err(3));
    assert_eq!(bq.eat("ax", true), Ok(false));
    assert_eq!(bq.eat("ab", true), Ok(true));
    assert_eq!(bq.next(), Some('c'));
    assert_eq!(bq.next(), None);
}

#[test]
fn eat_ignores_ascii_case_only_when_asked() {
    let mut bq = BufferQueue::new();
    bq.push_back("DocType".to_string());
    assert_eq!(bq.eat("doctype", false), Ok(false));
    assert_eq!(bq.eat("doctype", true), Ok(true));
    assert_eq!(bq.next(), None);
}

#[test]
fn pop_except_runs_stop_at_chunk_boundary() {
    let mut bq = BufferQueue::new();
    bq.push_back("ab".to_string());
    bq.push_back("cd".to_string());
    let set = SmallCharSet::from_slice(&['&']);
    assert_eq!(bq.pop_except_from(set), Some(SetResult::NotFromSet("ab".to_string())));
    assert_eq!(bq.pop_except_from(set), Some(SetResult::NotFromSet("cd".to_string())));
    assert_eq!(bq.pop_except_from(set), None);
}

#[test]
fn empty_chunks_are_dropped() {
    let mut bq = BufferQueue::new();
    bq.push_back(String::new());
    assert!(bq.is_empty());
    bq.push_back("a".to_string());
    bq.push_front(String::new());
    assert_eq!(bq.next(), Some('a'));
    assert_eq!(bq.next(), None);
}
