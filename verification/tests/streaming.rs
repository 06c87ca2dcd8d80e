use hubcaps::stream::{drain, ApiError, ItemStream, Page, Pulled, ScriptedSource};

fn page(items: Vec<u32>, next: Option<&str>) -> Result<Page<u32>, ApiError> {
    Ok(Page {
        items,
        next: next.map(|u| u.to_string()),
    })
}

#[test]
fn full_run_yields_all_items_in_order() {
    let mut source = ScriptedSource::new(vec![
        page(vec![1, 2], Some("p2")),
        page(vec![3], Some("p3")),
        page(vec![4, 5, 6], None),
    ]);
    let mut stream: ItemStream<u32> = ItemStream::new("p1".to_string());
    let (items, failure) = drain(&mut stream, &mut source);
    assert_eq!(items, vec![1, 2, 3, 4, 5, 6]);
    assert!(failure.is_none());
    assert_eq!(source.remaining(), 0);
}

#[test]
fn failure_ends_the_run_after_earlier_items() {
    let mut source = ScriptedSource::new(vec![
        page(vec![1, 2], Some("p2")),
        Err(ApiError::Status(502)),
        page(vec![9], None),
    ]);
    let mut stream: ItemStream<u32> = ItemStream::new("p1".to_string());
    let (items, failure) = drain(&mut stream, &mut source);
    assert_eq!(items, vec![1, 2]);
    assert_eq!(failure, Some(ApiError::Status(502)));
    assert_eq!(source.remaining(), 1);
}

#[test]
fn abandoned_stream_fetches_no_further_page() {
    let mut source = ScriptedSource::new(vec![
        page(vec![1, 2], Some("p2")),
        page(vec![3], None),
    ]);
    let mut stream: ItemStream<u32> = ItemStream::new("p1".to_string());
    match stream.pull() {
        Pulled::Fetch(url) => {
            assert_eq!(url, "p1");
            assert!(stream.awaiting());
            stream.feed(source.fetch());
        }
        other => panic!("expected a fetch request, got {:?}", kind(&other)),
    }
    assert!(matches!(stream.pull(), Pulled::Item(1)));
    assert!(matches!(stream.pull(), Pulled::Item(2)));
    drop(stream);
    assert_eq!(source.remaining(), 1);
}

#[test]
fn empty_page_ends_immediately() {
    let mut source = ScriptedSource::new(vec![page(vec![], None)]);
    let mut stream: ItemStream<u32> = ItemStream::new("p1".to_string());
    match stream.pull() {
        Pulled::Fetch(_) => stream.feed(source.fetch()),
        other => panic!("expected a fetch request, got {:?}", kind(&other)),
    }
    assert!(matches!(stream.pull(), Pulled::End));
    assert!(matches!(stream.pull(), Pulled::End));
}

#[test]
fn drained_empty_page_yields_nothing() {
    let mut source = ScriptedSource::new(vec![page(vec![], None)]);
    let mut stream: ItemStream<u32> = ItemStream::new("p1".to_string());
    let (items, failure) = drain(&mut stream, &mut source);
    assert!(items.is_empty());
    assert!(failure.is_none());
}

#[test]
fn failure_is_yielded_exactly_once() {
    let mut source = ScriptedSource::new(vec![Err::<Page<u32>, _>(ApiError::Transport(
        "connection reset".to_string(),
    ))]);
    let mut stream: ItemStream<u32> = ItemStream::new("p1".to_string());
    match stream.pull() {
        Pulled::Fetch(_) => stream.feed(source.fetch()),
        other => panic!("expected a fetch request, got {:?}", kind(&other)),
    }
    assert!(matches!(stream.pull(), Pulled::Failure(ApiError::Transport(_))));
    assert!(matches!(stream.pull(), Pulled::End));
}

#[test]
fn decode_failure_is_surfaced_verbatim() {
    let mut source = ScriptedSource::new(vec![
        page(vec![1], Some("p2")),
        Err(ApiError::Decode("missing field".to_string())),
    ]);
    let mut stream: ItemStream<u32> = ItemStream::new("p1".to_string());
    let (items, failure) = drain(&mut stream, &mut source);
    assert_eq!(items, vec![1]);
    assert_eq!(failure, Some(ApiError::Decode("missing field".to_string())));
}

#[test]
fn pull_repeats_the_fetch_request_until_fed() {
    let mut stream: ItemStream<u32> = ItemStream::new("p1".to_string());
    for _ in 0..3 {
        match stream.pull() {
            Pulled::Fetch(url) => assert_eq!(url, "p1"),
            other => panic!("expected a fetch request, got {:?}", kind(&other)),
        }
    }
}

fn kind(p: &Pulled<u32>) -> &'static str {
    match p {
        Pulled::Item(_) => "an item",
        Pulled::Fetch(_) => "a fetch request",
        Pulled::Failure(_) => "a failure",
        Pulled::End => "the end",
    }
}
