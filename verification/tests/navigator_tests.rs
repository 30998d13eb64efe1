use loro_time_travel::errors::SeekError;
use loro_time_travel::navigator::{import_snapshot, VersionNavigator};
use loro_time_travel::timeline::{head_frontier, timeline_for_head, timeline_of_doc, ChangeId};

fn doc_with_text(s: &str) -> loro::LoroDoc {
    let doc = loro::LoroDoc::new();
    doc.get_text("text").insert(0, s).unwrap();
    doc.commit();
    doc
}

#[test]
fn timeline_covers_every_operation_reachable_from_head() {
    let doc = doc_with_text("abc");
    let timeline = timeline_of_doc(&doc).unwrap();
    // one timeline entry per operation in the document's history
    assert_eq!(timeline.len(), doc.len_ops());
    assert!(timeline.len() >= 1);
}

#[test]
fn empty_document_has_empty_timeline_and_max_index_minus_one() {
    let doc = loro::LoroDoc::new();
    let timeline = timeline_of_doc(&doc).unwrap();
    assert_eq!(timeline.len(), 0);
    let nav = VersionNavigator::new(timeline, "text".to_string());
    assert_eq!(nav.max_index(), -1);
    assert_eq!(nav.current_index(), -1);
}

#[test]
fn last_timeline_entry_immediately_precedes_head() {
    let doc = doc_with_text("abc");
    let head = head_frontier(&doc);
    let timeline = timeline_for_head(&doc, &head).unwrap();
    // a single-author document has a single-id head frontier, and it is
    // exactly the last timeline entry
    assert_eq!(head.len(), 1);
    assert_eq!(*timeline.last().unwrap(), head[0]);
}

#[test]
fn round_trip_checkout_at_last_entry_reproduces_head() {
    let doc = doc_with_text("hello");
    let head = head_frontier(&doc);
    let timeline = timeline_of_doc(&doc).unwrap();
    let n = timeline.len();
    let mut nav = VersionNavigator::new(timeline, "text".to_string());
    nav.seek(&doc, (n - 1) as i64).unwrap();
    // the state frontier after checking out Timeline[N-1] is causally
    // equal to the document's actual head
    let now: Vec<ChangeId> = head_frontier(&doc);
    assert_eq!(now, head);
    assert_eq!(nav.current_text().as_str(), "hello");
}

#[test]
fn seek_walks_prefixes_of_the_edit_history() {
    let doc = doc_with_text("abc");
    let timeline = timeline_of_doc(&doc).unwrap();
    assert_eq!(timeline.len(), 3);
    let mut nav = VersionNavigator::new(timeline, "text".to_string());
    nav.seek(&doc, 0).unwrap();
    assert_eq!(nav.current_text().as_str(), "a");
    nav.seek(&doc, 1).unwrap();
    assert_eq!(nav.current_text().as_str(), "ab");
    nav.seek(&doc, 2).unwrap();
    assert_eq!(nav.current_text().as_str(), "abc");
    assert_eq!(nav.latency_stats().count(), 3);
}

#[test]
fn seek_same_index_twice_is_replayable() {
    let doc = doc_with_text("abcdef");
    let timeline = timeline_of_doc(&doc).unwrap();
    let mut nav = VersionNavigator::new(timeline, "text".to_string());
    nav.seek(&doc, 2).unwrap();
    let first = nav.current_text().clone();
    nav.seek(&doc, 5).unwrap();
    nav.seek(&doc, 2).unwrap();
    let second = nav.current_text().clone();
    assert_eq!(first, second);
    assert_eq!(nav.current_index(), 2);
}

#[test]
fn live_seek_is_idempotent_with_empty_content() {
    let doc = doc_with_text("abc");
    let timeline = timeline_of_doc(&doc).unwrap();
    let mut nav = VersionNavigator::new(timeline, "text".to_string());
    nav.seek(&doc, 1).unwrap();
    assert_eq!(nav.current_text().as_str(), "ab");

    nav.seek(&doc, -1).unwrap();
    assert_eq!(nav.current_index(), -1);
    assert_eq!(nav.current_text().as_str(), "");
    nav.seek(&doc, -1).unwrap();
    assert_eq!(nav.current_index(), -1);
    assert_eq!(nav.current_text().as_str(), "");

    // each successful live seek still records exactly one sample
    assert_eq!(nav.latency_stats().count(), 3);
    let min = nav.latency_stats().min().unwrap();
    let max = nav.latency_stats().max().unwrap();
    assert!(min <= max);
}

#[test]
fn out_of_range_seek_is_rejected_without_transition() {
    let doc = doc_with_text("abc");
    let timeline = timeline_of_doc(&doc).unwrap();
    let n = timeline.len() as i64;
    let mut nav = VersionNavigator::new(timeline, "text".to_string());
    nav.seek(&doc, 1).unwrap();
    let text_before = nav.current_text().clone();

    assert_eq!(nav.seek(&doc, n), Err(SeekError::IndexOutOfRange));
    assert_eq!(nav.seek(&doc, -2), Err(SeekError::IndexOutOfRange));
    assert_eq!(nav.seek(&doc, i64::MAX), Err(SeekError::IndexOutOfRange));

    assert_eq!(nav.current_index(), 1);
    assert_eq!(nav.current_text(), &text_before);
    assert_eq!(nav.latency_stats().count(), 1);
}

#[test]
fn snapshot_round_trip_imports_cleanly() {
    let doc = doc_with_text("snapshot body");
    let bytes = doc.export(loro::ExportMode::Snapshot).unwrap();

    let copy = loro::LoroDoc::new();
    import_snapshot(&copy, &bytes).unwrap();
    let copied_timeline = timeline_of_doc(&copy).unwrap();
    let source_timeline = timeline_of_doc(&doc).unwrap();
    assert_eq!(copied_timeline, source_timeline);
}

#[test]
fn malformed_snapshot_fails_import() {
    let doc = loro::LoroDoc::new();
    let r = import_snapshot(&doc, &[1, 2, 3, 4, 5]);
    assert!(r.is_err());
}

#[test]
fn unknown_frontier_fails_traversal() {
    let doc = doc_with_text("abc");
    let bogus = vec![ChangeId { peer: 424242, counter: 7 }];
    let r = timeline_for_head(&doc, &bogus);
    assert!(r.is_err());
}

#[test]
fn missing_text_field_displays_empty() {
    // names in the engine's reserved mergeable namespace denote containers
    // that exist only if created explicitly; reading such a field on a
    // document that never created it must display empty text, not panic
    let doc = doc_with_text("abc");
    let timeline = timeline_of_doc(&doc).unwrap();
    let mut nav = VersionNavigator::new(timeline, "\u{1F91D}:$a>k".to_string());
    nav.seek(&doc, 0).unwrap();
    assert_eq!(nav.current_index(), 0);
    assert_eq!(nav.current_text().as_str(), "");
    assert_eq!(nav.latency_stats().count(), 1);
}

#[test]
fn concurrent_branches_linearize_and_replay() {
    // two peers edit independently, then one imports the other's history,
    // so the change graph has two causal branches
    let a = doc_with_text("aaa");
    let b = loro::LoroDoc::new();
    b.get_text("text").insert(0, "bbb").unwrap();
    b.commit();
    a.import(&b.export(loro::ExportMode::Snapshot).unwrap()).unwrap();

    let timeline = timeline_of_doc(&a).unwrap();
    assert_eq!(timeline.len(), a.len_ops());
    assert_eq!(timeline.len(), 6);

    // within each author, operation counters increase along the timeline
    for peer in timeline.iter().map(|id| id.peer).collect::<std::collections::HashSet<_>>() {
        let counters: Vec<i32> =
            timeline.iter().filter(|id| id.peer == peer).map(|id| id.counter).collect();
        for w in counters.windows(2) {
            assert!(w[0] < w[1]);
        }
    }

    // every timeline index is addressable, each seek recording one sample;
    // each version shows the causal closure of one operation, so between
    // one and six characters of the two three-character insertions
    let n = timeline.len();
    let mut nav = VersionNavigator::new(timeline, "text".to_string());
    for i in 0..n {
        nav.seek(&a, i as i64).unwrap();
        let len = nav.current_text().chars().count();
        assert!((1..=6).contains(&len));
    }
    assert_eq!(nav.latency_stats().count(), n as u64);
}

#[test]
fn checkout_failure_leaves_navigator_unchanged() {
    let doc = doc_with_text("abc");
    let timeline = timeline_of_doc(&doc).unwrap();
    // a timeline entry the engine does not know: the navigator screens the
    // index as valid but the engine refuses the checkout
    let mut fake = timeline.clone();
    fake[1] = ChangeId { peer: 999999, counter: 0 };
    let mut nav = VersionNavigator::new(fake, "text".to_string());
    nav.seek(&doc, 0).unwrap();
    let before_index = nav.current_index();
    let before_count = nav.latency_stats().count();

    let r = nav.seek(&doc, 1);
    assert!(matches!(r, Err(SeekError::CheckoutFailed { .. })));
    assert_eq!(nav.current_index(), before_index);
    assert_eq!(nav.latency_stats().count(), before_count);
}
