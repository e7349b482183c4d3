use chroma_stream::filter::FilterType;
use chroma_stream::registry::{collect_failed, State};

#[test]
fn test_default_state() {
    let state: State<u32> = State::default();
    assert_eq!(state.filter, FilterType::Red);
    assert_eq!(state.con_count, 0);
    assert_eq!(state.stream_count(), 0);
}

#[test]
fn test_identifiers_strictly_increase_and_never_recur() {
    let mut state: State<u32> = State::default();
    let id1 = state.insert_stream(10);
    let id2 = state.insert_stream(20);
    let id3 = state.insert_stream(30);
    assert_eq!((id1, id2, id3), (1, 2, 3));

    // Prune two entries; the counter is untouched and the next
    // identifier is still fresh.
    state.prune(&vec![1, 3]);
    assert_eq!(state.stream_count(), 1);
    assert_eq!(state.id_at(0), 2);
    assert_eq!(state.con_count, 3);

    let id4 = state.insert_stream(40);
    assert_eq!(id4, 4);
    assert_eq!(state.id_list(), vec![2, 4]);
}

#[test]
fn test_collect_failed_picks_failures_in_order() {
    let ids: Vec<usize> = vec![1, 2, 3, 4];
    let ok: Vec<bool> = vec![false, true, false, true];
    assert_eq!(collect_failed(&ids, &ok), vec![1, 3]);

    let all_ok: Vec<bool> = vec![true, true, true, true];
    assert_eq!(collect_failed(&ids, &all_ok), Vec::<usize>::new());
}

#[test]
fn test_broadcast_prunes_exactly_the_failed_sink() {
    // A full collect-then-prune pass where sink 2 of 3 fails: exactly that
    // entry leaves, the others stay registered, in order, with their sinks.
    let mut state: State<&str> = State::default();
    state.insert_stream("alpha");
    state.insert_stream("beta");
    state.insert_stream("gamma");

    let ids = state.id_list();
    let mut delivered: Vec<&str> = Vec::new();
    let mut ok: Vec<bool> = Vec::new();
    for i in 0..state.stream_count() {
        // Writing to sink 2 fails; every other write succeeds once.
        let failed_write = state.id_at(i) == 2;
        if !failed_write {
            delivered.push(*state.sink_at(i));
        }
        ok.push(!failed_write);
    }
    let failed = collect_failed(&ids, &ok);
    state.prune(&failed);

    assert_eq!(delivered, vec!["alpha", "gamma"]);
    assert_eq!(state.id_list(), vec![1, 3]);
    assert_eq!(*state.sink_at(0), "alpha");
    assert_eq!(*state.sink_at(1), "gamma");
    assert_eq!(state.con_count, 3);
}

#[test]
fn test_prune_with_no_failures_keeps_all() {
    let mut state: State<u32> = State::default();
    state.insert_stream(10);
    state.insert_stream(20);
    state.prune(&Vec::new());
    assert_eq!(state.id_list(), vec![1, 2]);
}
