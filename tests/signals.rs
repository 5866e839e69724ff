use polymer::signals::{connect_signal, emit_signal, emit_signal_inner, SignalTable};

fn drain(e: &mut polymer::signals::Emission) -> Vec<u64> {
    let mut ran = Vec::new();
    while let Some(h) = e.next_handler() {
        ran.push(h);
    }
    ran
}

#[test]
fn two_handlers_run_once_in_connection_order() {
    let mut t = SignalTable::new();
    connect_signal(&mut t, "tick", 7);
    connect_signal(&mut t, "tick", 3);
    let mut e = emit_signal_inner(&t, "tick");
    assert_eq!(drain(&mut e), vec![7, 3]);
    assert_eq!(e.next_handler(), None);
}

#[test]
fn handlers_of_other_signals_do_not_run() {
    let mut t = SignalTable::new();
    connect_signal(&mut t, "a", 1);
    connect_signal(&mut t, "b", 2);
    connect_signal(&mut t, "a", 3);
    connect_signal(&mut t, "ab", 4);
    let mut e = emit_signal(&t, "a".to_string());
    assert_eq!(drain(&mut e), vec![1, 3]);
    let mut e = emit_signal(&t, "b".to_string());
    assert_eq!(drain(&mut e), vec![2]);
}

#[test]
fn same_handler_connected_twice_runs_twice() {
    let mut t = SignalTable::new();
    connect_signal(&mut t, "tick", 5);
    connect_signal(&mut t, "tick", 5);
    let mut e = emit_signal_inner(&t, "tick");
    assert_eq!(drain(&mut e), vec![5, 5]);
}

#[test]
fn emitting_unconnected_signal_runs_nothing() {
    let t = SignalTable::new();
    let mut e = emit_signal_inner(&t, "nobody");
    assert_eq!(e.next_handler(), None);

    let mut t = SignalTable::new();
    connect_signal(&mut t, "somebody", 1);
    let mut e = emit_signal_inner(&t, "nobody");
    assert_eq!(e.next_handler(), None);
}

#[test]
fn failing_handler_does_not_stop_later_handlers() {
    let mut t = SignalTable::new();
    connect_signal(&mut t, "redraw", 1);
    connect_signal(&mut t, "redraw", 2);
    connect_signal(&mut t, "redraw", 3);
    let mut e = emit_signal_inner(&t, "redraw");
    let mut ran = Vec::new();
    let mut lines = Vec::new();
    while let Some(h) = e.next_handler() {
        ran.push(h);
        let outcome = if h == 2 { Err("boom".to_string()) } else { Ok(()) };
        if let Some(line) = e.report(&outcome) {
            lines.push(line);
        }
    }
    assert_eq!(ran, vec![1, 2, 3]);
    assert_eq!(lines, vec!["Error while emitting signal redraw: boom".to_string()]);
}

#[test]
fn successful_handler_logs_nothing() {
    let mut t = SignalTable::new();
    connect_signal(&mut t, "s", 1);
    let mut e = emit_signal_inner(&t, "s");
    assert_eq!(e.next_handler(), Some(1));
    assert_eq!(e.report(&Ok(())), None);
    assert_eq!(e.next_handler(), None);
}
