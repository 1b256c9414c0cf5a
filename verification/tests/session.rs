use telemetry_ingest::decoder::WireFormat;
use telemetry_ingest::record::Record;
use telemetry_ingest::session::{
    Action, Event, Reason, Session, IDLE_TIMEOUT_SECS, READ_RETRY_MILLIS,
};

fn line(text: &str) -> Event {
    Event::Line(text.to_string())
}

fn delimited(id: i32) -> String {
    format!("{},t{},1,2,3,0,0,0,0,0,0,0,0,0,0", id, id)
}

fn structured(id: i32) -> String {
    format!(
        "{{\"sessionId\":{},\"timestamp\":\"t\",\"latitude\":1,\"longitude\":2,\"altitude\":3,\
\"accel_x\":0,\"accel_y\":0,\"accel_z\":0,\"gyro_x\":0,\"gyro_y\":0,\"gyro_z\":0,\
\"dac_1\":0,\"dac_2\":0,\"dac_3\":0,\"dac_4\":0}}",
        id
    )
}

fn stored(action: Action) -> Record {
    match action {
        Action::Store(record) => record,
        other => panic!("nothing to store: {:?}", other),
    }
}

#[test]
fn the_timeouts_are_five_minutes_and_ten_milliseconds() {
    assert_eq!(IDLE_TIMEOUT_SECS, 300);
    assert_eq!(READ_RETRY_MILLIS, 10);
}

#[test]
fn new_session_is_open() {
    assert!(Session::new(WireFormat::Delimited).is_open());
    assert!(Session::new(WireFormat::Structured).is_open());
}

#[test]
fn valid_line_is_handed_to_the_store() {
    let mut session = Session::new(WireFormat::Delimited);
    let record = stored(session.handle(line("None,2024-01-01T00:00:00Z,1.0,2.0,3.0,0,0,0,0,0,0,0,0,0,0")));
    assert_eq!(record.session_id, None);
    assert_eq!(record.timestamp, "2024-01-01T00:00:00Z");
    assert_eq!(record.latitude.as_str(), "1.0");
    assert!(session.is_open());
}

#[test]
fn short_line_is_not_stored_and_the_connection_stays_open() {
    let mut session = Session::new(WireFormat::Delimited);
    assert_eq!(
        session.handle(line("7,t,1,2")),
        Action::ReadOn(Reason::Malformed("7,t,1,2".to_string()))
    );
    assert!(session.is_open());
}

#[test]
fn keepalive_is_not_stored_and_the_connection_stays_open() {
    let mut session = Session::new(WireFormat::Structured);
    assert_eq!(session.handle(line("{\"type\":\"keepalive\"}")), Action::ReadOn(Reason::Keepalive));
    assert!(session.is_open());
    assert!(matches!(session.handle(line(&structured(1))), Action::Store(_)));
}

#[test]
fn invalid_json_is_not_stored_and_the_connection_stays_open() {
    let mut session = Session::new(WireFormat::Structured);
    assert_eq!(
        session.handle(line("{\"timestamp\":")),
        Action::ReadOn(Reason::Malformed("{\"timestamp\":".to_string()))
    );
    assert!(session.is_open());
}

#[test]
fn blank_line_is_skipped() {
    let mut session = Session::new(WireFormat::Delimited);
    assert_eq!(session.handle(line("")), Action::ReadOn(Reason::Blank));
    assert_eq!(session.handle(line("   ")), Action::ReadOn(Reason::Blank));
    assert_eq!(session.handle(line("\t\r")), Action::ReadOn(Reason::Blank));
    assert!(session.is_open());
}

#[test]
fn line_is_trimmed_before_it_is_decoded() {
    let mut session = Session::new(WireFormat::Delimited);
    let record = stored(session.handle(line(&format!("  {} \r", delimited(5)))));
    assert_eq!(record.session_id, Some(5));
    assert_eq!(record.dac_4.as_str(), "0");
    assert_eq!(
        session.handle(line("  7,t,1,2\t")),
        Action::ReadOn(Reason::Malformed("7,t,1,2".to_string()))
    );
    let mut session = Session::new(WireFormat::Structured);
    assert!(matches!(session.handle(line(&format!(" {}\r", structured(5)))), Action::Store(_)));
}

#[test]
fn timeout_alone_does_not_close() {
    let mut session = Session::new(WireFormat::Delimited);
    for _ in 0..3 {
        assert_eq!(session.handle(Event::TimedOut), Action::ReadOn(Reason::TimedOut));
        assert!(session.is_open());
    }
    assert!(matches!(session.handle(line(&delimited(1))), Action::Store(_)));
}

#[test]
fn read_that_would_block_is_tried_again_after_a_pause() {
    let mut session = Session::new(WireFormat::Delimited);
    assert_eq!(session.handle(Event::WouldBlock), Action::Pause);
    assert!(session.is_open());
}

#[test]
fn store_answers_do_not_close() {
    let mut session = Session::new(WireFormat::Delimited);
    assert!(matches!(session.handle(line(&delimited(1))), Action::Store(_)));
    assert_eq!(session.handle(Event::StoreFailed), Action::ReadOn(Reason::StoreFailed));
    assert!(session.is_open());
    assert!(matches!(session.handle(line(&delimited(2))), Action::Store(_)));
    assert_eq!(session.handle(Event::Stored), Action::ReadOn(Reason::Stored));
    assert!(session.is_open());
}

#[test]
fn end_of_stream_closes() {
    let mut session = Session::new(WireFormat::Delimited);
    assert_eq!(session.handle(Event::EndOfStream), Action::Close);
    assert!(!session.is_open());
}

#[test]
fn failed_read_closes() {
    let mut session = Session::new(WireFormat::Structured);
    assert_eq!(session.handle(Event::Failed), Action::Close);
    assert!(!session.is_open());
}

#[test]
fn closed_session_stores_nothing_more() {
    let mut session = Session::new(WireFormat::Delimited);
    assert_eq!(session.handle(Event::EndOfStream), Action::Close);
    for event in [line(&delimited(1)), Event::TimedOut, Event::WouldBlock, Event::Stored, Event::StoreFailed, line("")] {
        assert_eq!(session.handle(event), Action::Close);
        assert!(!session.is_open());
    }
}

#[test]
fn records_are_stored_in_the_order_of_their_lines() {
    let mut session = Session::new(WireFormat::Delimited);
    let events = vec![
        line(&delimited(1)),
        Event::Stored,
        line("7,t,1,2"),
        line(&delimited(2)),
        Event::StoreFailed,
        Event::TimedOut,
        line(""),
        line("3,keepalive,1,2,3,0,0,0,0,0,0,0,0,0,0"),
        line(&delimited(4)),
        Event::Stored,
        line(&delimited(5)),
        Event::EndOfStream,
        line(&delimited(6)),
    ];
    let mut ids = Vec::new();
    for event in events {
        if let Action::Store(record) = session.handle(event) {
            ids.push(record.session_id);
        }
    }
    assert_eq!(ids, vec![Some(1), Some(2), Some(4), Some(5)]);
}

#[test]
fn interleaved_clients_each_keep_their_order() {
    let mut first = Session::new(WireFormat::Delimited);
    let mut second = Session::new(WireFormat::Structured);
    let mut store: Vec<(u8, Option<i32>)> = Vec::new();
    for id in 0..50 {
        if let Action::Store(record) = first.handle(line(&delimited(id))) {
            store.push((1, record.session_id));
        }
        if id % 3 == 0 {
            assert_eq!(second.handle(line("{\"type\":\"keepalive\"}")), Action::ReadOn(Reason::Keepalive));
        }
        if let Action::Store(record) = second.handle(line(&structured(1000 + id))) {
            store.push((2, record.session_id));
        }
        if id % 7 == 0 {
            if let Action::Store(record) = first.handle(line(&delimited(500 + id))) {
                store.push((1, record.session_id));
            }
        }
    }
    let of_first: Vec<i32> = store.iter().filter(|row| row.0 == 1).map(|row| row.1.unwrap()).collect();
    let of_second: Vec<i32> = store.iter().filter(|row| row.0 == 2).map(|row| row.1.unwrap()).collect();
    let mut sent_by_first = Vec::new();
    for id in 0..50 {
        sent_by_first.push(id);
        if id % 7 == 0 {
            sent_by_first.push(500 + id);
        }
    }
    let sent_by_second: Vec<i32> = (0..50).map(|id| 1000 + id).collect();
    assert_eq!(of_first, sent_by_first);
    assert_eq!(of_second, sent_by_second);
    assert_eq!(store.len(), sent_by_first.len() + sent_by_second.len());
    assert!(first.is_open() && second.is_open());
}

#[test]
fn closing_one_client_leaves_the_other_open() {
    let mut first = Session::new(WireFormat::Delimited);
    let mut second = Session::new(WireFormat::Delimited);
    assert_eq!(first.handle(Event::Failed), Action::Close);
    assert!(second.is_open());
    assert!(matches!(second.handle(line(&delimited(1))), Action::Store(_)));
}
