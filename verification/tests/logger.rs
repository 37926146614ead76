use sht::logger::{buffer, BufferLogger, Level, Record, BUFFER_SIZE};
use sht::views::debug::DebugView;

fn record(n: u64) -> Record {
    Record::new(n, 0, Level::Info, "test".to_string(), format!("{}", n))
}

#[test]
fn buffer_hands_out_what_was_written() {
    let mut l = BufferLogger::new();
    assert!(buffer(&mut l).is_empty());
    l.log(record(1));
    l.log(record(2));
    let read: Vec<u64> = buffer(&mut l).iter().map(|r| r.secs).collect();
    assert_eq!(vec![1, 2], read);
    l.log(record(3));
    let read: Vec<u64> = buffer(&mut l).iter().map(|r| r.secs).collect();
    assert_eq!(vec![1, 2, 3], read);
}

#[test]
fn oldest_records_are_dropped() {
    assert_eq!(100, BUFFER_SIZE);
    let mut l = BufferLogger::new();
    for n in 0..130 {
        l.log(record(n));
    }
    let read: Vec<u64> = buffer(&mut l).iter().map(|r| r.secs).collect();
    assert_eq!((30..130).collect::<Vec<u64>>(), read);
    for n in 130..140 {
        l.log(record(n));
    }
    l.swap();
    let read: Vec<u64> = buffer(&mut l).iter().map(|r| r.secs).collect();
    assert_eq!((40..140).collect::<Vec<u64>>(), read);
}

#[test]
fn log_view_shows_the_newest_first() {
    let mut l = BufferLogger::new();
    for n in 0..5 {
        l.log(record(n));
    }
    let records = buffer(&mut l);
    let shown: Vec<u64> = DebugView::lines(records, 3).iter().map(|r| r.secs).collect();
    assert_eq!(vec![4, 3, 2], shown);
    let shown: Vec<u64> = DebugView::lines(records, 9).iter().map(|r| r.secs).collect();
    assert_eq!(vec![4, 3, 2, 1, 0], shown);
    assert!(DebugView::lines(records, 0).is_empty());
    assert!(Level::Error < Level::Warn);
    assert_eq!("4", records[4].msg);
    assert_eq!("test", records[4].target);
    assert_eq!(Level::Info, records[4].level);
    assert_eq!(0, records[4].subsec_nanos);
}
