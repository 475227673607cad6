use laxa::csv_data::{CsvData, CsvDataError};
use laxa::log_data::{ColumnInfo, ColumnWidth, ColumnWidthError, IterDataColumns, LogData};
use laxa::log_line::{LogLine, LogLineError};
use laxa::txt_data::TxtData;
use laxa::viewport::ViewPort;

fn rec(fields: &[&str]) -> Vec<String> {
    fields.iter().map(|s| s.to_string()).collect()
}

#[test]
fn advance_to_widens_known_widths_only() {
    let mut w = ColumnWidth::Width(3);
    w.advance_to(5);
    assert_eq!(w, ColumnWidth::Width(5));
    w.advance_to(2);
    assert_eq!(w, ColumnWidth::Width(5));
    let mut u = ColumnWidth::Unknown;
    u.advance_to(9);
    assert_eq!(u, ColumnWidth::Unknown);
}

#[test]
fn column_width_conversions() {
    assert_eq!(ColumnWidth::Width(12).as_usize(), Ok(12));
    assert_eq!(ColumnWidth::Unknown.as_usize(), Err(ColumnWidthError::NoWidth));
    assert_eq!(ColumnWidth::Width(70000).as_u16(), Err(ColumnWidthError::TooWide));
    assert_eq!(ColumnWidth::Width(65535).as_u16(), Ok(65535));
    assert_eq!(ColumnWidth::Unknown.as_u16(), Err(ColumnWidthError::NoWidth));
    assert_eq!(*ColumnInfo::new(ColumnWidth::Width(4)).width(), ColumnWidth::Width(4));
}

#[test]
fn iter_data_columns_hands_out_in_order() {
    let mut it = IterDataColumns::from(vec![
        ColumnInfo::new(ColumnWidth::Width(1)),
        ColumnInfo::new(ColumnWidth::Width(2)),
    ]);
    assert_eq!(it.next(), Some(ColumnInfo::new(ColumnWidth::Width(1))));
    assert_eq!(it.next(), Some(ColumnInfo::new(ColumnWidth::Width(2))));
    assert_eq!(it.next(), None);
    assert_eq!(it.next(), None);
}

#[test]
fn log_line_accessors() {
    let l = LogLine::new("k".to_string(), "v".to_string()).unwrap();
    assert_eq!(l.key_value(), "k");
    assert_eq!(l.contents(0), Some("v"));
    assert_eq!(l.contents(1), None);
    assert_eq!(l.iter_contents().len(), 1);
    let r = LogLine::from_record(rec(&["id", "a", "b"])).unwrap();
    assert_eq!(r.key_value(), "id");
    assert_eq!(r.contents(1), Some("b"));
    assert_eq!(r.iter_contents(), &["a".to_string(), "b".to_string()][..]);
    assert_eq!(LogLine::from_record(vec![]).err(), Some(LogLineError::MissingKeyColumn));
}

#[test]
fn txt_data_splits_at_first_delimiter() {
    let lines = vec![
        "alpha:one:two".to_string(),
        "no delimiter here at all".to_string(),
        "be:x".to_string(),
        "é:ü".to_string(),
    ];
    let data = TxtData::from_lines(lines, ':');
    assert_eq!(data.len(), 4);
    assert!(!data.is_empty());
    assert_eq!(data.data_columns(), 1);
    let vp = ViewPort::new(0, 0, 10, 10);
    let shown = data.visible_lines(&vp);
    assert_eq!(shown[0].key_value(), "alpha");
    assert_eq!(shown[0].contents(0), Some("one:two"));
    assert_eq!(shown[1].key_value(), "");
    assert_eq!(shown[1].contents(0), Some("no delimiter here at all"));
    assert_eq!(shown[3].key_value(), "é");
    // Widths in bytes, from lines that hold the delimiter only.
    assert_eq!(*data.index_info().width(), ColumnWidth::Width(5));
    assert_eq!(*data.data_infos(0).unwrap().width(), ColumnWidth::Width(7));
    assert!(data.data_infos(1).is_none());
    assert_eq!(data.data_widths(&vp), vec![7]);
    let mut cols = data.iter_data_columns();
    assert_eq!(cols.next(), Some(ColumnInfo::new(ColumnWidth::Width(7))));
    assert_eq!(cols.next(), None);
}

#[test]
fn txt_data_window_stops_at_last_line() {
    let lines: Vec<String> = (0..5).map(|i| format!("{}:line", i)).collect();
    let data = TxtData::from_lines(lines, ':');
    let shown = data.visible_lines(&ViewPort::new(0, 3, 0, 10));
    assert_eq!(shown.len(), 2);
    assert_eq!(shown[0].key_value(), "3");
    let empty = TxtData::from_lines(vec![], ':');
    assert!(empty.is_empty());
    assert_eq!(*empty.index_info().width(), ColumnWidth::Width(0));
}

fn sample_csv() -> CsvData {
    CsvData::from_records(vec![
        rec(&["key", "first", "second"]),
        rec(&["k1", "abcd", "xy"]),
        rec(&["key2", "a", "uvwxyz"]),
    ])
    .unwrap()
}

#[test]
fn csv_widths_skip_the_first_record() {
    let data = sample_csv();
    assert_eq!(data.len(), 3);
    assert_eq!(data.data_columns(), 3);
    assert_eq!(*data.index_info().width(), ColumnWidth::Width(4));
    assert_eq!(*data.data_infos(0).unwrap().width(), ColumnWidth::Width(4));
    assert_eq!(*data.data_infos(1).unwrap().width(), ColumnWidth::Width(6));
    assert!(data.data_infos(2).is_none());
    let mut cols = data.iter_data_columns();
    assert_eq!(cols.next(), Some(ColumnInfo::new(ColumnWidth::Width(4))));
    assert_eq!(cols.next(), Some(ColumnInfo::new(ColumnWidth::Width(6))));
    assert_eq!(cols.next(), None);
    let shown = data.visible_lines(&ViewPort::new(0, 1, 0, 1));
    assert_eq!(shown.len(), 1);
    assert_eq!(shown[0].key_value(), "k1");
    assert_eq!(shown[0].contents(1), Some("xy"));
}

#[test]
fn csv_find_start_and_widths() {
    let data = sample_csv();
    assert_eq!(data.find_start(&ViewPort::new(0, 0, 10, 10)), (0, 0));
    assert_eq!(data.find_start(&ViewPort::new(3, 0, 10, 10)), (0, 3));
    assert_eq!(data.find_start(&ViewPort::new(4, 0, 10, 10)), (1, 0));
    assert_eq!(data.find_start(&ViewPort::new(9, 0, 10, 10)), (1, 5));
    assert_eq!(data.find_start(&ViewPort::new(12, 0, 10, 10)), (2, 2));
    assert_eq!(data.data_widths(&ViewPort::new(0, 0, 10, 10)), vec![4, 6]);
    assert_eq!(data.data_widths(&ViewPort::new(3, 0, 10, 10)), vec![1, 6]);
    assert_eq!(data.data_widths(&ViewPort::new(5, 0, 10, 10)), vec![5]);
    assert_eq!(data.data_widths(&ViewPort::new(10, 0, 10, 10)), Vec::<usize>::new());
}

#[test]
fn csv_errors() {
    assert_eq!(CsvData::from_records(vec![]).err(), Some(CsvDataError::NoData));
    assert_eq!(
        CsvData::from_records(vec![rec(&["only"]), rec(&["k"])]).err(),
        Some(CsvDataError::KeyColumnOnly)
    );
    assert_eq!(
        CsvData::from_records(vec![rec(&[]), rec(&["a", "b"])]).err(),
        Some(CsvDataError::MissingKeyColumn)
    );
    assert_eq!(
        CsvData::from_records(vec![rec(&["a", "b"]), rec(&[])]).err(),
        Some(CsvDataError::MissingKeyColumn)
    );
    assert_eq!(
        CsvData::from_records(vec![rec(&["a", "b"]), rec(&["a", "b", "c"]), rec(&[])]).err(),
        Some(CsvDataError::RecordTooLong)
    );
    assert!(CsvData::from_records(vec![rec(&["a", "b"]), rec(&["a"])]).is_ok());
}
