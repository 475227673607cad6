use laxa::cli::FileFormat;
use laxa::csv_data::CsvData;
use laxa::csv_view::CsvViewState;
use laxa::handler::{key_action, Action, Key, HORIZONTAL_STEP};
use laxa::log_view::LogView;
use laxa::log_view_state::LogViewState;
use laxa::txt_data::TxtData;
use laxa::viewport::ViewPort;
use laxa::log_data::LogData;

#[test]
fn viewport_bounds() {
    let vp = ViewPort::new(3, 5, 10, 20);
    assert_eq!(vp.hbegin(), 3);
    assert_eq!(vp.hend(), 13);
    assert_eq!(vp.vbegin(), 5);
    assert_eq!(vp.vend(), 25);
    assert_eq!(*vp.hsize(), 10);
    assert_eq!(*vp.vsize(), 20);
    assert_eq!(ViewPort::from_area(1, 2, 30, 40), ViewPort::new(1, 2, 30, 40));
}

#[test]
fn vertical_scrolling_stays_in_range() {
    let mut s = LogViewState::default();
    s.forward(5, 3);
    assert_eq!(*s.vscroll_offset(), 2);
    s.backward(1);
    assert_eq!(*s.vscroll_offset(), 1);
    s.backward(9);
    assert_eq!(*s.vscroll_offset(), 0);
    s.forward(usize::MAX, 10);
    assert_eq!(*s.vscroll_offset(), 9);
    s.begin();
    assert_eq!(*s.vscroll_offset(), 0);
    s.end(7);
    assert_eq!(*s.vscroll_offset(), 6);
    s.end(0);
    assert_eq!(*s.vscroll_offset(), 6);
    s.forward(1, 0);
    assert_eq!(*s.vscroll_offset(), 6);
}

#[test]
fn horizontal_scrolling() {
    let data = CsvData::from_records(vec![
        vec!["k".to_string(), "a".to_string()],
        vec!["k".to_string(), "0123456789".to_string()],
    ])
    .unwrap();
    let mut s = LogViewState::new();
    s.right(8, &data);
    assert_eq!(*s.hscroll_offset(), 8);
    s.right(8, &data);
    assert_eq!(*s.hscroll_offset(), 8);
    s.left(3);
    assert_eq!(*s.hscroll_offset(), 5);
    s.left(30);
    assert_eq!(*s.hscroll_offset(), 0);
    s.set_hscroll_offset(4);
    s.set_vscroll_offset(2);
    assert_eq!(s.viewport(10, 20), ViewPort::new(4, 2, 10, 20));
}

#[test]
fn csv_view_state_setters() {
    let mut s = CsvViewState::default();
    s.set_vscroll_offset(3);
    s.set_hscroll_offset(4);
    assert_eq!(*s.vscroll_offset(), 3);
    assert_eq!(*s.hscroll_offset(), 4);
    assert_eq!(FileFormat::Csv, FileFormat::Csv);
    assert_ne!(FileFormat::Csv, FileFormat::Txt);
}

#[test]
fn keys_map_to_actions() {
    assert_eq!(key_action(Key::Esc, false, 10), Action::Quit);
    assert_eq!(key_action(Key::Char('q'), false, 10), Action::Quit);
    assert_eq!(key_action(Key::Char('c'), true, 10), Action::Quit);
    assert_eq!(key_action(Key::Char('C'), false, 10), Action::Ignore);
    assert_eq!(key_action(Key::Down, false, 10), Action::Forward(1));
    assert_eq!(key_action(Key::Up, false, 10), Action::Backward(1));
    assert_eq!(key_action(Key::Right, false, 10), Action::Right(HORIZONTAL_STEP));
    assert_eq!(key_action(Key::Left, false, 10), Action::Left(8));
    assert_eq!(key_action(Key::PageDown, false, 11), Action::Forward(5));
    assert_eq!(key_action(Key::PageUp, false, 11), Action::Backward(5));
    assert_eq!(key_action(Key::Char('G'), false, 10), Action::End);
    assert_eq!(key_action(Key::Char('g'), false, 10), Action::Begin);
    assert_eq!(key_action(Key::Char('x'), false, 10), Action::Ignore);
    assert_eq!(key_action(Key::Other, true, 10), Action::Ignore);
}

#[test]
fn log_view_shows_its_data() {
    let data = TxtData::from_lines(vec!["a:b".to_string()], ':');
    let view = LogView::from(&data);
    assert_eq!(view.data().len(), 1);
}
