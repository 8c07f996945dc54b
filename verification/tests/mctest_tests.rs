use mctest::app::{App, Command, DialogType, FileMenuAction, Message, RegisterButton, MAX_PACKET_COUNT};
use mctest::data::{ColumnWidth, MulticastMessage, MulticastTableHeader, RowError, TableAction};
use mctest::listener::{
    communication_error, last_ipv4, registration_settings, InterfaceAddress, InterfaceOutcome,
    Listener, ListenerCommand, ListenerEvent,
};
use mctest::util::{net_util_data_ascii, net_util_data_hexdump};
use std::cmp::Ordering;

fn msg(ms: i64, src: &str, bytes: &[u8]) -> MulticastMessage {
    MulticastMessage::new(ms, 0, src.to_string(), bytes.to_vec())
}

fn ready_app() -> App {
    let mut app = App::new();
    app.update(Message::Ready);
    app
}

#[test]
fn hexdump_is_two_upper_case_digits_per_byte() {
    assert_eq!(net_util_data_hexdump(&[0xab, 0x01, 0xff, 0x00]), "AB01FF00");
    assert_eq!(net_util_data_hexdump(&[]), "");
}

#[test]
fn ascii_view_keeps_printable_and_white_space() {
    let bytes = b"Hi \t\n\r\x0c~\x00\x0b\x7f\x80\xff";
    assert_eq!(net_util_data_ascii(bytes), "Hi \t\n\r\x0c~.....");
    assert_eq!(net_util_data_ascii(&[]), "");
}

#[test]
fn row_fields_are_time_source_and_hex() {
    let m = msg(1700000000123, "10.0.0.1:5000", &[0xde, 0xad]);
    assert_eq!(m.row_fields(), vec!["1700000000123", "10.0.0.1:5000", "DEAD"]);
    let zero = msg(0, "", &[]);
    assert_eq!(zero.row_fields(), vec!["0", "", ""]);
    let negative = MulticastMessage { time_stamp_millis: -5, sub_millis_nanos: 0, src: "a".to_string(), bytes: vec![1] };
    assert_eq!(negative.row_fields(), vec!["-5", "a", "01"]);
}

#[test]
fn saved_row_reads_back() {
    let m = msg(42, "239.1.2.3:1234", &[0, 1, 127, 128, 255]);
    let fields = m.row_fields();
    let back = MulticastMessage::from_row_fields(42, fields[1].clone(), &fields[2]).unwrap();
    assert_eq!(back.time_stamp_millis, 42);
    assert_eq!(back.src, "239.1.2.3:1234");
    assert_eq!(back.bytes, vec![0, 1, 127, 128, 255]);
}

#[test]
fn row_data_accepts_both_cases_of_hex() {
    let m = MulticastMessage::from_row_fields(7, "s".to_string(), "dEaD00").unwrap();
    assert_eq!(m.bytes, vec![0xde, 0xad, 0x00]);
    let empty = MulticastMessage::from_row_fields(7, "s".to_string(), "").unwrap();
    assert!(empty.bytes.is_empty());
}

#[test]
fn row_data_with_non_hex_is_refused() {
    let r = MulticastMessage::from_row_fields(7, "s".to_string(), "0g");
    assert_eq!(r.unwrap_err(), RowError::NonHexData);
    let r = MulticastMessage::from_row_fields(7, "s".to_string(), "abc ");
    assert!(r.is_err());
    assert_eq!(
        RowError::NonHexData.description(),
        "DATA field contains non-hexadecimal characters"
    );
}

#[test]
fn compare_orders_by_column() {
    let a = msg(10, "b", &[1, 2]);
    let b = msg(20, "a", &[1, 2, 0]);
    assert_eq!(a.compare(&b, MulticastTableHeader::Time), Ordering::Less);
    assert_eq!(b.compare(&a, MulticastTableHeader::TimeInv), Ordering::Greater);
    assert_eq!(a.compare(&b, MulticastTableHeader::Data), Ordering::Less);
    assert_eq!(a.compare(&b, MulticastTableHeader::Src), Ordering::Greater);
    assert_eq!(a.compare(&a, MulticastTableHeader::SrcInv), Ordering::Equal);
    let c = msg(10, "b", &[2]);
    assert_eq!(c.compare(&a, MulticastTableHeader::DataInv), Ordering::Greater);
    assert_eq!(c.compare(&a, MulticastTableHeader::Time), Ordering::Equal);
}

#[test]
fn compare_is_antisymmetric_on_samples() {
    let rows = [msg(1, "x", &[3]), msg(2, "é", &[3, 1]), msg(2, "z", &[])];
    let cols = [MulticastTableHeader::Time, MulticastTableHeader::Src, MulticastTableHeader::Data];
    for a in rows.iter() {
        for b in rows.iter() {
            for c in cols.iter() {
                assert_eq!(a.compare(b, *c), b.compare(a, *c).reverse());
            }
        }
    }
}

#[test]
fn cell_text_for_data_and_source() {
    let m = msg(5, "1.2.3.4:9", &[0x0a, 0xbc]);
    assert_eq!(m.get_text(MulticastTableHeader::Data), "0ABC");
    assert_eq!(m.get_text(MulticastTableHeader::DataInv), "0ABC");
    assert_eq!(m.get_text(MulticastTableHeader::Src), "1.2.3.4:9");
    let time = m.get_text(MulticastTableHeader::Time);
    assert_eq!(time.len(), "1970-01-01 00:00:00.005".len());
    assert!(time.ends_with(".005"));
}

#[test]
fn header_titles_widths_and_default() {
    assert_eq!(MulticastTableHeader::Time.title(), "Time");
    assert_eq!(MulticastTableHeader::Src.title(), "Source");
    assert_eq!(MulticastTableHeader::Data.title(), "Data");
    assert_eq!(MulticastTableHeader::TimeInv.title(), "");
    assert_eq!(MulticastTableHeader::Time.width(), ColumnWidth::Fixed(200));
    assert_eq!(MulticastTableHeader::SrcInv.width(), ColumnWidth::Fixed(200));
    assert_eq!(MulticastTableHeader::Data.width(), ColumnWidth::FillPortion(50));
    assert_eq!(MulticastTableHeader::default(), MulticastTableHeader::Time);
    assert_eq!(
        MulticastTableHeader::all_vis(),
        vec![MulticastTableHeader::Time, MulticastTableHeader::Src, MulticastTableHeader::Data]
    );
    assert_eq!(MulticastTableHeader::all_inv().len(), 3);
}

#[test]
fn registration_settings_read_port_and_ttl() {
    let s = registration_settings("5000", "255").unwrap();
    assert_eq!((s.port, s.ttl), (5000, 255));
    let s = registration_settings("+80", "0").unwrap();
    assert_eq!((s.port, s.ttl), (80, 0));
    let s = registration_settings("65535", "4294967295").unwrap();
    assert_eq!((s.port, s.ttl), (65535, 4294967295));
    assert_eq!(registration_settings("65536", "1").unwrap_err(), "Invalid port provided");
    assert_eq!(registration_settings("", "1").unwrap_err(), "Invalid port provided");
    assert_eq!(registration_settings("+", "1").unwrap_err(), "Invalid port provided");
    assert_eq!(registration_settings("-1", "1").unwrap_err(), "Invalid port provided");
    assert_eq!(registration_settings("1a", "x").unwrap_err(), "Invalid port provided");
    assert_eq!(registration_settings("1", "4294967296").unwrap_err(), "invalid TTL value provided");
    assert_eq!(registration_settings("1", " 2").unwrap_err(), "invalid TTL value provided");
    assert_eq!(registration_settings("٣", "1").unwrap_err(), "Invalid port provided");
}

#[test]
fn communication_error_text() {
    assert_eq!(
        communication_error("eth0", "10.0.0.2", "refused"),
        "Interface: `eth0`, Addr: `10.0.0.2` -> Error: `refused`"
    );
}

#[test]
fn listener_joins_sends_and_stops() {
    let mut l = Listener::new();
    assert!(matches!(l.handle_event(ListenerEvent::Stop), ListenerCommand::Wait));
    let send = ListenerEvent::SendData("239.0.0.1".into(), "5000".into(), "hi".into());
    assert!(matches!(l.handle_event(send.clone()), ListenerCommand::Wait));
    match l.handle_event(ListenerEvent::Register("239.0.0.1".into(), "5000".into(), "255".into())) {
        ListenerCommand::Join { ip, port, ttl } => assert_eq!((ip.as_str(), port.as_str(), ttl.as_str()), ("239.0.0.1", "5000", "255")),
        other => panic!("{:?}", other),
    }
    assert!(!l.listening);
    let outcomes = vec![InterfaceOutcome { interface: "lo".into(), error: None }];
    assert!(matches!(l.registration_finished(&outcomes), Message::RegisterSuccess(1)));
    assert!(l.listening);
    match l.handle_event(send) {
        ListenerCommand::Send { destination, payload } => {
            assert_eq!(destination, "239.0.0.1:5000");
            assert_eq!(payload, b"hi".to_vec());
        }
        other => panic!("{:?}", other),
    }
    let again = ListenerEvent::Register("a".into(), "b".into(), "c".into());
    assert!(matches!(l.handle_event(again), ListenerCommand::Wait));
    assert!(l.listening);
    assert!(matches!(l.handle_event(ListenerEvent::Stop), ListenerCommand::Report(Message::Disconnected)));
    assert!(!l.listening);
}

#[test]
fn registration_failure_lists_each_interface() {
    let mut l = Listener::new();
    let outcomes = vec![
        InterfaceOutcome { interface: "eth0".into(), error: Some("boom".into()) },
        InterfaceOutcome { interface: "wlan0".into(), error: Some("bad".into()) },
    ];
    match l.registration_finished(&outcomes) {
        Message::RegisterFail(e) => assert_eq!(e, "eth0 -> boom\nwlan0 -> bad\n"),
        other => panic!("{:?}", other),
    }
    assert!(!l.listening);
    let mixed = vec![
        InterfaceOutcome { interface: "eth0".into(), error: Some("boom".into()) },
        InterfaceOutcome { interface: "lo".into(), error: None },
        InterfaceOutcome { interface: "wlan0".into(), error: None },
    ];
    assert!(matches!(l.registration_finished(&mixed), Message::RegisterSuccess(2)));
    let none: Vec<InterfaceOutcome> = vec![];
    assert!(matches!(l.registration_finished(&none), Message::RegisterFail(e) if e.is_empty()));
}

#[test]
fn new_window_state() {
    let app = App::new();
    assert_eq!(app.ttl, "255");
    assert!(app.auto_scroll && !app.registered && !app.listener_ready);
    assert_eq!(app.dialog_type, DialogType::Closed);
    assert!(app.dialog_title().is_none());
    let v = app.view_state();
    assert!(v.inputs_editable && !v.send_enabled && !v.search_enabled);
    assert_eq!(v.register_button, RegisterButton::Register);
}

#[test]
fn address_fields_keep_numeric_characters() {
    let mut app = App::new();
    app.update(Message::IpChange("2a39.0b.0.1 ".into()));
    assert_eq!(app.ip_address, "239.0.0.1");
    app.update(Message::PortChange("50.0x0".into()));
    assert_eq!(app.port, "5000");
    app.update(Message::TtlChange("٣2".into()));
    assert_eq!(app.ttl, "٣2");
    app.update(Message::IpChange(app.ip_address.clone()));
    assert_eq!(app.ip_address, "239.0.0.1");
}

#[test]
fn register_and_send_need_the_listener() {
    let mut app = App::new();
    app.update(Message::IpChange("239.0.0.1".into()));
    app.update(Message::PortChange("5000".into()));
    assert!(matches!(app.update(Message::Register), Command::Nothing));
    assert!(matches!(app.update(Message::Unregister), Command::Nothing));
    app.update(Message::Ready);
    match app.update(Message::Register) {
        Command::Notify(e) => assert_eq!(e, ListenerEvent::Register("239.0.0.1".into(), "5000".into(), "255".into())),
        other => panic!("{:?}", other),
    }
    assert!(matches!(app.update(Message::SendData), Command::Nothing));
    app.update(Message::TestDataChange(" \t ".into()));
    assert!(matches!(app.update(Message::SendData), Command::Nothing));
    app.update(Message::TestDataChange(" hello ".into()));
    match app.update(Message::SendData) {
        Command::Notify(e) => assert_eq!(e, ListenerEvent::SendData("239.0.0.1".into(), "5000".into(), " hello ".into())),
        other => panic!("{:?}", other),
    }
    assert!(matches!(app.update(Message::Unregister), Command::Notify(ListenerEvent::Stop)));
}

#[test]
fn new_rows_follow_the_search_box() {
    let mut app = ready_app();
    match app.update(Message::NewRow(msg(1, "1.1.1.1:1", b"hello"))) {
        Command::AfterNewRow { scroll_to_end, stop_capture } => assert!(scroll_to_end && !stop_capture),
        other => panic!("{:?}", other),
    }
    assert_eq!((app.all_rows.len(), app.results.len(), app.showing_count), (1, 1, 1));
    app.update(Message::QueryEdit("  HeLLo ".into()));
    app.update(Message::NewRow(msg(2, "2.2.2.2:2", b"say HELLO")));
    app.update(Message::NewRow(msg(3, "3.3.3.3:3", b"bye")));
    assert_eq!((app.all_rows.len(), app.showing_count), (3, 2));
    app.update(Message::ChangeAutoScroll(false));
    match app.update(Message::NewRow(msg(4, "hello.example:4", b"x"))) {
        Command::AfterNewRow { scroll_to_end, .. } => assert!(!scroll_to_end),
        other => panic!("{:?}", other),
    }
    assert_eq!(app.showing_count, 3);
    assert_eq!(app.results[2].src, "hello.example:4");
}

#[test]
fn search_filters_captured_rows() {
    let mut app = ready_app();
    app.update(Message::NewRow(msg(1, "10.0.0.1:1", b"Alpha")));
    app.update(Message::NewRow(msg(2, "10.0.0.2:1", b"beta")));
    app.update(Message::NewRow(msg(3, "10.0.0.3:1", &[0xff, b'A', b'L', b'P', b'H', b'A'])));
    app.update(Message::SearchQuery(" ALPHA".into()));
    assert_eq!(app.showing_count, 2);
    assert_eq!(app.results[0].time_stamp_millis, 1);
    assert_eq!(app.results[1].time_stamp_millis, 3);
    app.update(Message::SearchQuery("10.0.0.2".into()));
    assert_eq!(app.showing_count, 1);
    app.update(Message::SearchQuery("nothing-like-this".into()));
    assert_eq!(app.showing_count, 0);
    app.update(Message::SearchQuery("   ".into()));
    assert_eq!(app.showing_count, 3);
    assert_eq!(app.all_rows.len(), 3);
}

#[test]
fn capture_stops_at_the_limit() {
    let mut app = ready_app();
    for i in 0..(MAX_PACKET_COUNT - 1) {
        match app.update(Message::NewRow(msg(i as i64, "s", &[1]))) {
            Command::AfterNewRow { stop_capture, .. } => assert!(!stop_capture),
            other => panic!("{:?}", other),
        }
    }
    assert!(app.warning.is_none());
    match app.update(Message::NewRow(msg(5000, "s", &[1]))) {
        Command::AfterNewRow { stop_capture, .. } => assert!(stop_capture),
        other => panic!("{:?}", other),
    }
    assert_eq!(app.all_rows.len(), 1000);
    assert_eq!(
        app.warning.as_deref(),
        Some("Packet capture stopped as more than 1000 have been received.")
    );
    app.update(Message::CloseWarning);
    assert!(app.warning.is_none());
}

#[test]
fn clicking_a_row_twice_toggles_its_details() {
    let mut app = ready_app();
    app.update(Message::NewRow(msg(1, "9.9.9.9:9", &[0xde, 0xad, b'A'])));
    app.update(Message::ItemSelect(0));
    assert_eq!(app.active, Some(0));
    assert!(app.showing_details);
    assert!(app.detailed_output.starts_with("> At: "));
    assert!(app.detailed_output.ends_with("\n> From: 9.9.9.9:9\n> Length: 3 byte(s)\n> Hex Dump: DEAD41"));
    assert_eq!(app.ascii_output, "..A");
    app.update(Message::ItemSelect(0));
    assert_eq!(app.active, None);
    assert!(!app.showing_details);
    assert_eq!(app.detailed_output, "");
    assert_eq!(app.ascii_output, "");
}

#[test]
fn loading_emptying_and_registering_reset_rows() {
    let mut app = ready_app();
    app.update(Message::QueryEdit("zzz".into()));
    app.update(Message::DataLoaded(vec![msg(1, "a", &[1]), msg(2, "b", &[2])]));
    assert_eq!((app.all_rows.len(), app.results.len(), app.showing_count), (2, 2, 2));
    assert_eq!(app.search_query, "");
    app.update(Message::Empty);
    assert_eq!((app.all_rows.len(), app.showing_count), (0, 0));
    app.update(Message::NewRow(msg(1, "a", &[1])));
    app.update(Message::RegisterSuccess(3));
    assert!(app.registered);
    assert_eq!(app.interfaces_connected, 3);
    assert_eq!(app.all_rows.len(), 0);
    let v = app.view_state();
    assert!(!v.inputs_editable && v.send_enabled);
    assert_eq!(v.register_button, RegisterButton::Unregister);
    app.update(Message::Disconnected);
    assert!(!app.registered);
}

#[test]
fn errors_accumulate_in_the_dialog() {
    let mut app = App::new();
    app.update(Message::RegisterFail("eth0 -> boom\n".into()));
    app.update(Message::ShowError("File save error: x".into()));
    assert_eq!(app.dialog_type, DialogType::Error);
    assert_eq!(app.dialog_message, "eth0 -> boom\nFile save error: x");
    assert_eq!(app.dialog_title().as_deref(), Some("Error"));
    app.update(Message::CloseDialog);
    assert_eq!(app.dialog_type, DialogType::Closed);
    assert_eq!(app.dialog_message, "");
}

#[test]
fn file_messages_become_commands() {
    let mut app = ready_app();
    app.update(Message::NewRow(msg(1, "a", &[1])));
    assert!(matches!(app.update(Message::DataSave), Command::ChooseSaveFile));
    assert!(matches!(app.update(Message::DataLoad), Command::ChooseLoadFile));
    match app.update(Message::OutputFileSelected("/tmp/x.csv".into())) {
        Command::SaveRows { rows, path } => {
            assert_eq!(path, "/tmp/x.csv");
            assert_eq!(rows.len(), 1);
            assert_eq!(rows[0].src, "a");
        }
        other => panic!("{:?}", other),
    }
    match app.update(Message::LoadFile("/tmp/y.csv".into())) {
        Command::LoadRows { path } => assert_eq!(path, "/tmp/y.csv"),
        other => panic!("{:?}", other),
    }
    assert!(matches!(FileMenuAction::DataSave.message(), Message::DataSave));
    assert!(matches!(FileMenuAction::DataLoad.message(), Message::DataLoad));
    assert!(matches!(TableAction::Nothing.message(), Message::NoOp));
}

#[test]
fn file_results_become_messages() {
    assert!(matches!(Message::after_save(None), Message::NoOp));
    match Message::after_save(Some("disk full".into())) {
        Message::ShowError(t) => assert_eq!(t, "File save error: disk full"),
        other => panic!("{:?}", other),
    }
    assert!(matches!(Message::after_load(Some(vec![])), Message::DataLoaded(r) if r.is_empty()));
    match Message::after_load(None) {
        Message::ShowError(t) => assert_eq!(t, "Failed to load file."),
        other => panic!("{:?}", other),
    }
}

#[test]
fn capture_file_columns() {
    assert_eq!(MulticastMessage::csv_headers(), vec!["TIMESTAMP", "SOURCE", "DATA"]);
}

#[test]
fn capture_limit_counts_the_session() {
    let mut app = ready_app();
    app.update(Message::RegisterSuccess(1));
    for i in 0..(MAX_PACKET_COUNT - 1) {
        app.update(Message::NewRow(msg(i as i64, "s", &[1])));
    }
    app.update(Message::Empty);
    assert_eq!(app.all_rows.len(), 0);
    assert!(app.warning.is_none());
    match app.update(Message::NewRow(msg(7, "s", &[1]))) {
        Command::AfterNewRow { stop_capture, .. } => assert!(stop_capture),
        other => panic!("{:?}", other),
    }
    assert_eq!(
        app.warning.as_deref(),
        Some("Packet capture stopped as more than 1000 have been received.")
    );
    app.update(Message::RegisterSuccess(1));
    assert_eq!(app.received, 0);
    assert!(app.warning.is_none());
    match app.update(Message::NewRow(msg(8, "s", &[1]))) {
        Command::AfterNewRow { stop_capture, .. } => assert!(!stop_capture),
        other => panic!("{:?}", other),
    }
}

#[test]
fn time_text_shape() {
    for ms in [0i64, 5, 999, 1_000, 1_700_000_000_123, -1, -1_234] {
        let t = msg(ms, "s", &[]).get_text(MulticastTableHeader::Time);
        assert!(t.chars().all(|c| c.is_ascii_digit() || "-+:. ".contains(c)), "{t}");
        let frac = format!(".{:03}", ms.rem_euclid(1000));
        assert!(t.ends_with(&frac), "{t} {frac}");
    }
}

#[test]
fn time_order_uses_nanoseconds() {
    let a = MulticastMessage::new(10, 5, "s".into(), vec![]);
    let b = MulticastMessage::new(10, 7, "s".into(), vec![]);
    assert_eq!(a.compare(&b, MulticastTableHeader::Time), Ordering::Less);
    assert_eq!(b.compare(&a, MulticastTableHeader::Time), Ordering::Greater);
    let c = MulticastMessage::new(9, 999_999, "s".into(), vec![]);
    assert_eq!(c.compare(&a, MulticastTableHeader::Time), Ordering::Less);
}

#[test]
fn white_space_only_data_is_not_sent() {
    let mut app = ready_app();
    app.update(Message::TestDataChange("\u{3000}\u{a0}\t\n ".into()));
    assert!(matches!(app.update(Message::SendData), Command::Nothing));
    app.update(Message::TestDataChange("\u{2003}x\u{2003}".into()));
    assert!(matches!(app.update(Message::SendData), Command::Notify(_)));
}

#[test]
fn interface_uses_its_last_ipv4_address() {
    let addrs = vec![
        InterfaceAddress::V4(10, 0, 0, 1),
        InterfaceAddress::Other,
        InterfaceAddress::V4(192, 168, 1, 2),
        InterfaceAddress::Other,
    ];
    assert_eq!(last_ipv4(&addrs), Some((192, 168, 1, 2)));
    assert_eq!(last_ipv4(&vec![InterfaceAddress::Other]), None);
    assert_eq!(last_ipv4(&vec![]), None);
}

#[test]
fn pre_epoch_rows_are_taken() {
    let mut app = ready_app();
    app.update(Message::NewRow(msg(-86_400_000, "old", &[1])));
    assert_eq!(app.showing_count, 1);
    assert_eq!(app.all_rows[0].time_stamp_millis, -86_400_000);
}
