//! The capture window's state and how it reacts to each message: the
//! address fields, the captured rows and those that match the search, the
//! details of the selected row, the dialog and the capture limit. Whatever
//! the window must do outside (tell the listener, scroll, open a file) comes
//! back as a `Command`.
use vstd::prelude::*;
use crate::data::{
    MessageView, MulticastMessage, MulticastTableHeader, TableAction, local_time_text,
};
use crate::listener::ListenerEvent;
use crate::text::{
    chars_of, contains, decimal, is_numeric, is_numeric_char, lowercase, lossy_text, occurs_in,
    push_char, push_decimal, to_lowercase, trim, trimmed, utf8_lossy,
};
use crate::time::shows_local_time;
use crate::util::{ascii_view, hexdump, net_util_data_ascii, net_util_data_hexdump};

verus! {

/// Once this many packets have been captured, the capture stops.
pub const MAX_PACKET_COUNT: usize = 1000;

/// Which dialog the window shows, if any.
#[derive(Debug, Clone, Copy, PartialEq, Eq, Structural)]
pub enum DialogType {
    Warning,
    Info,
    Error,
    Closed,
}

/// What the window is told: user input, the listener's reports, file results.
#[derive(Debug)]
pub enum Message {
    IpChange(String),
    PortChange(String),
    TestDataChange(String),
    TtlChange(String),
    /// A click on the row at this position of the results table.
    ItemSelect(usize),
    CategorySelect(MulticastTableHeader),
    Register,
    Unregister,
    SendData,
    NoOp,
    Empty,
    NewRow(MulticastMessage),
    RegisterFail(String),
    ShowError(String),
    RegisterSuccess(usize),
    Disconnected,
    ChangeAutoScroll(bool),
    SearchChange(String),
    SearchQuery(String),
    /// The listener is running and accepts events.
    Ready,
    CloseDialog,
    QueryEdit(String),
    /// A cursor or selection move in the details pane (no text change).
    DetailedOutputEdit,
    /// A cursor or selection move in the ASCII pane (no text change).
    AsciiOutputEdit,
    CloseWarning,
    DataSave,
    DataLoad,
    OutputFileSelected(String),
    LoadFile(String),
    DataLoaded(Vec<MulticastMessage>),
    /// A send or receive error on one interface.
    CommError(String),
}

impl Message {
    /// The rows a message carries have showable times.
    pub open spec fn wf(&self) -> bool {
        match self {
            Message::NewRow(m) => m@.wf(),
            Message::DataLoaded(rows) => forall|i: int|
                0 <= i < rows@.len() ==> (#[trigger] rows@[i])@.wf(),
            _ => true,
        }
    }
}

/// What the window must do outside after a message.
#[derive(Debug)]
pub enum Command {
    Nothing,
    /// Pass this event to the listener.
    Notify(ListenerEvent),
    /// After a captured row: scroll the table to its end, and/or stop the
    /// capture because the limit was reached.
    AfterNewRow { scroll_to_end: bool, stop_capture: bool },
    /// Ask the user for a file to save to.
    ChooseSaveFile,
    /// Ask the user for a file to load.
    ChooseLoadFile,
    /// Save these rows to the file at `path`.
    SaveRows { rows: Vec<MulticastMessage>, path: String },
    /// Load rows from the file at `path`.
    LoadRows { path: String },
}

/// The register button's role.
#[derive(Debug, Clone, Copy, PartialEq, Eq, Structural)]
pub enum RegisterButton {
    Register,
    Unregister,
}

/// The decisions the window's layout follows.
#[derive(Debug, Clone, Copy, PartialEq, Eq, Structural)]
pub struct ViewState {
    pub inputs_editable: bool,
    pub register_button: RegisterButton,
    pub send_enabled: bool,
    pub search_enabled: bool,
    pub captured: usize,
    pub showing: usize,
    pub interfaces: usize,
    pub show_details: bool,
    pub auto_scroll: bool,
}

impl Message {
    /// The message that follows saving the captured rows: none on success,
    /// else the save error to show.
    pub fn after_save(error: Option<String>) -> (m: Message)
        ensures
            match error {
                None => m is NoOp,
                Some(e) => m matches Message::ShowError(t) && t@ == "File save error: "@ + e@,
            },
    {
        match error {
            None => Message::NoOp,
            Some(e) => {
                let mut t = String::from_str("File save error: ");
                t.append(e.as_str());
                Message::ShowError(t)
            },
        }
    }

    /// The message that follows loading a capture file: its rows, or an
    /// error when the file could not be read.
    pub fn after_load(rows: Option<Vec<MulticastMessage>>) -> (m: Message)
        ensures
            match rows {
                Some(r) => m matches Message::DataLoaded(l) && l@ == r@,
                None => m matches Message::ShowError(t) && t@ == "Failed to load file."@,
            },
    {
        match rows {
            Some(r) => Message::DataLoaded(r),
            None => Message::ShowError(String::from_str("Failed to load file.")),
        }
    }
}

/// The entries of the window's File menu.
#[derive(Debug, Clone, Copy, PartialEq, Eq, Structural, Hash)]
pub enum FileMenuAction {
    DataSave,
    DataLoad,
}

impl FileMenuAction {
    /// The message a menu entry sends.
    pub fn message(&self) -> (m: Message)
        ensures
            *self == FileMenuAction::DataSave ==> m is DataSave,
            *self == FileMenuAction::DataLoad ==> m is DataLoad,
    {
        match self {
            FileMenuAction::DataSave => Message::DataSave,
            FileMenuAction::DataLoad => Message::DataLoad,
        }
    }
}

impl TableAction {
    /// The message a table menu action sends: none that changes anything.
    pub fn message(&self) -> (m: Message)
        ensures
            m is NoOp,
    {
        Message::NoOp
    }
}

/// The window's state.
#[derive(Debug)]
pub struct App {
    pub ip_address: String,
    pub port: String,
    pub ttl: String,
    pub send_data: String,
    pub ascii_output: String,
    pub detailed_output: String,
    /// The rows the results table shows.
    pub results: Vec<MulticastMessage>,
    /// The position of the selected row, if any.
    pub active: Option<usize>,
    pub registered: bool,
    pub interfaces_connected: usize,
    pub search_query: String,
    pub auto_scroll: bool,
    pub listener_ready: bool,
    pub dialog_type: DialogType,
    pub dialog_message: String,
    /// Every row captured or loaded.
    pub all_rows: Vec<MulticastMessage>,
    pub warning: Option<String>,
    pub showing_count: usize,
    pub showing_details: bool,
    pub has_unsaved_changes: bool,
    /// How many rows have arrived since the last successful registration.
    pub received: usize,
}

/// The mathematical value of the window's state.
pub struct AppView {
    pub ip_address: Seq<char>,
    pub port: Seq<char>,
    pub ttl: Seq<char>,
    pub send_data: Seq<char>,
    pub ascii_output: Seq<char>,
    pub detailed_output: Seq<char>,
    pub results: Seq<MessageView>,
    pub active: Option<usize>,
    pub registered: bool,
    pub interfaces_connected: usize,
    pub search_query: Seq<char>,
    pub auto_scroll: bool,
    pub listener_ready: bool,
    pub dialog_type: DialogType,
    pub dialog_message: Seq<char>,
    pub all_rows: Seq<MessageView>,
    pub warning: Option<Seq<char>>,
    pub showing_count: usize,
    pub showing_details: bool,
    pub has_unsaved_changes: bool,
    pub received: usize,
}

/// The values of a list of messages.
pub open spec fn views(v: Seq<MulticastMessage>) -> Seq<MessageView> {
    v.map_values(|m: MulticastMessage| m@)
}

/// The value of an optional text.
pub open spec fn opt_view(o: Option<String>) -> Option<Seq<char>> {
    match o {
        Some(s) => Some(s@),
        None => None,
    }
}

/// The values of a list of texts.
pub open spec fn texts(v: Seq<String>) -> Seq<Seq<char>> {
    v.map_values(|s: String| s@)
}

impl View for App {
    type V = AppView;

    open spec fn view(&self) -> AppView {
        AppView {
            ip_address: self.ip_address@,
            port: self.port@,
            ttl: self.ttl@,
            send_data: self.send_data@,
            ascii_output: self.ascii_output@,
            detailed_output: self.detailed_output@,
            results: views(self.results@),
            active: self.active,
            registered: self.registered,
            interfaces_connected: self.interfaces_connected,
            search_query: self.search_query@,
            auto_scroll: self.auto_scroll,
            listener_ready: self.listener_ready,
            dialog_type: self.dialog_type,
            dialog_message: self.dialog_message@,
            all_rows: views(self.all_rows@),
            warning: opt_view(self.warning),
            showing_count: self.showing_count,
            showing_details: self.showing_details,
            has_unsaved_changes: self.has_unsaved_changes,
            received: self.received,
        }
    }
}

/// The characters an address field keeps: numeric ones, and dots where
/// `allow_dot` holds.
pub open spec fn kept_input(s: Seq<char>, allow_dot: bool) -> Seq<char>
    decreases s.len(),
{
    if s.len() == 0 {
        s
    } else {
        let prev = kept_input(s.drop_last(), allow_dot);
        if is_numeric_char(s.last()) || (allow_dot && s.last() == '.') {
            prev.push(s.last())
        } else {
            prev
        }
    }
}

/// The search key a query stands for: trimmed and lower-cased.
pub open spec fn search_key(query: Seq<char>) -> Seq<char> {
    lowercase(trimmed(query))
}

/// A row matches a search key when the key occurs in its shown time, in its
/// payload read as text, or in its sender (both lower-cased).
pub open spec fn row_matches(m: MessageView, time_text: Seq<char>, key: Seq<char>) -> bool {
    occurs_in(time_text, key) || occurs_in(lowercase(utf8_lossy(m.bytes)), key) || occurs_in(
        lowercase(m.src),
        key,
    )
}

/// The rows that match a search key, in order, given each row's shown time.
pub open spec fn matching_rows(rows: Seq<MessageView>, times: Seq<Seq<char>>, key: Seq<char>) -> Seq<
    MessageView,
>
    decreases rows.len(),
{
    if rows.len() == 0 {
        rows
    } else {
        let prev = matching_rows(rows.drop_last(), times.drop_last(), key);
        if row_matches(rows.last(), times.last(), key) {
            prev.push(rows.last())
        } else {
            prev
        }
    }
}

/// The text of the details pane for a row shown at `time_text`.
pub open spec fn detail_text(time_text: Seq<char>, m: MessageView) -> Seq<char> {
    "> At: "@ + time_text + "\n> From: "@ + m.src + "\n> Length: "@ + decimal(m.bytes.len())
        + " byte(s)\n> Hex Dump: "@ + hexdump(m.bytes)
}

/// The warning shown when the capture stops at its limit.
pub open spec fn limit_warning() -> Seq<char> {
    "Packet capture stopped as more than 1000 have been received."@
}

impl AppView {
    /// The window's invariant: every row has a showable time, the count shown
    /// is the number of rows in the table, and the table holds a part of the
    /// captured rows (each at most as often as it was captured).
    pub open spec fn wf(self) -> bool {
        &&& forall|i: int| 0 <= i < self.all_rows.len() ==> (#[trigger] self.all_rows[i]).wf()
        &&& forall|i: int| 0 <= i < self.results.len() ==> (#[trigger] self.results[i]).wf()
        &&& self.showing_count == self.results.len()
        &&& self.results.len() <= self.all_rows.len()
        &&& self.results.to_multiset().subset_of(self.all_rows.to_multiset())
    }

    /// The number of rows received once one more arrives (it stays at the
    /// largest count it can hold).
    pub open spec fn received_after_row(self) -> usize {
        if self.received < usize::MAX {
            (self.received + 1) as usize
        } else {
            self.received
        }
    }

    /// Whether one more row stops the capture: the session has received the
    /// limit, or the captured rows reach it.
    pub open spec fn row_stops_capture(self) -> bool {
        self.received_after_row() >= MAX_PACKET_COUNT || self.all_rows.len() + 1 >= MAX_PACKET_COUNT
    }

    /// The state when the window opens.
    pub open spec fn initial() -> AppView {
        AppView {
            ip_address: Seq::empty(),
            port: Seq::empty(),
            ttl: "255"@,
            send_data: Seq::empty(),
            ascii_output: Seq::empty(),
            detailed_output: Seq::empty(),
            results: Seq::empty(),
            active: None,
            registered: false,
            interfaces_connected: 0,
            search_query: Seq::empty(),
            auto_scroll: true,
            listener_ready: false,
            dialog_type: DialogType::Closed,
            dialog_message: Seq::empty(),
            all_rows: Seq::empty(),
            warning: None,
            showing_count: 0,
            showing_details: false,
            has_unsaved_changes: false,
            received: 0,
        }
    }

    /// A click on the row at `index`, whose time shows as `time_text`: a
    /// second click on the selected row clears the details, any other click
    /// selects the row and shows its details.
    pub open spec fn select(self, index: usize, time_text: Seq<char>) -> AppView {
        if self.active == Some(index) {
            AppView {
                active: None,
                detailed_output: Seq::empty(),
                ascii_output: Seq::empty(),
                showing_details: false,
                ..self
            }
        } else if index < self.results.len() {
            AppView {
                active: Some(index),
                detailed_output: detail_text(time_text, self.results[index as int]),
                ascii_output: ascii_view(self.results[index as int].bytes),
                showing_details: true,
                ..self
            }
        } else {
            AppView { active: Some(index), ..self }
        }
    }

    /// Whether a new row, shown at `time_text`, enters the table under the
    /// current search.
    pub open spec fn admits(self, m: MessageView, time_text: Seq<char>) -> bool {
        row_matches(m, time_text, search_key(self.search_query))
    }

    /// A captured row arrives: it joins the captured rows, and the table when
    /// it matches the search; it counts as received in this session; at the
    /// limit a warning is shown.
    pub open spec fn add_row(self, m: MessageView, time_text: Seq<char>) -> AppView {
        let all_rows = self.all_rows.push(m);
        let shown = self.admits(m, time_text);
        AppView {
            all_rows,
            results: if shown {
                self.results.push(m)
            } else {
                self.results
            },
            showing_count: if shown {
                (self.showing_count + 1) as usize
            } else {
                self.showing_count
            },
            received: self.received_after_row(),
            warning: if self.row_stops_capture() {
                Some(limit_warning())
            } else {
                self.warning
            },
            ..self
        }
    }

    /// A search is run: the table shows the captured rows that match it.
    pub open spec fn search(self, query: Seq<char>, times: Seq<Seq<char>>) -> AppView {
        let results = matching_rows(self.all_rows, times, search_key(query));
        AppView { results, showing_count: results.len() as usize, active: None, ..self }
    }

    /// An error is reported: its text is added to the dialog, which opens as
    /// an error.
    pub open spec fn report_error(self, error: Seq<char>) -> AppView {
        AppView {
            dialog_message: self.dialog_message + error,
            dialog_type: DialogType::Error,
            ..self
        }
    }

    /// The table and the captured rows are emptied.
    pub open spec fn emptied(self) -> AppView {
        AppView {
            all_rows: Seq::empty(),
            results: Seq::empty(),
            active: None,
            detailed_output: Seq::empty(),
            ascii_output: Seq::empty(),
            showing_count: 0,
            showing_details: false,
            ..self
        }
    }
}

} // verus!

verus! {

/// Keeps the numeric characters of an address field, and its dots where
/// `allow_dot` holds.
fn keep_input(s: &str, allow_dot: bool) -> (r: String)
    ensures
        r@ == kept_input(s@, allow_dot),
{
    let c = chars_of(s);
    let mut r = String::new();
    let n = c.len();
    for i in 0..n
        invariant
            n == c@.len(),
            c@ == s@,
            r@ == kept_input(c@.take(i as int), allow_dot),
    {
        let ch = c[i];
        assert(c@.take(i + 1).drop_last() =~= c@.take(i as int));
        if is_numeric(ch) || (allow_dot && ch == '.') {
            push_char(&mut r, ch);
        }
    }
    assert(c@.take(n as int) =~= c@);
    r
}

/// Copies a list of messages.
fn copy_rows(v: &Vec<MulticastMessage>) -> (r: Vec<MulticastMessage>)
    ensures
        views(r@) == views(v@),
{
    let mut r: Vec<MulticastMessage> = Vec::new();
    let n = v.len();
    for i in 0..n
        invariant
            n == v@.len(),
            views(r@) == views(v@.take(i as int)),
    {
        let m = v[i].duplicate();
        let ghost old_r = r@;
        r.push(m);
        assert(views(old_r.push(m)) =~= views(old_r).push(m@));
        assert(v@.take(i + 1) =~= v@.take(i as int).push(v@[i as int]));
        assert(views(v@.take(i as int).push(v@[i as int])) =~= views(v@.take(i as int)).push(
            v@[i as int]@,
        ));
    }
    assert(v@.take(n as int) =~= v@);
    r
}

/// Whether a row shown at `time_text` matches the search key.
fn row_matches_key(m: &MulticastMessage, time_text: &str, key: &str) -> (r: bool)
    ensures
        r == row_matches(m@, time_text@, key@),
{
    let data = to_lowercase(lossy_text(m.bytes.as_slice()).as_str());
    let source = to_lowercase(m.src.as_str());
    contains(time_text, key) || contains(data.as_str(), key) || contains(source.as_str(), key)
}

/// Adding one captured row keeps the table a part of the captured rows,
/// whether or not the table takes the row too.
proof fn lemma_push_keeps_part(shown: Seq<MessageView>, all: Seq<MessageView>, m: MessageView)
    requires
        shown.to_multiset().subset_of(all.to_multiset()),
    ensures
        shown.to_multiset().subset_of(all.push(m).to_multiset()),
        shown.push(m).to_multiset().subset_of(all.push(m).to_multiset()),
{
    broadcast use vstd::seq_lib::group_to_multiset_ensures;
    broadcast use vstd::multiset::group_multiset_properties;

    assert(all.push(m).to_multiset() =~= all.to_multiset().insert(m));
    assert(shown.push(m).to_multiset() =~= shown.to_multiset().insert(m));
    assert forall|v: MessageView| shown.to_multiset().count(v) <= all.push(m).to_multiset().count(
        v,
    ) by {
        assert(shown.to_multiset().count(v) <= all.to_multiset().count(v));
    }
    assert forall|v: MessageView| shown.push(m).to_multiset().count(v) <= all.push(
        m,
    ).to_multiset().count(v) by {
        assert(shown.to_multiset().count(v) <= all.to_multiset().count(v));
    }
}

/// Every text contains the empty key.
proof fn lemma_empty_key_occurs(text: Seq<char>, key: Seq<char>)
    requires
        key.len() == 0,
    ensures
        occurs_in(text, key),
{
    let z: int = 0;
    assert(text.subrange(z, z + key.len()) =~= key);
}

impl App {
    pub open spec fn wf(&self) -> bool {
        self@.wf()
    }

    /// The window as it opens: empty fields, a TTL of 255, auto-scroll on,
    /// nothing captured.
    pub fn new() -> (app: App)
        ensures
            app@ == AppView::initial(),
            app.wf(),
    {
        let app = App {
            ip_address: String::new(),
            port: String::new(),
            ttl: String::from_str("255"),
            send_data: String::new(),
            ascii_output: String::new(),
            detailed_output: String::new(),
            results: Vec::new(),
            active: None,
            registered: false,
            interfaces_connected: 0,
            search_query: String::new(),
            auto_scroll: true,
            listener_ready: false,
            dialog_type: DialogType::Closed,
            dialog_message: String::new(),
            all_rows: Vec::new(),
            warning: None,
            showing_count: 0,
            showing_details: false,
            has_unsaved_changes: false,
            received: 0,
        };
        assert(app@.results =~= Seq::<MessageView>::empty());
        assert(app@.all_rows =~= Seq::<MessageView>::empty());
        app
    }

    /// Shows the details of the row at `index`, whose time shows as
    /// `time_text`, or clears them on a second click.
    pub fn select_with_time(&mut self, index: usize, time_text: &str)
        requires
            old(self).wf(),
        ensures
            final(self)@ == old(self)@.select(index, time_text@),
            final(self).wf(),
    {
        let again = match self.active {
            Some(a) => a == index,
            None => false,
        };
        if again {
            self.active = None;
            self.detailed_output = String::new();
            self.ascii_output = String::new();
            self.showing_details = false;
        } else {
            self.active = Some(index);
            if index < self.results.len() {
                let item = &self.results[index];
                let mut text = String::from_str("> At: ");
                text.append(time_text);
                text.append("\n> From: ");
                text.append(item.src.as_str());
                text.append("\n> Length: ");
                push_decimal(&mut text, item.bytes.len() as u64);
                text.append(" byte(s)\n> Hex Dump: ");
                let hex = net_util_data_hexdump(item.bytes.as_slice());
                text.append(hex.as_str());
                let ascii = net_util_data_ascii(item.bytes.as_slice());
                proof {
                    reveal_strlit("> At: ");
                    assert(self.results@[index as int]@ == old(self)@.results[index as int]);
                }
                self.detailed_output = text;
                self.ascii_output = ascii;
                self.showing_details = true;
            }
        }
    }

    /// Takes in a captured row whose time shows as `time_text`; the result
    /// says whether to scroll to it and whether the capture limit is reached.
    pub fn add_row_with_time(&mut self, m: MulticastMessage, time_text: &str) -> (cmd: Command)
        requires
            old(self).wf(),
            m@.wf(),
        ensures
            final(self)@ == old(self)@.add_row(m@, time_text@),
            final(self).wf(),
            cmd matches Command::AfterNewRow { scroll_to_end, stop_capture } && scroll_to_end == (
            old(self).auto_scroll && old(self)@.admits(m@, time_text@)) && stop_capture == old(
                self,
            )@.row_stops_capture(),
    {
        let key = to_lowercase(trim(self.search_query.as_str()).as_str());
        let shown = if key.as_str().is_empty() {
            proof {
                lemma_empty_key_occurs(time_text@, key@);
            }
            true
        } else {
            row_matches_key(&m, time_text, key.as_str())
        };
        let ghost old_all = self.all_rows@;
        let ghost old_res = self.results@;
        let ghost mv = m@;
        let copy = m.duplicate();
        self.all_rows.push(m);
        let total = self.all_rows.len();
        if shown {
            self.results.push(copy);
            self.showing_count = self.showing_count + 1;
        }
        if self.received < usize::MAX {
            self.received = self.received + 1;
        }
        let stop = self.received >= MAX_PACKET_COUNT || self.all_rows.len() >= MAX_PACKET_COUNT;
        if stop {
            self.warning = Some(
                String::from_str("Packet capture stopped as more than 1000 have been received."),
            );
        }
        proof {
            assert(views(old_all.push(m)) =~= views(old_all).push(mv));
            assert(views(old_res.push(copy)) =~= views(old_res).push(mv));
            let a = views(self.all_rows@);
            assert(a == old(self)@.all_rows.push(mv));
            assert(a[a.len() - 1] == mv);
            assert forall|i: int| 0 <= i < a.len() implies (#[trigger] a[i]).wf() by {
                if i < old(self)@.all_rows.len() {
                    assert(a[i] == old(self)@.all_rows[i]);
                }
            }
            assert forall|i: int| 0 <= i < self@.results.len() implies (
            #[trigger] self@.results[i]).wf() by {
                if i < old(self)@.results.len() {
                    assert(self@.results[i] == old(self)@.results[i]);
                }
            }
            lemma_push_keeps_part(old(self)@.results, old(self)@.all_rows, mv);
            if shown {
                assert(self@.results == old(self)@.results.push(mv));
            } else {
                assert(self@.results == old(self)@.results);
            }
        }
        Command::AfterNewRow { scroll_to_end: self.auto_scroll && shown, stop_capture: stop }
    }

    /// Runs a search: the table shows the captured rows that match `query`,
    /// given the shown time of each captured row.
    pub fn search_with_times(&mut self, query: &str, times: &Vec<String>)
        requires
            old(self).wf(),
            times@.len() == old(self).all_rows@.len(),
        ensures
            final(self)@ == old(self)@.search(query@, texts(times@)),
            final(self).wf(),
    {
        let key = to_lowercase(trim(query).as_str());
        let n = self.all_rows.len();
        let mut found: Vec<MulticastMessage> = Vec::new();
        let ghost all = views(self.all_rows@);
        for i in 0..n
            invariant
                n == self.all_rows@.len(),
                times@.len() == n,
                all == views(self.all_rows@),
                all == old(self)@.all_rows,
                old(self).wf(),
                views(found@) == matching_rows(
                    all.take(i as int),
                    texts(times@).take(i as int),
                    key@,
                ),
                found@.len() <= i,
                forall|j: int| 0 <= j < found@.len() ==> (#[trigger] views(found@)[j]).wf(),
        {
            let row = &self.all_rows[i];
            let hit = row_matches_key(row, times[i].as_str(), key.as_str());
            let ghost old_found = found@;
            proof {
                assert(all.take(i + 1).drop_last() =~= all.take(i as int));
                assert(texts(times@).take(i + 1).drop_last() =~= texts(times@).take(i as int));
                assert(all.take(i + 1).last() == row@);
                assert(texts(times@).take(i + 1).last() == times@[i as int]@);
                assert(all[i as int] == row@);
            }
            if hit {
                let copy = row.duplicate();
                found.push(copy);
                proof {
                    assert(views(old_found.push(copy)) =~= views(old_found).push(copy@));
                    assert(views(found@)[found@.len() - 1] == all[i as int]);
                }
            }
        }
        proof {
            assert(all.take(n as int) =~= all);
            assert(texts(times@).take(n as int) =~= texts(times@));
            lemma_matching_rows_part(all, texts(times@), key@);
        }
        self.showing_count = found.len();
        self.results = found;
        self.active = None;
    }

    /// Reacts to a message: updates the state and says what the window must
    /// do outside. Where a row's shown time matters (selecting a row, taking
    /// in a row under a search, running a search), the time text comes from
    /// the machine's clock settings, so the contract holds for some text.
    pub fn update(&mut self, message: Message) -> (cmd: Command)
        requires
            old(self).wf(),
            message.wf(),
        ensures
            final(self).wf(),
            match message {
                Message::IpChange(v) => final(self)@ == (AppView {
                    ip_address: kept_input(v@, true),
                    ..old(self)@
                }) && cmd is Nothing,
                Message::PortChange(v) => final(self)@ == (AppView {
                    port: kept_input(v@, false),
                    ..old(self)@
                }) && cmd is Nothing,
                Message::TtlChange(v) => final(self)@ == (AppView {
                    ttl: kept_input(v@, false),
                    ..old(self)@
                }) && cmd is Nothing,
                Message::TestDataChange(v) => final(self)@ == (AppView {
                    send_data: v@,
                    ..old(self)@
                }) && cmd is Nothing,
                Message::ItemSelect(index) => (exists|t: Seq<char>|
                    (index < old(self)@.results.len() ==> shows_local_time(
                        t,
                        old(self)@.results[index as int].time_stamp_millis as int,
                    )) && final(self)@ == #[trigger] old(self)@.select(index, t)) && cmd is Nothing,
                Message::Register => final(self)@ == old(self)@ && (if old(self).listener_ready {
                    cmd matches Command::Notify(ListenerEvent::Register(ip, port, ttl)) && ip@
                        == old(self)@.ip_address && port@ == old(self)@.port && ttl@ == old(
                        self,
                    )@.ttl
                } else {
                    cmd is Nothing
                }),
                Message::Unregister => final(self)@ == old(self)@ && (if old(self).listener_ready {
                    cmd matches Command::Notify(ListenerEvent::Stop)
                } else {
                    cmd is Nothing
                }),
                Message::SendData => final(self)@ == old(self)@ && (if old(self).listener_ready
                    && trimmed(old(self)@.send_data).len() != 0 {
                    cmd matches Command::Notify(ListenerEvent::SendData(ip, port, data)) && ip@
                        == old(self)@.ip_address && port@ == old(self)@.port && data@ == old(
                        self,
                    )@.send_data
                } else {
                    cmd is Nothing
                }),
                Message::Empty => final(self)@ == old(self)@.emptied() && cmd is Nothing,
                Message::NewRow(m) => exists|t: Seq<char>|
                    {
                        &&& shows_local_time(t, m.time_stamp_millis as int)
                        &&& final(self)@ == #[trigger] old(self)@.add_row(m@, t)
                        &&& cmd matches Command::AfterNewRow { scroll_to_end, stop_capture }
                        &&& scroll_to_end == (old(self).auto_scroll && old(self)@.admits(m@, t))
                        &&& stop_capture == old(self)@.row_stops_capture()
                    },
                Message::DataLoaded(rows) => final(self)@ == (AppView {
                    all_rows: views(rows@),
                    results: views(rows@),
                    search_query: Seq::empty(),
                    showing_count: rows@.len() as usize,
                    active: None,
                    ..old(self)@
                }) && cmd is Nothing,
                Message::RegisterFail(e) => final(self)@ == old(self)@.report_error(e@) && cmd is Nothing,
                Message::ShowError(e) => final(self)@ == old(self)@.report_error(e@) && cmd is Nothing,
                Message::CommError(e) => final(self)@ == old(self)@.report_error(e@) && cmd is Nothing,
                Message::RegisterSuccess(n) => final(self)@ == (AppView {
                    interfaces_connected: n,
                    registered: true,
                    warning: None,
                    received: 0,
                    ..old(self)@.emptied()
                }) && cmd is Nothing,
                Message::Disconnected => final(self)@ == (AppView {
                    registered: false,
                    ..old(self)@
                }) && cmd is Nothing,
                Message::Ready => final(self)@ == (AppView { listener_ready: true, ..old(self)@ })
                    && cmd is Nothing,
                Message::CloseDialog => final(self)@ == (AppView {
                    dialog_type: DialogType::Closed,
                    dialog_message: Seq::empty(),
                    ..old(self)@
                }) && cmd is Nothing,
                Message::CloseWarning => final(self)@ == (AppView { warning: None, ..old(self)@ })
                    && cmd is Nothing,
                Message::ChangeAutoScroll(v) => final(self)@ == (AppView {
                    auto_scroll: v,
                    ..old(self)@
                }) && cmd is Nothing,
                Message::SearchChange(q) => final(self)@ == (AppView {
                    search_query: q@,
                    ..old(self)@
                }) && cmd is Nothing,
                Message::QueryEdit(q) => final(self)@ == (AppView {
                    search_query: q@,
                    ..old(self)@
                }) && cmd is Nothing,
                Message::SearchQuery(q) => (exists|times: Seq<Seq<char>>|
                    times.len() == old(self)@.all_rows.len() && (forall|i: int|
                        0 <= i < times.len() ==> shows_local_time(
                            #[trigger] times[i],
                            old(self)@.all_rows[i].time_stamp_millis as int,
                        )) && final(self)@ == #[trigger] old(self)@.search(q@, times)) && cmd is Nothing,
                Message::DataSave => final(self)@ == old(self)@ && cmd is ChooseSaveFile,
                Message::DataLoad => final(self)@ == old(self)@ && cmd is ChooseLoadFile,
                Message::OutputFileSelected(path) => {
                    &&& final(self)@ == old(self)@
                    &&& cmd matches Command::SaveRows { rows, path: p } && views(rows@) == old(
                        self,
                    )@.all_rows && p@ == path@
                },
                Message::LoadFile(path) => {
                    &&& final(self)@ == old(self)@
                    &&& cmd matches Command::LoadRows { path: p } && p@ == path@
                },
                _ => final(self)@ == old(self)@ && cmd is Nothing,
            },
    {
        match message {
            Message::IpChange(v) => {
                self.ip_address = keep_input(v.as_str(), true);
                Command::Nothing
            },
            Message::PortChange(v) => {
                self.port = keep_input(v.as_str(), false);
                Command::Nothing
            },
            Message::TtlChange(v) => {
                self.ttl = keep_input(v.as_str(), false);
                Command::Nothing
            },
            Message::TestDataChange(v) => {
                self.send_data = v;
                Command::Nothing
            },
            Message::ItemSelect(index) => {
                let time_text = if index < self.results.len() {
                    assert(self@.results[index as int].wf());
                    local_time_text(self.results[index].time_stamp_millis)
                } else {
                    String::new()
                };
                self.select_with_time(index, time_text.as_str());
                Command::Nothing
            },
            Message::Register => {
                if self.listener_ready {
                    Command::Notify(
                        ListenerEvent::Register(
                            self.ip_address.clone(),
                            self.port.clone(),
                            self.ttl.clone(),
                        ),
                    )
                } else {
                    Command::Nothing
                }
            },
            Message::Unregister => {
                if self.listener_ready {
                    Command::Notify(ListenerEvent::Stop)
                } else {
                    Command::Nothing
                }
            },
            Message::SendData => {
                if self.listener_ready && !trim(self.send_data.as_str()).as_str().is_empty() {
                    Command::Notify(
                        ListenerEvent::SendData(
                            self.ip_address.clone(),
                            self.port.clone(),
                            self.send_data.clone(),
                        ),
                    )
                } else {
                    Command::Nothing
                }
            },
            Message::Empty => {
                self.empty_rows();
                Command::Nothing
            },
            Message::NewRow(m) => {
                let time_text = local_time_text(m.time_stamp_millis);
                self.add_row_with_time(m, time_text.as_str())
            },
            Message::DataLoaded(rows) => {
                let all = copy_rows(&rows);
                let n = rows.len();
                self.all_rows = all;
                self.results = rows;
                self.active = None;
                self.search_query = String::new();
                self.showing_count = n;
                proof {
                    assert(self@.results == self@.all_rows);
                }
                Command::Nothing
            },
            Message::RegisterFail(e) => {
                self.report_error(e.as_str());
                Command::Nothing
            },
            Message::ShowError(e) => {
                self.report_error(e.as_str());
                Command::Nothing
            },
            Message::CommError(e) => {
                self.report_error(e.as_str());
                Command::Nothing
            },
            Message::RegisterSuccess(n) => {
                self.empty_rows();
                self.interfaces_connected = n;
                self.registered = true;
                self.warning = None;
                self.received = 0;
                Command::Nothing
            },
            Message::Disconnected => {
                self.registered = false;
                Command::Nothing
            },
            Message::Ready => {
                self.listener_ready = true;
                Command::Nothing
            },
            Message::CloseDialog => {
                self.dialog_type = DialogType::Closed;
                self.dialog_message = String::new();
                Command::Nothing
            },
            Message::CloseWarning => {
                self.warning = None;
                Command::Nothing
            },
            Message::ChangeAutoScroll(v) => {
                self.auto_scroll = v;
                Command::Nothing
            },
            Message::SearchChange(q) => {
                self.search_query = q;
                Command::Nothing
            },
            Message::QueryEdit(q) => {
                self.search_query = q;
                Command::Nothing
            },
            Message::SearchQuery(q) => {
                let times = self.shown_times();
                self.search_with_times(q.as_str(), &times);
                Command::Nothing
            },
            Message::DataSave => Command::ChooseSaveFile,
            Message::DataLoad => Command::ChooseLoadFile,
            Message::OutputFileSelected(path) => {
                Command::SaveRows { rows: copy_rows(&self.all_rows), path }
            },
            Message::LoadFile(path) => Command::LoadRows { path },
            _ => Command::Nothing,
        }
    }

    /// The shown time of every captured row.
    fn shown_times(&self) -> (r: Vec<String>)
        requires
            self.wf(),
        ensures
            r@.len() == self.all_rows@.len(),
            forall|i: int|
                0 <= i < r@.len() ==> shows_local_time(
                    #[trigger] texts(r@)[i],
                    self@.all_rows[i].time_stamp_millis as int,
                ),
    {
        let mut r: Vec<String> = Vec::new();
        let n = self.all_rows.len();
        for i in 0..n
            invariant
                n == self.all_rows@.len(),
                self.wf(),
                r@.len() == i,
                forall|k: int|
                    0 <= k < i ==> shows_local_time(
                        #[trigger] texts(r@)[k],
                        self@.all_rows[k].time_stamp_millis as int,
                    ),
        {
            assert(self@.all_rows[i as int].wf());
            let t = local_time_text(self.all_rows[i].time_stamp_millis);
            let ghost old_r = r@;
            r.push(t);
            proof {
                assert forall|k: int| 0 <= k < i + 1 implies shows_local_time(
                    #[trigger] texts(r@)[k],
                    self@.all_rows[k].time_stamp_millis as int,
                ) by {
                    if k < i {
                        assert(texts(r@)[k] == texts(old_r)[k]);
                    }
                }
            }
        }
        r
    }

    /// Adds an error to the dialog and shows it as an error.
    fn report_error(&mut self, error: &str)
        requires
            old(self).wf(),
        ensures
            final(self)@ == old(self)@.report_error(error@),
            final(self).wf(),
    {
        self.dialog_message.append(error);
        self.dialog_type = DialogType::Error;
    }

    /// Empties the table and the captured rows, and clears the details.
    fn empty_rows(&mut self)
        requires
            old(self).wf(),
        ensures
            final(self)@ == old(self)@.emptied(),
            final(self).wf(),
    {
        self.all_rows = Vec::new();
        self.results = Vec::new();
        self.active = None;
        self.detailed_output = String::new();
        self.ascii_output = String::new();
        self.showing_count = 0;
        self.showing_details = false;
        assert(self@.all_rows =~= Seq::<MessageView>::empty());
        assert(self@.results =~= Seq::<MessageView>::empty());
    }

    /// What the window shows: the address fields are editable and the button
    /// registers while not registered; sending needs a registration; search
    /// needs captured rows; the status line counts captured and shown rows
    /// and the connected interfaces.
    pub fn view_state(&self) -> (v: ViewState)
        ensures
            v.inputs_editable == !self.registered,
            v.register_button == (if self.registered {
                RegisterButton::Unregister
            } else {
                RegisterButton::Register
            }),
            v.send_enabled == self.registered,
            v.search_enabled == (self.all_rows@.len() > 0),
            v.captured == self.all_rows@.len(),
            v.showing == self.showing_count,
            v.interfaces == self.interfaces_connected,
            v.show_details == self.showing_details,
            v.auto_scroll == self.auto_scroll,
    {
        ViewState {
            inputs_editable: !self.registered,
            register_button: if self.registered {
                RegisterButton::Unregister
            } else {
                RegisterButton::Register
            },
            send_enabled: self.registered,
            search_enabled: !self.all_rows.is_empty(),
            captured: self.all_rows.len(),
            showing: self.showing_count,
            interfaces: self.interfaces_connected,
            show_details: self.showing_details,
            auto_scroll: self.auto_scroll,
        }
    }

    /// The title of the open dialog, or none when no dialog is open.
    pub fn dialog_title(&self) -> (r: Option<String>)
        ensures
            match self.dialog_type {
                DialogType::Info => r matches Some(t) && t@ == "Information"@,
                DialogType::Warning => r matches Some(t) && t@ == "Warning"@,
                DialogType::Error => r matches Some(t) && t@ == "Error"@,
                DialogType::Closed => r is None,
            },
    {
        match self.dialog_type {
            DialogType::Info => Some(String::from_str("Information")),
            DialogType::Warning => Some(String::from_str("Warning")),
            DialogType::Error => Some(String::from_str("Error")),
            DialogType::Closed => None,
        }
    }
}

} // verus!

verus! {

/// An address field only keeps numeric characters (and dots where
/// allowed).
pub proof fn lemma_kept_input_allowed(s: Seq<char>, allow_dot: bool)
    ensures
        forall|i: int|
            0 <= i < kept_input(s, allow_dot).len() ==> is_numeric_char(
                #[trigger] kept_input(s, allow_dot)[i],
            ) || (allow_dot && kept_input(s, allow_dot)[i] == '.'),
    decreases s.len(),
{
    if s.len() > 0 {
        lemma_kept_input_allowed(s.drop_last(), allow_dot);
        let prev = kept_input(s.drop_last(), allow_dot);
        assert forall|i: int| 0 <= i < kept_input(s, allow_dot).len() implies is_numeric_char(
            #[trigger] kept_input(s, allow_dot)[i],
        ) || (allow_dot && kept_input(s, allow_dot)[i] == '.') by {
            if i < prev.len() {
                assert(kept_input(s, allow_dot)[i] == prev[i]);
            }
        }
    }
}

/// Filtering an address field a second time changes nothing.
pub proof fn lemma_kept_input_idempotent(s: Seq<char>, allow_dot: bool)
    ensures
        kept_input(kept_input(s, allow_dot), allow_dot) == kept_input(s, allow_dot),
    decreases s.len(),
{
    if s.len() > 0 {
        lemma_kept_input_idempotent(s.drop_last(), allow_dot);
        let prev = kept_input(s.drop_last(), allow_dot);
        let c = s.last();
        if is_numeric_char(c) || (allow_dot && c == '.') {
            let k = prev.push(c);
            assert(k.drop_last() =~= prev);
            assert(k.last() == c);
        }
    }
}

/// The rows a search shows are a part of the captured rows: each at most as
/// often as it was captured.
pub proof fn lemma_matching_rows_part(rows: Seq<MessageView>, times: Seq<Seq<char>>, key: Seq<char>)
    ensures
        matching_rows(rows, times, key).to_multiset().subset_of(rows.to_multiset()),
        matching_rows(rows, times, key).len() <= rows.len(),
    decreases rows.len(),
{
    broadcast use vstd::seq_lib::group_to_multiset_ensures;

    if rows.len() == 0 {
        assert(matching_rows(rows, times, key).to_multiset() =~= rows.to_multiset());
    } else {
        let dl = rows.drop_last();
        lemma_matching_rows_part(dl, times.drop_last(), key);
        assert(dl.push(rows.last()) =~= rows);
        lemma_push_keeps_part(matching_rows(dl, times.drop_last(), key), dl, rows.last());
    }
}

/// With an empty search key every row is shown, in capture order.
pub proof fn lemma_empty_key_shows_all(rows: Seq<MessageView>, times: Seq<Seq<char>>, key: Seq<char>)
    requires
        key.len() == 0,
    ensures
        matching_rows(rows, times, key) == rows,
    decreases rows.len(),
{
    if rows.len() > 0 {
        lemma_empty_key_shows_all(rows.drop_last(), times.drop_last(), key);
        lemma_empty_key_occurs(times.last(), key);
        assert(rows.drop_last().push(rows.last()) =~= rows);
    }
}

/// Every row a search shows is a captured row that matches the key.
pub proof fn lemma_search_shows_only_matches(
    rows: Seq<MessageView>,
    times: Seq<Seq<char>>,
    key: Seq<char>,
)
    requires
        times.len() == rows.len(),
    ensures
        matching_rows(rows, times, key).len() <= rows.len(),
        forall|j: int|
            0 <= j < matching_rows(rows, times, key).len() ==> exists|k: int|
                0 <= k < rows.len() && rows[k] == #[trigger] matching_rows(rows, times, key)[j]
                    && row_matches(rows[k], times[k], key),
    decreases rows.len(),
{
    if rows.len() > 0 {
        let dl = rows.drop_last();
        let tl = times.drop_last();
        lemma_search_shows_only_matches(dl, tl, key);
        let prev = matching_rows(dl, tl, key);
        let cur = matching_rows(rows, times, key);
        assert forall|j: int| 0 <= j < cur.len() implies exists|k: int|
            0 <= k < rows.len() && rows[k] == #[trigger] cur[j] && row_matches(
                rows[k],
                times[k],
                key,
            ) by {
            if j < prev.len() {
                assert(cur[j] == prev[j]);
                let k = choose|k: int|
                    0 <= k < dl.len() && dl[k] == #[trigger] prev[j] && row_matches(
                        dl[k],
                        tl[k],
                        key,
                    );
                assert(rows[k] == dl[k] && times[k] == tl[k]);
            } else {
                let k = rows.len() - 1;
                assert(rows[k] == cur[j] && times[k] == times.last());
            }
        }
    }
}

/// Clicking a row and then clicking it again hides its details.
pub proof fn lemma_second_click_hides_details(s: AppView, index: usize, t1: Seq<char>, t2: Seq<char>)
    requires
        s.active != Some(index),
    ensures
        s.select(index, t1).select(index, t2).active is None,
        !s.select(index, t1).select(index, t2).showing_details,
        s.select(index, t1).select(index, t2).detailed_output.len() == 0,
        s.select(index, t1).select(index, t2).ascii_output.len() == 0,
{
}

/// The capture limit counts the rows received in the session: once the
/// session has received the limit, the row that reaches it stops the capture
/// and shows the limit warning, however often the table was emptied or a
/// file loaded since (neither resets the count; only a new registration
/// does).
pub proof fn lemma_limit_stops_capture(s: AppView, m: MessageView, t: Seq<char>)
    requires
        s.received + 1 >= MAX_PACKET_COUNT,
    ensures
        s.row_stops_capture(),
        s.add_row(m, t).warning == Some(limit_warning()),
        s.emptied().received == s.received,
{
}

/// Below the limit, both in the session and in the captured rows, a new row
/// neither stops the capture nor changes the warning.
pub proof fn lemma_below_limit_keeps_capturing(s: AppView, m: MessageView, t: Seq<char>)
    requires
        s.received + 1 < MAX_PACKET_COUNT,
        s.all_rows.len() + 1 < MAX_PACKET_COUNT,
    ensures
        !s.row_stops_capture(),
        s.add_row(m, t).warning == s.warning,
        s.add_row(m, t).received == s.received + 1,
{
}

/// An address field keeps exactly the input's allowed characters, in order:
/// the numeric ones, and dots where `allow_dot` holds.
pub proof fn lemma_kept_input_is_filter(s: Seq<char>, allow_dot: bool)
    ensures
        kept_input(s, allow_dot) == s.filter(
            |c: char| is_numeric_char(c) || (allow_dot && c == '.'),
        ),
    decreases s.len(),
{
    reveal_with_fuel(Seq::filter, 1);
    if s.len() > 0 {
        lemma_kept_input_is_filter(s.drop_last(), allow_dot);
    }
}

/// An input made only of allowed characters is kept whole, whatever its
/// length.
pub proof fn lemma_allowed_input_kept_whole(s: Seq<char>, allow_dot: bool)
    requires
        forall|i: int| 0 <= i < s.len() ==> is_numeric_char(#[trigger] s[i]) || (allow_dot && s[i] == '.'),
    ensures
        kept_input(s, allow_dot) == s,
    decreases s.len(),
{
    if s.len() > 0 {
        let dl = s.drop_last();
        assert forall|i: int| 0 <= i < dl.len() implies is_numeric_char(#[trigger] dl[i]) || (
        allow_dot && dl[i] == '.') by {
            assert(dl[i] == s[i]);
        }
        lemma_allowed_input_kept_whole(dl, allow_dot);
        assert(is_numeric_char(s[s.len() - 1]) || (allow_dot && s[s.len() - 1] == '.'));
        assert(dl.push(s.last()) =~= s);
    }
}

/// A search looks in every column: a key found in the row's shown time, in
/// its payload read as lower-case text, or in its lower-cased sender makes
/// the row match; a key found in none of them does not.
pub proof fn lemma_search_looks_in_every_column(m: MessageView, time_text: Seq<char>, key: Seq<char>)
    ensures
        occurs_in(time_text, key) ==> row_matches(m, time_text, key),
        occurs_in(lowercase(utf8_lossy(m.bytes)), key) ==> row_matches(m, time_text, key),
        occurs_in(lowercase(m.src), key) ==> row_matches(m, time_text, key),
        !occurs_in(time_text, key) && !occurs_in(lowercase(utf8_lossy(m.bytes)), key) && !occurs_in(
            lowercase(m.src),
            key,
        ) ==> !row_matches(m, time_text, key),
{
}

/// A search shows every captured row that matches it.
pub proof fn lemma_search_keeps_every_match(
    rows: Seq<MessageView>,
    times: Seq<Seq<char>>,
    key: Seq<char>,
)
    requires
        times.len() == rows.len(),
    ensures
        forall|i: int|
            0 <= i < rows.len() && row_matches(rows[i], times[i], key) ==> matching_rows(
                rows,
                times,
                key,
            ).contains(#[trigger] rows[i]),
    decreases rows.len(),
{
    if rows.len() > 0 {
        let dl = rows.drop_last();
        let tl = times.drop_last();
        lemma_search_keeps_every_match(dl, tl, key);
        let prev = matching_rows(dl, tl, key);
        let cur = matching_rows(rows, times, key);
        assert forall|i: int|
            0 <= i < rows.len() && row_matches(rows[i], times[i], key) implies cur.contains(
            #[trigger] rows[i],
        ) by {
            if i < rows.len() - 1 {
                assert(dl[i] == rows[i] && tl[i] == times[i]);
                assert(prev.contains(dl[i]));
                let k = choose|k: int| 0 <= k < prev.len() && prev[k] == dl[i];
                if row_matches(rows.last(), times.last(), key) {
                    assert(cur[k] == prev[k]);
                }
            } else {
                assert(cur[cur.len() - 1] == rows[i]);
            }
        }
    }
}

/// Clicking a row that is not selected selects it and shows the details of
/// that row of the table (not of any other captured row): the details pane
/// starts with the shown time, names the row's sender and ends with its hex
/// dump; the ASCII pane is the row's ASCII view. The rows are unchanged.
pub proof fn lemma_select_shows_clicked_row(s: AppView, index: usize, time_text: Seq<char>)
    requires
        s.active != Some(index),
        index < s.results.len(),
    ensures
        ({
            let r = s.select(index, time_text);
            let m = s.results[index as int];
            let d = r.detailed_output;
            let h = hexdump(m.bytes);
            &&& r.active == Some(index)
            &&& r.showing_details
            &&& r.ascii_output == ascii_view(m.bytes)
            &&& d.len() >= "> At: "@.len() + time_text.len()
            &&& d.subrange(0, ("> At: "@.len() + time_text.len()) as int) == "> At: "@ + time_text
            &&& occurs_in(d, m.src)
            &&& d.len() >= h.len()
            &&& d.subrange(d.len() - h.len(), d.len() as int) == h
            &&& r.results == s.results
            &&& r.all_rows == s.all_rows
        }),
{
    let m = s.results[index as int];
    let d = s.select(index, time_text).detailed_output;
    let a = "> At: "@ + time_text;
    let b = a + "\n> From: "@;
    let c = b + m.src;
    let e = c + "\n> Length: "@ + decimal(m.bytes.len()) + " byte(s)\n> Hex Dump: "@;
    let h = hexdump(m.bytes);
    assert(d == e + h);
    assert(d.subrange(0, a.len() as int) =~= a);
    assert(d.subrange(b.len() as int, (b.len() + m.src.len()) as int) =~= m.src);
    assert(d.subrange(d.len() - h.len(), d.len() as int) =~= h);
}

} // verus!
