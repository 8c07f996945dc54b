//! Captured datagrams and the table that lists them: how a message shows in
//! each column, how two messages order, and the three-field row a capture is
//! saved as and read back from.
use vstd::prelude::*;
use std::cmp::Ordering;
use vstd::utf8::encode_utf8;
use crate::text::{chars_of, push_signed_decimal, signed_decimal};
use crate::time::shows_local_time;
use crate::util::{all_hex, hex_decoded, hexdump, is_hex_char, hex_value, net_util_data_hexdump};

verus! {

/// How a capture time is shown: date, time and milliseconds.
pub const TIME_FORMAT: &'static str = "%Y-%m-%d %H:%M:%S.%3f";

/// The last millisecond (since the Unix epoch) that chrono can represent as
/// a date; capture times lie within this many milliseconds of the epoch.
pub const MAX_TIMESTAMP_MILLIS: i64 = 8210266876799999;

/// One datagram received from the multicast group.
#[derive(Debug)]
pub struct MulticastMessage {
    /// When it arrived, in whole milliseconds since the Unix epoch.
    pub time_stamp_millis: i64,
    /// The nanoseconds past that millisecond (below one million).
    pub sub_millis_nanos: u32,
    /// The sender's socket address, as text.
    pub src: String,
    /// The payload.
    pub bytes: Vec<u8>,
}

/// The mathematical value of a message.
pub struct MessageView {
    pub time_stamp_millis: i64,
    pub sub_millis_nanos: u32,
    pub src: Seq<char>,
    pub bytes: Seq<u8>,
}

impl View for MulticastMessage {
    type V = MessageView;

    open spec fn view(&self) -> MessageView {
        MessageView {
            time_stamp_millis: self.time_stamp_millis,
            sub_millis_nanos: self.sub_millis_nanos,
            src: self.src@,
            bytes: self.bytes@,
        }
    }
}

/// A capture time that chrono can show as a calendar date.
pub open spec fn valid_time(millis: int) -> bool {
    -MAX_TIMESTAMP_MILLIS <= millis <= MAX_TIMESTAMP_MILLIS
}

impl MessageView {
    pub open spec fn wf(self) -> bool {
        valid_time(self.time_stamp_millis as int) && self.sub_millis_nanos < 1000000
    }
}

/// chrono: `DateTime::from_timestamp_millis`, then `with_timezone(&Local)`
/// and `format(TIME_FORMAT)`. chrono's `Local` gives each instant a
/// `FixedOffset` of whole seconds, less than a day either way, and formats
/// the instant moved by that offset on the proleptic Gregorian calendar; the
/// contract states exactly that. Which offset the machine's time zone picks
/// is not stated. Within the `requires` the timestamp is in chrono's range,
/// so the conversion gives a date.
#[verifier::external_body]
pub(crate) fn local_time_text(millis: i64) -> (t: String)
    requires
        valid_time(millis as int),
    ensures
        shows_local_time(t@, millis as int),
{
    match chrono::DateTime::from_timestamp_millis(millis) {
        Some(utc) => utc.with_timezone(&chrono::Local).format(TIME_FORMAT).to_string(),
        None => String::new(),
    }
}

impl MulticastMessage {
    /// A message with the given fields.
    pub fn new(time_stamp_millis: i64, sub_millis_nanos: u32, src: String, bytes: Vec<u8>) -> (m:
        MulticastMessage)
        requires
            valid_time(time_stamp_millis as int),
            sub_millis_nanos < 1000000,
        ensures
            m@ == (MessageView { time_stamp_millis, sub_millis_nanos, src: src@, bytes: bytes@ }),
    {
        MulticastMessage { time_stamp_millis, sub_millis_nanos, src, bytes }
    }

    /// A copy with the same value.
    pub fn duplicate(&self) -> (m: MulticastMessage)
        ensures
            m@ == self@,
    {
        let bytes = self.bytes.clone();
        assert(bytes@ =~= self.bytes@);
        MulticastMessage {
            time_stamp_millis: self.time_stamp_millis,
            sub_millis_nanos: self.sub_millis_nanos,
            src: self.src.clone(),
            bytes,
        }
    }

    /// The text of the cell in the given column: the local capture time, the
    /// sender, or the payload's hex dump.
    pub fn get_text(&self, category: MulticastTableHeader) -> (r: String)
        requires
            self@.wf(),
        ensures
            category.is_time() ==> shows_local_time(r@, self.time_stamp_millis as int),
            category.is_data() ==> r@ == hexdump(self.bytes@),
            category.is_src() ==> r@ == self.src@,
    {
        match category {
            MulticastTableHeader::Time | MulticastTableHeader::TimeInv => local_time_text(
                self.time_stamp_millis,
            ),
            MulticastTableHeader::Data | MulticastTableHeader::DataInv => net_util_data_hexdump(
                self.bytes.as_slice(),
            ),
            MulticastTableHeader::Src | MulticastTableHeader::SrcInv => self.src.clone(),
        }
    }

    /// How two messages order in the given column: by capture time (to the
    /// nanosecond), by payload bytes, or by sender text (byte-wise, as
    /// `String` orders).
    pub fn compare(&self, other: &Self, category: MulticastTableHeader) -> (r: Ordering)
        ensures
            ordering_value(r) == compare_by(self@, other@, category),
    {
        let v = match category {
            MulticastTableHeader::Time | MulticastTableHeader::TimeInv => {
                if self.time_stamp_millis < other.time_stamp_millis {
                    -1i8
                } else if self.time_stamp_millis > other.time_stamp_millis {
                    1i8
                } else if self.sub_millis_nanos < other.sub_millis_nanos {
                    -1i8
                } else if self.sub_millis_nanos == other.sub_millis_nanos {
                    0i8
                } else {
                    1i8
                }
            },
            MulticastTableHeader::Data | MulticastTableHeader::DataInv => compare_bytes(
                self.bytes.as_slice(),
                other.bytes.as_slice(),
            ),
            MulticastTableHeader::Src | MulticastTableHeader::SrcInv => compare_bytes(
                self.src.as_str().as_bytes(),
                other.src.as_str().as_bytes(),
            ),
        };
        proof {
            assert(v == compare_by(self@, other@, category));
        }
        if v < 0 {
            Ordering::Less
        } else if v == 0 {
            Ordering::Equal
        } else {
            Ordering::Greater
        }
    }

    /// The column names of a capture file.
    pub fn csv_headers() -> (r: Vec<String>)
        ensures
            r@.len() == 3,
            r@[0]@ == "TIMESTAMP"@,
            r@[1]@ == "SOURCE"@,
            r@[2]@ == "DATA"@,
    {
        let mut r: Vec<String> = Vec::new();
        r.push(String::from_str("TIMESTAMP"));
        r.push(String::from_str("SOURCE"));
        r.push(String::from_str("DATA"));
        r
    }

    /// The three fields a message is saved as: the capture time in decimal
    /// milliseconds, the sender, and the payload's hex dump.
    pub fn row_fields(&self) -> (r: Vec<String>)
        ensures
            r@.len() == 3,
            r@[0]@ == signed_decimal(self.time_stamp_millis as int),
            r@[1]@ == self.src@,
            r@[2]@ == hexdump(self.bytes@),
    {
        let mut time = String::new();
        push_signed_decimal(&mut time, self.time_stamp_millis);
        let mut r: Vec<String> = Vec::new();
        r.push(time);
        r.push(self.src.clone());
        r.push(net_util_data_hexdump(self.bytes.as_slice()));
        r
    }

    /// Reads a saved row back: the capture time, the sender, and the payload
    /// as pairs of hex digits. A data field with any character that is not a
    /// hex digit is refused.
    pub fn from_row_fields(time_stamp_millis: i64, source: String, data: &str) -> (r: Result<
        MulticastMessage,
        RowError,
    >)
        requires
            0 <= time_stamp_millis <= MAX_TIMESTAMP_MILLIS,
            all_hex(data@) ==> data@.len() % 2 == 0,
        ensures
            match decoded_row(time_stamp_millis, source@, data@) {
                Some(v) => r matches Ok(m) && m@ == v,
                None => r == Err::<MulticastMessage, RowError>(RowError::NonHexData),
            },
    {
        let chars = chars_of(data);
        let n = chars.len();
        let mut i: usize = 0;
        while i < n
            invariant
                n == chars@.len(),
                chars@ == data@,
                i <= n,
                forall|k: int| 0 <= k < i ==> is_hex_char(#[trigger] chars@[k]),
            decreases n - i,
        {
            if !hex_char(chars[i]) {
                return Err(RowError::NonHexData);
            }
            i = i + 1;
        }
        assert(all_hex(data@));
        let half = n / 2;
        let mut bytes: Vec<u8> = Vec::new();
        let mut k: usize = 0;
        while k < half
            invariant
                n == chars@.len(),
                chars@ == data@,
                all_hex(data@),
                n % 2 == 0,
                half == n / 2,
                k <= half,
                bytes@ == hex_decoded(data@).take(k as int),
            decreases half - k,
        {
            let hi = hex_char_value(chars[2 * k]);
            let lo = hex_char_value(chars[2 * k + 1]);
            bytes.push(hi * 16 + lo);
            assert(bytes@ =~= hex_decoded(data@).take(k + 1));
            k = k + 1;
        }
        assert(bytes@ =~= hex_decoded(data@));
        Ok(MulticastMessage { time_stamp_millis, sub_millis_nanos: 0, src: source, bytes })
    }
}

/// Why a saved row could not be read back.
#[derive(Debug, Clone, Copy, PartialEq, Eq, Structural)]
pub enum RowError {
    /// The data field holds a character that is not a hex digit.
    NonHexData,
}

impl RowError {
    /// The error's description.
    pub fn description(&self) -> (r: String)
        ensures
            r@ == "DATA field contains non-hexadecimal characters"@,
    {
        String::from_str("DATA field contains non-hexadecimal characters")
    }
}

/// The message a saved row stands for, or none where the data field is not
/// made of hex digits.
pub open spec fn decoded_row(time_stamp_millis: i64, source: Seq<char>, data: Seq<char>) -> Option<
    MessageView,
> {
    if all_hex(data) {
        Some(MessageView { time_stamp_millis, sub_millis_nanos: 0, src: source, bytes: hex_decoded(data) })
    } else {
        None
    }
}

/// A saved message reads back as itself, to the millisecond (a file keeps
/// whole milliseconds): its data field is all hex digits, of even length,
/// and decodes to the payload.
pub proof fn lemma_saved_row_reads_back(m: MessageView)
    ensures
        all_hex(hexdump(m.bytes)),
        hexdump(m.bytes).len() % 2 == 0,
        decoded_row(m.time_stamp_millis, m.src, hexdump(m.bytes)) == Some(
            MessageView { sub_millis_nanos: 0, ..m },
        ),
{
    crate::util::lemma_hexdump_decodes(m.bytes);
}

/// A saved capture reads back as itself, row for row and in order, to the
/// millisecond: decoding each saved row gives the message it was saved
/// from.
pub proof fn lemma_saved_rows_read_back(rows: Seq<MessageView>)
    ensures
        rows.map_values(
            |m: MessageView| decoded_row(m.time_stamp_millis, m.src, hexdump(m.bytes)),
        ) == rows.map_values(|m: MessageView| Some(MessageView { sub_millis_nanos: 0, ..m })),
{
    assert forall|i: int| 0 <= i < rows.len() implies decoded_row(
        rows[i].time_stamp_millis,
        rows[i].src,
        hexdump(rows[i].bytes),
    ) == Some(MessageView { sub_millis_nanos: 0, ..rows[i] }) by {
        lemma_saved_row_reads_back(rows[i]);
    }
    assert(rows.map_values(
        |m: MessageView| decoded_row(m.time_stamp_millis, m.src, hexdump(m.bytes)),
    ) =~= rows.map_values(|m: MessageView| Some(MessageView { sub_millis_nanos: 0, ..m })));
}

fn hex_char(c: char) -> (r: bool)
    ensures
        r == is_hex_char(c),
{
    ('0' <= c && c <= '9') || ('a' <= c && c <= 'f') || ('A' <= c && c <= 'F')
}

fn hex_char_value(c: char) -> (r: u8)
    requires
        is_hex_char(c),
    ensures
        r == hex_value(c),
        r < 16,
{
    let v = c as u32;
    if v <= 57 {
        (v - 48) as u8
    } else if v >= 97 {
        (v - 87) as u8
    } else {
        (v - 55) as u8
    }
}

/// Lexicographic order of byte strings as -1, 0 or 1; a proper prefix comes
/// first.
pub open spec fn lex_order(a: Seq<u8>, b: Seq<u8>) -> int
    decreases a.len(),
{
    if a.len() == 0 {
        if b.len() == 0 {
            0
        } else {
            -1
        }
    } else if b.len() == 0 {
        1
    } else if a[0] < b[0] {
        -1
    } else if a[0] > b[0] {
        1
    } else {
        lex_order(a.drop_first(), b.drop_first())
    }
}

/// The sign of an integer.
pub open spec fn sign(x: int) -> int {
    if x < 0 {
        -1
    } else if x == 0 {
        0
    } else {
        1
    }
}

/// An ordering as -1, 0 or 1.
pub open spec fn ordering_value(o: Ordering) -> int {
    match o {
        Ordering::Less => -1,
        Ordering::Equal => 0,
        Ordering::Greater => 1,
    }
}

/// How two messages order in a column, as -1, 0 or 1.
pub open spec fn compare_by(a: MessageView, b: MessageView, category: MulticastTableHeader) -> int {
    if category.is_time() {
        if a.time_stamp_millis != b.time_stamp_millis {
            sign(a.time_stamp_millis - b.time_stamp_millis)
        } else {
            sign(a.sub_millis_nanos - b.sub_millis_nanos)
        }
    } else if category.is_data() {
        lex_order(a.bytes, b.bytes)
    } else {
        lex_order(encode_utf8(a.src), encode_utf8(b.src))
    }
}

fn compare_bytes(a: &[u8], b: &[u8]) -> (r: i8)
    ensures
        r == lex_order(a@, b@),
        -1 <= r <= 1,
{
    let mut i: usize = 0;
    assert(a@.skip(0) =~= a@);
    assert(b@.skip(0) =~= b@);
    while i < a.len() && i < b.len()
        invariant
            i <= a.len(),
            i <= b.len(),
            lex_order(a@, b@) == lex_order(a@.skip(i as int), b@.skip(i as int)),
        decreases a.len() - i,
    {
        if a[i] < b[i] {
            return -1;
        }
        if a[i] > b[i] {
            return 1;
        }
        assert(a@.skip(i as int).drop_first() =~= a@.skip(i + 1));
        assert(b@.skip(i as int).drop_first() =~= b@.skip(i + 1));
        i = i + 1;
    }
    if i == a.len() && i == b.len() {
        0
    } else if i == a.len() {
        -1
    } else {
        1
    }
}

/// The order of a column is a proper comparison: every message equals
/// itself, and swapping the two messages flips the answer.
pub proof fn lemma_compare_antisymmetric(a: MessageView, b: MessageView, category: MulticastTableHeader)
    ensures
        compare_by(a, a, category) == 0,
        compare_by(a, b, category) == -compare_by(b, a, category),
{
    lemma_lex_order_antisymmetric(a.bytes, a.bytes);
    lemma_lex_order_antisymmetric(a.bytes, b.bytes);
    lemma_lex_order_antisymmetric(encode_utf8(a.src), encode_utf8(a.src));
    lemma_lex_order_antisymmetric(encode_utf8(a.src), encode_utf8(b.src));
}

proof fn lemma_lex_order_antisymmetric(a: Seq<u8>, b: Seq<u8>)
    ensures
        lex_order(a, b) == -lex_order(b, a),
        a == b ==> lex_order(a, b) == 0,
    decreases a.len(),
{
    if a.len() > 0 && b.len() > 0 {
        lemma_lex_order_antisymmetric(a.drop_first(), b.drop_first());
    }
}

/// A column of the results table. The visible header and the table body use
/// separate sets of columns (the body's have empty titles).
#[derive(Debug, Clone, Copy, PartialEq, Eq, Structural, Hash)]
pub enum MulticastTableHeader {
    Time,
    Src,
    Data,
    TimeInv,
    SrcInv,
    DataInv,
}

/// How wide a column is: a fixed number of pixels, or a share of the rest.
#[derive(Debug, Clone, Copy, PartialEq, Eq, Structural)]
pub enum ColumnWidth {
    Fixed(u16),
    FillPortion(u16),
}

impl MulticastTableHeader {
    pub open spec fn is_time(self) -> bool {
        self is Time || self is TimeInv
    }

    pub open spec fn is_src(self) -> bool {
        self is Src || self is SrcInv
    }

    pub open spec fn is_data(self) -> bool {
        self is Data || self is DataInv
    }

    /// The header columns.
    pub fn all_vis() -> (r: Vec<MulticastTableHeader>)
        ensures
            r@ == seq![MulticastTableHeader::Time, MulticastTableHeader::Src, MulticastTableHeader::Data],
    {
        let mut r = Vec::new();
        r.push(MulticastTableHeader::Time);
        r.push(MulticastTableHeader::Src);
        r.push(MulticastTableHeader::Data);
        r
    }

    /// The body columns, whose titles are empty.
    pub fn all_inv() -> (r: Vec<MulticastTableHeader>)
        ensures
            r@ == seq![
                MulticastTableHeader::TimeInv,
                MulticastTableHeader::SrcInv,
                MulticastTableHeader::DataInv,
            ],
    {
        let mut r = Vec::new();
        r.push(MulticastTableHeader::TimeInv);
        r.push(MulticastTableHeader::SrcInv);
        r.push(MulticastTableHeader::DataInv);
        r
    }

    /// The column's width: time and sender 200 pixels, data a 50 share.
    pub fn width(&self) -> (r: ColumnWidth)
        ensures
            self.is_data() ==> r == ColumnWidth::FillPortion(50),
            !self.is_data() ==> r == ColumnWidth::Fixed(200),
    {
        match self {
            MulticastTableHeader::Time | MulticastTableHeader::TimeInv => ColumnWidth::Fixed(200),
            MulticastTableHeader::Src | MulticastTableHeader::SrcInv => ColumnWidth::Fixed(200),
            MulticastTableHeader::Data | MulticastTableHeader::DataInv => ColumnWidth::FillPortion(
                50,
            ),
        }
    }

    /// The column's title.
    pub fn title(&self) -> (r: String)
        ensures
            *self == MulticastTableHeader::Time ==> r@ == "Time"@,
            *self == MulticastTableHeader::Src ==> r@ == "Source"@,
            *self == MulticastTableHeader::Data ==> r@ == "Data"@,
            !(*self == MulticastTableHeader::Time || *self == MulticastTableHeader::Src || *self
                == MulticastTableHeader::Data) ==> r@ == Seq::<char>::empty(),
    {
        match self {
            MulticastTableHeader::Time => String::from_str("Time"),
            MulticastTableHeader::Src => String::from_str("Source"),
            MulticastTableHeader::Data => String::from_str("Data"),
            _ => String::new(),
        }
    }
}

impl Default for MulticastTableHeader {
    fn default() -> (r: Self)
        ensures
            r == MulticastTableHeader::Time,
    {
        MulticastTableHeader::Time
    }
}

/// The (empty) set of actions of the table's context menus.
#[derive(Debug, Clone, Copy, PartialEq, Eq, Structural, Hash)]
pub enum TableAction {
    /// The one action; it does nothing.
    Nothing,
}

} // verus!
