//! The dump format: five-field server rows and nine-field client rows,
//! separated by runs of whitespace, one row per line.

use vstd::prelude::*;
use vstd::string::*;
use crate::text::{
    fields_of, i64_of, i64_text, lemma_i64_text_reads_back, normalize,
    lemma_u64_text_reads_back, lines_of, parse_i64, parse_u64, split_fields, split_lines, u64_of,
    u64_text, views, write_i64, write_u64,
};

verus! {

/// A peer of an interface, as one client row reports it.
#[derive(Debug, Clone)]
pub struct ClientData {
    pub interface: String,
    pub public_key: String,
    pub preshared_key: Option<String>,
    pub endpoint: Option<String>,
    pub allowed_ips: String,
    pub latest_handshake: u64,
    pub transfer_rx: i64,
    pub transfer_tx: i64,
    pub persistent_keepalive: u64,
}

/// An interface, as one server row reports it.
#[derive(Debug, Clone)]
pub struct ServerData {
    pub interface: String,
    pub private_key: String,
    pub public_key: String,
    pub listen_port: String,
    pub fwmark: String,
}

#[derive(Debug, Clone)]
pub enum WgEntry {
    Client(ClientData),
    Server(ServerData),
}

#[derive(Debug)]
pub enum WgError {
    ContextNotFound(String),
    Message(String),
    /// A numeric column held this text, which is no numeral of its type.
    InvalidNumber(String),
}

pub struct ClientDataView {
    pub interface: Seq<char>,
    pub public_key: Seq<char>,
    pub preshared_key: Option<Seq<char>>,
    pub endpoint: Option<Seq<char>>,
    pub allowed_ips: Seq<char>,
    pub latest_handshake: u64,
    pub transfer_rx: i64,
    pub transfer_tx: i64,
    pub persistent_keepalive: u64,
}

pub struct ServerDataView {
    pub interface: Seq<char>,
    pub private_key: Seq<char>,
    pub public_key: Seq<char>,
    pub listen_port: Seq<char>,
    pub fwmark: Seq<char>,
}

pub enum WgEntryView {
    Client(ClientDataView),
    Server(ServerDataView),
}

/// The text of an optional string.
pub open spec fn option_view(o: Option<String>) -> Option<Seq<char>> {
    match o {
        Some(s) => Some(s@),
        None => None,
    }
}

impl View for ClientData {
    type V = ClientDataView;

    open spec fn view(&self) -> ClientDataView {
        ClientDataView {
            interface: self.interface@,
            public_key: self.public_key@,
            preshared_key: option_view(self.preshared_key),
            endpoint: option_view(self.endpoint),
            allowed_ips: self.allowed_ips@,
            latest_handshake: self.latest_handshake,
            transfer_rx: self.transfer_rx,
            transfer_tx: self.transfer_tx,
            persistent_keepalive: self.persistent_keepalive,
        }
    }
}

impl View for ServerData {
    type V = ServerDataView;

    open spec fn view(&self) -> ServerDataView {
        ServerDataView {
            interface: self.interface@,
            private_key: self.private_key@,
            public_key: self.public_key@,
            listen_port: self.listen_port@,
            fwmark: self.fwmark@,
        }
    }
}

impl View for WgEntry {
    type V = WgEntryView;

    open spec fn view(&self) -> WgEntryView {
        match self {
            WgEntry::Client(c) => WgEntryView::Client(c@),
            WgEntry::Server(s) => WgEntryView::Server(s@),
        }
    }
}

/// The views of a sequence of entries.
pub open spec fn entry_views(v: Seq<WgEntry>) -> Seq<WgEntryView> {
    Seq::new(v.len(), |i: int| v[i]@)
}

/// The token that stands for an absent optional field.
pub open spec fn absent() -> Seq<char> {
    "(none)"@
}

/// What an optional column holds: nothing where it holds the token.
pub open spec fn optional_of(field: Seq<char>) -> Option<Seq<char>> {
    if field == absent() {
        None
    } else {
        Some(field)
    }
}

/// What an optional value is written as.
pub open spec fn optional_text(value: Option<Seq<char>>) -> Seq<char> {
    match value {
        Some(s) => s,
        None => absent(),
    }
}

pub open spec fn server_of(f: Seq<Seq<char>>) -> ServerDataView
    recommends
        f.len() == 5,
{
    ServerDataView {
        interface: f[0],
        private_key: f[1],
        public_key: f[2],
        listen_port: f[3],
        fwmark: f[4],
    }
}

/// The first numeric column of a client row that is no numeral of its type.
pub open spec fn bad_number(f: Seq<Seq<char>>) -> Option<Seq<char>>
    recommends
        f.len() == 9,
{
    if u64_of(f[5]) is None {
        Some(f[5])
    } else if i64_of(f[6]) is None {
        Some(f[6])
    } else if i64_of(f[7]) is None {
        Some(f[7])
    } else if u64_of(f[8]) is None {
        Some(f[8])
    } else {
        None
    }
}

pub open spec fn client_of(f: Seq<Seq<char>>) -> ClientDataView
    recommends
        f.len() == 9,
        bad_number(f) is None,
{
    ClientDataView {
        interface: f[0],
        public_key: f[1],
        preshared_key: optional_of(f[2]),
        endpoint: optional_of(f[3]),
        allowed_ips: f[4],
        latest_handshake: u64_of(f[5]).unwrap(),
        transfer_rx: i64_of(f[6]).unwrap(),
        transfer_tx: i64_of(f[7]).unwrap(),
        persistent_keepalive: u64_of(f[8]).unwrap(),
    }
}

/// What a row of fields stands for: a server with five fields, a client with
/// nine, nothing with any other count. A client row with a malformed number
/// is an error, which carries the malformed text.
pub open spec fn entry_of(f: Seq<Seq<char>>) -> Result<Option<WgEntryView>, Seq<char>> {
    if f.len() == 5 {
        Ok(Some(WgEntryView::Server(server_of(f))))
    } else if f.len() == 9 {
        match bad_number(f) {
            Some(t) => Err(t),
            None => Ok(Some(WgEntryView::Client(client_of(f)))),
        }
    } else {
        Ok(None)
    }
}

/// What a line stands for: the entry of its whitespace-separated fields.
pub open spec fn line_entry(line: Seq<char>) -> Result<Option<WgEntryView>, Seq<char>> {
    entry_of(fields_of(line))
}

/// What a sequence of lines stands for: the entries of its rows in order, or
/// the error of the first line that has one.
pub open spec fn entries_of(lines: Seq<Seq<char>>) -> Result<Seq<WgEntryView>, Seq<char>>
    decreases lines.len(),
{
    if lines.len() == 0 {
        Ok(seq![])
    } else {
        match entries_of(lines.drop_last()) {
            Err(t) => Err(t),
            Ok(es) => match line_entry(lines.last()) {
                Err(t) => Err(t),
                Ok(None) => Ok(es),
                Ok(Some(e)) => Ok(es.push(e)),
            },
        }
    }
}

/// Whether `r` is the outcome `model`, entry for entry and error for error.
pub open spec fn entry_matches(
    r: Result<Option<WgEntry>, WgError>,
    model: Result<Option<WgEntryView>, Seq<char>>,
) -> bool {
    match model {
        Ok(Some(v)) => r matches Ok(Some(e)) && e@ == v,
        Ok(None) => r matches Ok(None),
        Err(t) => r matches Err(WgError::InvalidNumber(s)) && s@ == t,
    }
}

fn read_optional(field: &String) -> (r: Option<String>)
    ensures
        option_view(r) == optional_of(field@),
{
    let token = String::from_str("(none)");
    if *field == token {
        None
    } else {
        Some(field.clone())
    }
}

/// Builds the entry of a row from its fields.
pub fn parse_fields(fields: &Vec<String>) -> (r: Result<Option<WgEntry>, WgError>)
    ensures
        entry_matches(r, entry_of(views(fields@))),
{
    let ghost f = views(fields@);
    if fields.len() == 5 {
        let entry = WgEntry::Server(
            ServerData {
                interface: fields[0].clone(),
                private_key: fields[1].clone(),
                public_key: fields[2].clone(),
                listen_port: fields[3].clone(),
                fwmark: fields[4].clone(),
            },
        );
        assert(entry@ == WgEntryView::Server(server_of(f)));
        Ok(Some(entry))
    } else if fields.len() == 9 {
        let latest_handshake = match parse_u64(fields[5].as_str()) {
            Some(v) => v,
            None => {
                return Err(WgError::InvalidNumber(fields[5].clone()));
            },
        };
        let transfer_rx = match parse_i64(fields[6].as_str()) {
            Some(v) => v,
            None => {
                return Err(WgError::InvalidNumber(fields[6].clone()));
            },
        };
        let transfer_tx = match parse_i64(fields[7].as_str()) {
            Some(v) => v,
            None => {
                return Err(WgError::InvalidNumber(fields[7].clone()));
            },
        };
        let persistent_keepalive = match parse_u64(fields[8].as_str()) {
            Some(v) => v,
            None => {
                return Err(WgError::InvalidNumber(fields[8].clone()));
            },
        };
        let entry = WgEntry::Client(
            ClientData {
                interface: fields[0].clone(),
                public_key: fields[1].clone(),
                preshared_key: read_optional(&fields[2]),
                endpoint: read_optional(&fields[3]),
                allowed_ips: fields[4].clone(),
                latest_handshake,
                transfer_rx,
                transfer_tx,
                persistent_keepalive,
            },
        );
        assert(entry@ == WgEntryView::Client(client_of(f)));
        Ok(Some(entry))
    } else {
        Ok(None)
    }
}

/// Reads one line of a dump.
pub fn parse_line(line: &str) -> (r: Result<Option<WgEntry>, WgError>)
    ensures
        entry_matches(r, line_entry(line@)),
{
    let collapsed = normalize(line);
    let fields = split_fields(collapsed.as_str());
    parse_fields(&fields)
}

/// Reads a whole dump: the entries of its rows in the order of the lines.
/// Lines with another number of fields than five or nine are passed over. The
/// first malformed number ends the reading with an error.
pub fn parse_dump(data: String) -> (r: Result<Vec<WgEntry>, WgError>)
    ensures
        match entries_of(lines_of(data@)) {
            Ok(es) => r matches Ok(v) && entry_views(v@) == es,
            Err(t) => r matches Err(WgError::InvalidNumber(s)) && s@ == t,
        },
{
    let lines = split_lines(data.as_str());
    let ghost all = views(lines@);
    let mut payload: Vec<WgEntry> = Vec::new();
    let mut k: usize = 0;
    while k < lines.len()
        invariant
            k <= lines.len(),
            all == views(lines@),
            all == lines_of(data@),
            entries_of(all.take(k as int)) matches Ok(es) && es =~= entry_views(payload@),
        decreases lines.len() - k,
    {
        let ghost before = entry_views(payload@);
        proof {
            assert(all.take(k + 1).drop_last() =~= all.take(k as int));
            assert(all.take(k + 1).last() == lines[k as int]@);
        }
        match parse_line(lines[k].as_str()) {
            Err(e) => {
                proof {
                    lemma_error_stays(all, k + 1);
                }
                return Err(e);
            },
            Ok(None) => {},
            Ok(Some(entry)) => {
                payload.push(entry);
                assert(entry_views(payload@) =~= before.push(entry@));
            },
        }
        k = k + 1;
    }
    assert(all.take(k as int) =~= all);
    Ok(payload)
}

/// Once a prefix of the lines fails, every longer prefix fails with the same
/// error.
pub proof fn lemma_error_stays(lines: Seq<Seq<char>>, k: int)
    requires
        0 <= k <= lines.len(),
        entries_of(lines.take(k)) is Err,
    ensures
        entries_of(lines) == entries_of(lines.take(k)),
    decreases lines.len(),
{
    if k == lines.len() {
        assert(lines.take(k) =~= lines);
    } else {
        assert(lines.drop_last().take(k) =~= lines.take(k));
        lemma_error_stays(lines.drop_last(), k);
    }
}

/// A line whose number of fields is neither five nor nine adds nothing to a
/// dump and raises no error: the dump reads as it does without that line.
pub proof fn lemma_other_rows_dropped(lines: Seq<Seq<char>>, line: Seq<char>)
    requires
        fields_of(line).len() != 5,
        fields_of(line).len() != 9,
    ensures
        line_entry(line) == Ok::<Option<WgEntryView>, Seq<char>>(None),
        entries_of(lines.push(line)) == entries_of(lines),
{
    assert(lines.push(line).drop_last() =~= lines);
}

/// The text columns of a client record, as a row writes them.
pub open spec fn text_columns(c: ClientDataView) -> Seq<Seq<char>> {
    seq![
        c.interface,
        c.public_key,
        optional_text(c.preshared_key),
        optional_text(c.endpoint),
        c.allowed_ips,
    ]
}

/// A row of nine fields with well-formed numbers reads as a client record
/// that keeps what the row holds: written out again, its text columns are the
/// row's first five fields, and its numbers are the values of the row's
/// numerals.
pub proof fn lemma_client_row_round_trip(f: Seq<Seq<char>>)
    requires
        f.len() == 9,
        bad_number(f) is None,
    ensures
        entry_of(f) == Ok::<Option<WgEntryView>, Seq<char>>(
            Some(WgEntryView::Client(client_of(f))),
        ),
        text_columns(client_of(f)) == f.take(5),
        u64_of(f[5]) == Some(client_of(f).latest_handshake),
        i64_of(f[6]) == Some(client_of(f).transfer_rx),
        i64_of(f[7]) == Some(client_of(f).transfer_tx),
        u64_of(f[8]) == Some(client_of(f).persistent_keepalive),
{
    assert(text_columns(client_of(f)) =~= f.take(5));
}

/// The nine fields that write a client record.
pub open spec fn row_of(c: ClientDataView) -> Seq<Seq<char>> {
    seq![
        c.interface,
        c.public_key,
        optional_text(c.preshared_key),
        optional_text(c.endpoint),
        c.allowed_ips,
        u64_text(c.latest_handshake),
        i64_text(c.transfer_rx),
        i64_text(c.transfer_tx),
        u64_text(c.persistent_keepalive),
    ]
}

fn write_optional(o: &Option<String>) -> (r: String)
    ensures
        r@ == optional_text(option_view(*o)),
{
    match o {
        Some(s) => s.clone(),
        None => String::from_str("(none)"),
    }
}

impl ClientData {
    /// The fields of the row that writes this record.
    pub fn to_fields(&self) -> (r: Vec<String>)
        ensures
            views(r@) == row_of(self@),
    {
        let mut out: Vec<String> = Vec::new();
        out.push(self.interface.clone());
        out.push(self.public_key.clone());
        out.push(write_optional(&self.preshared_key));
        out.push(write_optional(&self.endpoint));
        out.push(self.allowed_ips.clone());
        out.push(write_u64(self.latest_handshake));
        out.push(write_i64(self.transfer_rx));
        out.push(write_i64(self.transfer_tx));
        out.push(write_u64(self.persistent_keepalive));
        assert(views(out@) =~= row_of(self@));
        out
    }
}

/// A row whose numbers are written without a plus sign and without zeros in
/// front reads as a record that writes the same row again, field for field.
pub proof fn lemma_read_then_written(f: Seq<Seq<char>>)
    requires
        f.len() == 9,
        bad_number(f) is None,
        f[5] == u64_text(u64_of(f[5]).unwrap()),
        f[6] == i64_text(i64_of(f[6]).unwrap()),
        f[7] == i64_text(i64_of(f[7]).unwrap()),
        f[8] == u64_text(u64_of(f[8]).unwrap()),
    ensures
        entry_of(f) == Ok::<Option<WgEntryView>, Seq<char>>(
            Some(WgEntryView::Client(client_of(f))),
        ),
        row_of(client_of(f)) == f,
{
    assert(row_of(client_of(f)) =~= f);
}

/// The row that writes a record reads as that record, unless an optional
/// field of the record holds the very token that stands for an absent one.
pub proof fn lemma_written_then_read(c: ClientDataView)
    requires
        c.preshared_key != Some(absent()),
        c.endpoint != Some(absent()),
    ensures
        entry_of(row_of(c)) == Ok::<Option<WgEntryView>, Seq<char>>(
            Some(WgEntryView::Client(c)),
        ),
{
    lemma_u64_text_reads_back(c.latest_handshake);
    lemma_i64_text_reads_back(c.transfer_rx);
    lemma_i64_text_reads_back(c.transfer_tx);
    lemma_u64_text_reads_back(c.persistent_keepalive);
    let f = row_of(c);
    assert(optional_of(f[2]) == c.preshared_key);
    assert(optional_of(f[3]) == c.endpoint);
}

} // verus!
