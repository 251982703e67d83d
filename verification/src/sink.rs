//! What a sink receives of a finalized row: its identity in text, its
//! canonical fields, the derived fields and the statistics, in the fixed
//! order of the columns.

use vstd::prelude::*;
use vstd::string::StringExecFns;
use crate::aggregate::{AggregateRow, RowModel};
use crate::derived::{
    decimal_of, decimal_text, last_as_number, last_token, network_of, parse_network,
    parsed_prefix, Network,
};
use crate::identity::{hyphenated, RecordIdentity};
use crate::timestamp::Timestamp;

verus! {

/// A finalized row as a sink takes it.
#[derive(Debug)]
pub struct SinkRow {
    pub uuid: String,
    pub elem_type: String,
    pub prefix: String,
    pub start_ip: String,
    pub end_ip: String,
    pub as_path: String,
    pub asn: String,
    pub next_hop: String,
    pub peer_ip: String,
    pub min_timestamp: Timestamp,
    pub max_timestamp: Timestamp,
    pub count: u64,
}

/// What a sink row holds, as mathematical values.
pub struct SinkRowModel {
    pub uuid: Seq<char>,
    pub elem_type: Seq<char>,
    pub prefix: Seq<char>,
    pub start_ip: Seq<char>,
    pub end_ip: Seq<char>,
    pub as_path: Seq<char>,
    pub asn: Seq<char>,
    pub next_hop: Seq<char>,
    pub peer_ip: Seq<char>,
    pub min_timestamp: Timestamp,
    pub max_timestamp: Timestamp,
    pub count: nat,
}

impl View for SinkRow {
    type V = SinkRowModel;

    open spec fn view(&self) -> SinkRowModel {
        SinkRowModel {
            uuid: self.uuid@,
            elem_type: self.elem_type@,
            prefix: self.prefix@,
            start_ip: self.start_ip@,
            end_ip: self.end_ip@,
            as_path: self.as_path@,
            asn: self.asn@,
            next_hop: self.next_hop@,
            peer_ip: self.peer_ip@,
            min_timestamp: self.min_timestamp,
            max_timestamp: self.max_timestamp,
            count: self.count as nat,
        }
    }
}

/// Why a row could not be handed to a sink.
#[derive(Clone, Copy, Debug, PartialEq, Eq, Structural)]
pub enum SinkError {
    /// The prefix of the row with this identity is no address block.
    InvalidPrefix(RecordIdentity),
}

/// The sink row of an aggregate row whose prefix names the given block.
pub open spec fn sink_row_model(row: RowModel, block: Network) -> SinkRowModel {
    SinkRowModel {
        uuid: hyphenated(row.identity.value),
        elem_type: row.key.elem_type,
        prefix: row.key.prefix,
        start_ip: decimal_text(block.start_model() as nat),
        end_ip: decimal_text(block.end_model() as nat),
        as_path: row.key.as_path,
        asn: last_token(row.key.as_path),
        next_hop: row.key.next_hop,
        peer_ip: row.key.peer_ip,
        min_timestamp: row.min_timestamp,
        max_timestamp: row.max_timestamp,
        count: row.count,
    }
}

/// Makes the sink row of an aggregate row, given the block that its prefix
/// names.
pub fn sink_row_with(row: &AggregateRow, block: Network) -> (out: SinkRow)
    requires
        block.wf(),
    ensures
        out@ == sink_row_model(row@, block),
{
    SinkRow {
        uuid: row.identity.to_text(),
        elem_type: row.key.elem_type.clone(),
        prefix: row.key.prefix.clone(),
        start_ip: decimal_of(block.start()),
        end_ip: decimal_of(block.end()),
        as_path: row.key.as_path.clone(),
        asn: last_as_number(row.key.as_path.as_str()),
        next_hop: row.key.next_hop.clone(),
        peer_ip: row.key.peer_ip.clone(),
        min_timestamp: row.min_timestamp,
        max_timestamp: row.max_timestamp,
        count: row.count,
    }
}

/// Makes the sink row of an aggregate row. The row is refused, under its
/// identity, where its prefix cannot be read as an address block.
pub fn sink_row(row: &AggregateRow) -> (out: Result<SinkRow, SinkError>)
    ensures
        match network_of(parsed_prefix(row.key.prefix@)) {
            Some(block) => out.is_ok() && out.unwrap()@ == sink_row_model(row@, block),
            None => out == Err::<SinkRow, SinkError>(SinkError::InvalidPrefix(row.identity)),
        },
{
    match parse_network(row.key.prefix.as_str()) {
        Some(block) => Ok(sink_row_with(row, block)),
        None => Err(SinkError::InvalidPrefix(row.identity)),
    }
}

/// The sink rows of the rows whose prefix names an address block, in order.
pub open spec fn ready_rows(rows: Seq<AggregateRow>) -> Seq<SinkRowModel>
    decreases rows.len(),
{
    if rows.len() == 0 {
        Seq::empty()
    } else {
        match network_of(parsed_prefix(rows.last().key.prefix@)) {
            Some(block) => ready_rows(rows.drop_last()).push(sink_row_model(rows.last()@, block)),
            None => ready_rows(rows.drop_last()),
        }
    }
}

/// The refusals of the rows whose prefix names no address block, in order.
pub open spec fn refused_rows(rows: Seq<AggregateRow>) -> Seq<SinkError>
    decreases rows.len(),
{
    if rows.len() == 0 {
        Seq::empty()
    } else {
        match network_of(parsed_prefix(rows.last().key.prefix@)) {
            Some(_) => refused_rows(rows.drop_last()),
            None => refused_rows(rows.drop_last()).push(
                SinkError::InvalidPrefix(rows.last().identity),
            ),
        }
    }
}

/// The rows of a list of sink rows as mathematical values.
pub open spec fn sink_models(rows: Seq<SinkRow>) -> Seq<SinkRowModel> {
    Seq::new(rows.len(), |i: int| rows[i]@)
}

/// Makes the sink rows of a batch. A row that is refused does not stop the
/// others; every refusal is handed back with the identity of its row.
pub fn sink_rows(rows: &Vec<AggregateRow>) -> (out: (Vec<SinkRow>, Vec<SinkError>))
    ensures
        sink_models(out.0@) == ready_rows(rows@),
        out.1@ == refused_rows(rows@),
{
    let mut ready: Vec<SinkRow> = Vec::new();
    let mut refused: Vec<SinkError> = Vec::new();
    let mut i: usize = 0;
    while i < rows.len()
        invariant
            i <= rows.len(),
            sink_models(ready@) == ready_rows(rows@.take(i as int)),
            refused@ == refused_rows(rows@.take(i as int)),
        decreases rows.len() - i,
    {
        proof {
            let next = rows@.take(i + 1);
            assert(next.drop_last() =~= rows@.take(i as int));
            assert(next.last() == rows@[i as int]);
        }
        let ghost before = sink_models(ready@);
        match sink_row(&rows[i]) {
            Ok(row) => {
                ready.push(row);
                assert(sink_models(ready@) =~= before.push(row@));
            },
            Err(e) => {
                refused.push(e);
            },
        }
        i += 1;
    }
    proof {
        assert(rows@.take(i as int) =~= rows@);
    }
    (ready, refused)
}

/// The texts of a list of columns.
pub open spec fn texts_of(columns: Seq<String>) -> Seq<Seq<char>> {
    Seq::new(columns.len(), |i: int| columns[i]@)
}

/// The twelve columns of a sink row in their fixed order, the two
/// timestamps in the notation that the caller chose.
pub open spec fn columns_model(row: SinkRowModel, min_text: Seq<char>, max_text: Seq<char>) -> Seq<
    Seq<char>,
> {
    seq![
        row.uuid,
        row.elem_type,
        row.prefix,
        row.start_ip,
        row.end_ip,
        row.as_path,
        row.asn,
        row.next_hop,
        row.peer_ip,
        min_text,
        max_text,
        decimal_text(row.count),
    ]
}

/// The columns joined by a separator.
pub open spec fn joined(columns: Seq<Seq<char>>, separator: Seq<char>) -> Seq<char>
    decreases columns.len(),
{
    if columns.len() == 0 {
        Seq::empty()
    } else if columns.len() == 1 {
        columns[0]
    } else {
        joined(columns.drop_last(), separator) + separator + columns.last()
    }
}

/// The separator between the columns of a line of a text file: a tab, a
/// bar and a tab.
pub open spec fn text_separator() -> Seq<char> {
    seq!['\t', '|', '\t']
}

impl SinkRow {
    /// Returns the twelve columns of the row in their fixed order. The texts
    /// of the two timestamps are the caller's.
    pub fn columns(&self, min_text: &str, max_text: &str) -> (out: Vec<String>)
        ensures
            texts_of(out@) == columns_model(self@, min_text@, max_text@),
    {
        let mut out: Vec<String> = Vec::new();
        out.push(self.uuid.clone());
        out.push(self.elem_type.clone());
        out.push(self.prefix.clone());
        out.push(self.start_ip.clone());
        out.push(self.end_ip.clone());
        out.push(self.as_path.clone());
        out.push(self.asn.clone());
        out.push(self.next_hop.clone());
        out.push(self.peer_ip.clone());
        out.push(String::from_str(min_text));
        out.push(String::from_str(max_text));
        out.push(decimal_of(self.count as u128));
        assert(texts_of(out@) =~= columns_model(self@, min_text@, max_text@));
        out
    }
}

/// What `csv` writes for one record of the given fields, its line end
/// included; `None` where its writer reports a failure.
pub uninterp spec fn csv_record_of(fields: Seq<Seq<char>>) -> Option<Seq<char>>;

/// Has a `csv::Writer` over a byte vector write the fields with
/// `write_record`, and takes the bytes out with `into_inner`. The text is
/// taken to depend on the fields alone; nothing else is claimed of it.
#[verifier::external_body]
fn csv_encode(fields: &Vec<String>) -> (line: Option<String>)
    ensures
        match line {
            Some(text) => csv_record_of(texts_of(fields@)) == Some(text@),
            None => csv_record_of(texts_of(fields@)).is_none(),
        },
{
    let mut writer = csv::Writer::from_writer(Vec::new());
    writer.write_record(fields).ok()?;
    let bytes = writer.into_inner().ok()?;
    String::from_utf8(bytes).ok()
}

impl SinkRow {
    /// Returns the row as one record of a comma-separated file, its twelve
    /// columns in their fixed order.
    pub fn csv_line(&self, min_text: &str, max_text: &str) -> (line: Option<String>)
        ensures
            match line {
                Some(text) => csv_record_of(columns_model(self@, min_text@, max_text@)) == Some(
                    text@,
                ),
                None => csv_record_of(columns_model(self@, min_text@, max_text@)).is_none(),
            },
    {
        let fields = self.columns(min_text, max_text);
        csv_encode(&fields)
    }
}

/// Returns one line of a text file: the columns with a tab, a bar and a tab
/// between each two.
pub fn text_line(columns: &Vec<String>) -> (line: String)
    ensures
        line@ == joined(texts_of(columns@), text_separator()),
{
    proof {
        reveal_strlit("\t|\t");
    }
    assert("\t|\t"@ =~= text_separator());
    let mut line = String::new();
    let mut i: usize = 0;
    while i < columns.len()
        invariant
            i <= columns.len(),
            "\t|\t"@ == text_separator(),
            line@ == joined(texts_of(columns@).take(i as int), text_separator()),
        decreases columns.len() - i,
    {
        proof {
            let next = texts_of(columns@).take(i + 1);
            assert(next.drop_last() =~= texts_of(columns@).take(i as int));
            assert(next.last() == columns@[i as int]@);
            if i == 0 {
                assert(next[0] == columns@[0]@);
                assert(Seq::<char>::empty() + columns@[0]@ =~= columns@[0]@);
            }
        }
        if i > 0 {
            line.append("\t|\t");
        }
        line.append(columns[i].as_str());
        i += 1;
    }
    proof {
        assert(texts_of(columns@).take(i as int) =~= texts_of(columns@));
    }
    line
}

} // verus!
