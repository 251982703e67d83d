//! The destinations that a caller can choose, by name.

use vstd::prelude::*;
use vstd::string::StringExecFns;

verus! {

/// A destination for finalized rows.
#[derive(Clone, Copy, Debug, PartialEq, Eq, Structural)]
pub enum SinkKind {
    /// One JSON object per row on a stream.
    StdoutJsonl,
    /// A table of a relational store, merged into by identity.
    RelationalUpsert,
    /// A table of an embedded store, merged into by identity.
    EmbeddedUpsert,
    /// A file of comma-separated records.
    CsvFile,
    /// A file of lines with a tab, a bar and a tab between the columns.
    TextFile,
}

/// Why a configuration was refused.
#[derive(Clone, Copy, Debug, PartialEq, Eq, Structural)]
pub enum ConfigError {
    /// The name stands for no destination.
    UnknownSink,
}

impl SinkKind {
    /// The name by which the destination is chosen.
    pub open spec fn name_model(self) -> Seq<char> {
        match self {
            SinkKind::StdoutJsonl => "stdout-jsonl"@,
            SinkKind::RelationalUpsert => "relational-upsert"@,
            SinkKind::EmbeddedUpsert => "embedded-upsert"@,
            SinkKind::CsvFile => "csv-file"@,
            SinkKind::TextFile => "text-file"@,
        }
    }

    /// The destination keeps rows from one run to the next, so that a batch
    /// is merged into what it holds.
    pub open spec fn keeps_rows(self) -> bool {
        self == SinkKind::RelationalUpsert || self == SinkKind::EmbeddedUpsert
    }

    /// Returns the name by which the destination is chosen.
    pub fn name(self) -> (s: String)
        ensures
            s@ == self.name_model(),
    {
        match self {
            SinkKind::StdoutJsonl => String::from_str("stdout-jsonl"),
            SinkKind::RelationalUpsert => String::from_str("relational-upsert"),
            SinkKind::EmbeddedUpsert => String::from_str("embedded-upsert"),
            SinkKind::CsvFile => String::from_str("csv-file"),
            SinkKind::TextFile => String::from_str("text-file"),
        }
    }

    /// Tells whether a batch is merged into rows that the destination
    /// already holds, rather than written out row by row.
    pub fn retains_state(self) -> (b: bool)
        ensures
            b == self.keeps_rows(),
    {
        match self {
            SinkKind::RelationalUpsert => true,
            SinkKind::EmbeddedUpsert => true,
            _ => false,
        }
    }
}

/// The destination of a name, if it has one.
pub open spec fn sink_named(name: Seq<char>) -> Option<SinkKind> {
    if name == SinkKind::StdoutJsonl.name_model() {
        Some(SinkKind::StdoutJsonl)
    } else if name == SinkKind::RelationalUpsert.name_model() {
        Some(SinkKind::RelationalUpsert)
    } else if name == SinkKind::EmbeddedUpsert.name_model() {
        Some(SinkKind::EmbeddedUpsert)
    } else if name == SinkKind::CsvFile.name_model() {
        Some(SinkKind::CsvFile)
    } else if name == SinkKind::TextFile.name_model() {
        Some(SinkKind::TextFile)
    } else {
        None
    }
}

/// Reads the name of a destination; any other text is refused.
pub fn parse_sink(name: &str) -> (kind: Result<SinkKind, ConfigError>)
    ensures
        kind == match sink_named(name@) {
            Some(k) => Ok::<SinkKind, ConfigError>(k),
            None => Err::<SinkKind, ConfigError>(ConfigError::UnknownSink),
        },
{
    let given = String::from_str(name);
    if given == SinkKind::StdoutJsonl.name() {
        Ok(SinkKind::StdoutJsonl)
    } else if given == SinkKind::RelationalUpsert.name() {
        Ok(SinkKind::RelationalUpsert)
    } else if given == SinkKind::EmbeddedUpsert.name() {
        Ok(SinkKind::EmbeddedUpsert)
    } else if given == SinkKind::CsvFile.name() {
        Ok(SinkKind::CsvFile)
    } else if given == SinkKind::TextFile.name() {
        Ok(SinkKind::TextFile)
    } else {
        Err(ConfigError::UnknownSink)
    }
}

/// Every destination is found again under its own name.
pub proof fn sink_is_found_by_its_name(kind: SinkKind)
    ensures
        sink_named(kind.name_model()) == Some(kind),
{
    reveal_strlit("stdout-jsonl");
    reveal_strlit("relational-upsert");
    reveal_strlit("embedded-upsert");
    reveal_strlit("csv-file");
    reveal_strlit("text-file");
    assert("stdout-jsonl"@.len() == 12);
    assert("relational-upsert"@.len() == 17);
    assert("embedded-upsert"@.len() == 15);
    assert("csv-file"@.len() == 8);
    assert("text-file"@.len() == 9);
}

} // verus!
