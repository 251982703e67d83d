//! Raw routing-update records and the canonical key that groups them.

use vstd::prelude::*;
use vstd::string::StringExecFns;
use crate::timestamp::Timestamp;

verus! {

/// The kind of a routing update.
#[derive(Clone, Copy, Debug, PartialEq, Eq, Structural)]
pub enum ElemKind {
    Announce,
    Withdraw,
}

impl ElemKind {
    /// The textual name of the kind.
    pub open spec fn name_model(self) -> Seq<char> {
        match self {
            ElemKind::Announce => "ANNOUNCE"@,
            ElemKind::Withdraw => "WITHDRAW"@,
        }
    }

    /// Returns the textual name of the kind.
    pub fn name(self) -> (s: String)
        ensures
            s@ == self.name_model(),
    {
        match self {
            ElemKind::Announce => String::from_str("ANNOUNCE"),
            ElemKind::Withdraw => String::from_str("WITHDRAW"),
        }
    }
}

/// The five texts of a canonical key, as mathematical sequences.
pub struct KeyModel {
    pub elem_type: Seq<char>,
    pub prefix: Seq<char>,
    pub as_path: Seq<char>,
    pub next_hop: Seq<char>,
    pub peer_ip: Seq<char>,
}

/// The text of an optional field: absent and empty are the same.
pub open spec fn text_or_empty(field: Option<String>) -> Seq<char> {
    match field {
        Some(s) => s@,
        None => Seq::empty(),
    }
}

/// One routing update as it was observed.
#[derive(Debug)]
pub struct RawRecord {
    pub kind: ElemKind,
    pub prefix: String,
    pub as_path: Option<String>,
    pub next_hop: Option<String>,
    pub peer_ip: String,
    pub timestamp: Timestamp,
}

impl RawRecord {
    /// The key of the record's route-event shape; the timestamp plays no part.
    pub open spec fn key_model(&self) -> KeyModel {
        KeyModel {
            elem_type: self.kind.name_model(),
            prefix: self.prefix@,
            as_path: text_or_empty(self.as_path),
            next_hop: text_or_empty(self.next_hop),
            peer_ip: self.peer_ip@,
        }
    }
}

/// The normalized tuple that stands for a route-event shape.
#[derive(Debug)]
pub struct CanonicalKey {
    pub elem_type: String,
    pub prefix: String,
    pub as_path: String,
    pub next_hop: String,
    pub peer_ip: String,
}

impl View for CanonicalKey {
    type V = KeyModel;

    open spec fn view(&self) -> KeyModel {
        KeyModel {
            elem_type: self.elem_type@,
            prefix: self.prefix@,
            as_path: self.as_path@,
            next_hop: self.next_hop@,
            peer_ip: self.peer_ip@,
        }
    }
}

/// The delimiter between the fields of the canonical string form.
pub open spec fn delimiter() -> Seq<char> {
    seq!['|']
}

/// The canonical string form of a key: its five fields in fixed order,
/// joined by the delimiter.
pub open spec fn canonical_text(k: KeyModel) -> Seq<char> {
    k.elem_type + delimiter() + k.prefix + delimiter() + k.as_path + delimiter() + k.next_hop
        + delimiter() + k.peer_ip
}

fn owned_or_empty(field: &Option<String>) -> (s: String)
    ensures
        s@ == text_or_empty(*field),
{
    match field {
        Some(text) => text.clone(),
        None => String::new(),
    }
}

/// Derives the canonical key of a raw record. An absent AS path or next hop
/// becomes the empty text.
pub fn normalize(raw: &RawRecord) -> (key: CanonicalKey)
    ensures
        key@ == raw.key_model(),
{
    CanonicalKey {
        elem_type: raw.kind.name(),
        prefix: raw.prefix.clone(),
        as_path: owned_or_empty(&raw.as_path),
        next_hop: owned_or_empty(&raw.next_hop),
        peer_ip: raw.peer_ip.clone(),
    }
}

impl CanonicalKey {
    /// Builds a key from its five fields.
    pub fn new(
        elem_type: String,
        prefix: String,
        as_path: String,
        next_hop: String,
        peer_ip: String,
    ) -> (key: CanonicalKey)
        ensures
            key.elem_type == elem_type,
            key.prefix == prefix,
            key.as_path == as_path,
            key.next_hop == next_hop,
            key.peer_ip == peer_ip,
    {
        CanonicalKey { elem_type, prefix, as_path, next_hop, peer_ip }
    }

    /// Returns a copy of the key with the same five texts.
    pub fn duplicate(&self) -> (key: CanonicalKey)
        ensures
            key@ == self@,
    {
        CanonicalKey {
            elem_type: self.elem_type.clone(),
            prefix: self.prefix.clone(),
            as_path: self.as_path.clone(),
            next_hop: self.next_hop.clone(),
            peer_ip: self.peer_ip.clone(),
        }
    }

    /// Tells whether two keys hold the same five texts.
    pub fn same_as(&self, other: &CanonicalKey) -> (same: bool)
        ensures
            same == (self@ == other@),
    {
        self.elem_type == other.elem_type && self.prefix == other.prefix && self.as_path
            == other.as_path && self.next_hop == other.next_hop && self.peer_ip == other.peer_ip
    }

    /// Returns the canonical string form of the key.
    pub fn canonical_string(&self) -> (s: String)
        ensures
            s@ == canonical_text(self@),
    {
        proof {
            reveal_strlit("|");
        }
        assert("|"@ =~= delimiter());
        let mut s = self.elem_type.clone();
        s.append("|");
        s.append(self.prefix.as_str());
        s.append("|");
        s.append(self.as_path.as_str());
        s.append("|");
        s.append(self.next_hop.as_str());
        s.append("|");
        s.append(self.peer_ip.as_str());
        s
    }
}

/// Records that differ only in their timestamps have the same key.
pub proof fn key_ignores_timestamp(a: RawRecord, b: RawRecord)
    requires
        a.kind == b.kind,
        a.prefix@ == b.prefix@,
        text_or_empty(a.as_path) == text_or_empty(b.as_path),
        text_or_empty(a.next_hop) == text_or_empty(b.next_hop),
        a.peer_ip@ == b.peer_ip@,
    ensures
        a.key_model() == b.key_model(),
{
}

/// A record without an AS path and one whose AS path is the empty text, alike
/// in all else, have the same key.
pub proof fn absent_path_is_empty_path(a: RawRecord, b: RawRecord)
    requires
        a.as_path.is_none(),
        b.as_path.is_some(),
        b.as_path.unwrap()@.len() == 0,
        a.kind == b.kind,
        a.prefix@ == b.prefix@,
        text_or_empty(a.next_hop) == text_or_empty(b.next_hop),
        a.peer_ip@ == b.peer_ip@,
    ensures
        a.key_model() == b.key_model(),
{
    assert(b.as_path.unwrap()@ =~= Seq::<char>::empty());
}

} // verus!
