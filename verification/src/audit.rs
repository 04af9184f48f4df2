//! Tamper-evident audit log core: each record's hash is the SHA-256 of the
//! previous record's hash followed by a canonical JSON rendering of the
//! event, so any change to a stored event, and any reordering or removal of
//! records, makes recomputation disagree with the stored chain.

use vstd::prelude::*;
use vstd::utf8::encode_utf8;

use crate::crypto::{b64_decode, b64_encode, b64_of, sha256, sha256_of};
use crate::strutil::{hex_digit, push_bytes};

verus! {

/// One audited event, as submitted by a service. `detail`, when present, is
/// a pre-rendered JSON value.
#[derive(Debug, Clone, PartialEq, Eq)]
pub struct AuditEvent {
    pub actor: String,
    pub role: String,
    pub action: String,
    pub resource: String,
    pub outcome: String,
    pub detail: Option<String>,
}

/// Model of an [`AuditEvent`]: every field as the bytes it is written with.
pub struct AuditEventV {
    pub actor: Seq<u8>,
    pub role: Seq<u8>,
    pub action: Seq<u8>,
    pub resource: Seq<u8>,
    pub outcome: Seq<u8>,
    pub detail: Option<Seq<u8>>,
}

impl View for AuditEvent {
    type V = AuditEventV;

    open spec fn view(&self) -> AuditEventV {
        AuditEventV {
            actor: encode_utf8(self.actor@),
            role: encode_utf8(self.role@),
            action: encode_utf8(self.action@),
            resource: encode_utf8(self.resource@),
            outcome: encode_utf8(self.outcome@),
            detail: match self.detail {
                Some(ref d) => Some(encode_utf8(d@)),
                None => None,
            },
        }
    }
}

impl AuditEvent {
    /// An event with no detail.
    pub fn new(
        actor: String,
        role: String,
        action: String,
        resource: String,
        outcome: String,
    ) -> (r: AuditEvent)
        ensures
            r@.actor == encode_utf8(actor@),
            r@.role == encode_utf8(role@),
            r@.action == encode_utf8(action@),
            r@.resource == encode_utf8(resource@),
            r@.outcome == encode_utf8(outcome@),
            r@.detail is None,
    {
        AuditEvent { actor, role, action, resource, outcome, detail: None }
    }

    /// This event with a detail payload attached.
    pub fn with_detail(self, detail: String) -> (r: AuditEvent)
        ensures
            r@ == (AuditEventV { detail: Some(encode_utf8(detail@)), ..self@ }),
    {
        AuditEvent { detail: Some(detail), ..self }
    }

    /// A field-by-field copy.
    pub fn duplicate(&self) -> (r: AuditEvent)
        ensures
            r@ == self@,
    {
        AuditEvent {
            actor: self.actor.clone(),
            role: self.role.clone(),
            action: self.action.clone(),
            resource: self.resource.clone(),
            outcome: self.outcome.clone(),
            detail: match &self.detail {
                Some(d) => Some(d.clone()),
                None => None,
            },
        }
    }

    /// This event with the outcome replaced.
    pub fn with_outcome(self, outcome: String) -> (r: AuditEvent)
        ensures
            r@ == (AuditEventV { outcome: encode_utf8(outcome@), ..self@ }),
    {
        AuditEvent { outcome, ..self }
    }
}

/// How one byte is written inside a JSON string.
pub open spec fn json_escaped_byte(b: u8) -> Seq<u8> {
    if b == 34 {
        seq![92u8, 34u8]
    } else if b == 92 {
        seq![92u8, 92u8]
    } else if b == 8 {
        seq![92u8, 98u8]
    } else if b == 12 {
        seq![92u8, 102u8]
    } else if b == 10 {
        seq![92u8, 110u8]
    } else if b == 13 {
        seq![92u8, 114u8]
    } else if b == 9 {
        seq![92u8, 116u8]
    } else if b < 32 {
        seq![92u8, 117u8, 48u8, 48u8, hex_digit(b / 16), hex_digit(b % 16)]
    } else {
        seq![b]
    }
}

/// The JSON escaping of a byte string.
pub open spec fn json_escape(s: Seq<u8>) -> Seq<u8>
    decreases s.len(),
{
    if s.len() == 0 {
        Seq::empty()
    } else {
        json_escaped_byte(s[0]) + json_escape(s.skip(1))
    }
}

proof fn lemma_json_escape_take(s: Seq<u8>, i: int)
    requires
        0 <= i < s.len(),
    ensures
        json_escape(s.take(i + 1)) =~= json_escape(s.take(i)) + json_escaped_byte(s[i]),
    decreases i,
{
    if i == 0 {
        assert(s.take(1) =~= seq![s[0]]);
        assert(seq![s[0]].skip(1) =~= Seq::<u8>::empty());
        assert(json_escape(Seq::<u8>::empty()) =~= Seq::<u8>::empty());
        assert(s.take(0) =~= Seq::<u8>::empty());
    } else {
        assert(s.take(i + 1).skip(1) =~= s.skip(1).take(i));
        assert(s.take(i).skip(1) =~= s.skip(1).take(i - 1));
        lemma_json_escape_take(s.skip(1), i - 1);
        assert(s.skip(1)[i - 1] == s[i]);
    }
}

/// Append the JSON escaping of `s` to `out`.
pub fn push_json_escaped(out: &mut Vec<u8>, s: &[u8])
    ensures
        final(out)@ == old(out)@ + json_escape(s@),
{
    let mut i: usize = 0;
    assert(json_escape(s@.take(0)) =~= Seq::<u8>::empty());
    assert(out@ =~= old(out)@ + json_escape(s@.take(0)));
    while i < s.len()
        invariant
            i <= s@.len(),
            out@ == old(out)@ + json_escape(s@.take(i as int)),
        decreases s@.len() - i,
    {
        let b = s[i];
        if b == 34 {
            out.push(92);
            out.push(34);
        } else if b == 92 {
            out.push(92);
            out.push(92);
        } else if b == 8 {
            out.push(92);
            out.push(98);
        } else if b == 12 {
            out.push(92);
            out.push(102);
        } else if b == 10 {
            out.push(92);
            out.push(110);
        } else if b == 13 {
            out.push(92);
            out.push(114);
        } else if b == 9 {
            out.push(92);
            out.push(116);
        } else if b < 32 {
            out.push(92);
            out.push(117);
            out.push(48);
            out.push(48);
            let hi = b / 16;
            let lo = b % 16;
            out.push(if hi < 10 { 48 + hi } else { 87 + hi });
            out.push(if lo < 10 { 48 + lo } else { 87 + lo });
        } else {
            out.push(b);
        }
        proof {
            lemma_json_escape_take(s@, i as int);
        }
        assert(out@ =~= old(out)@ + json_escape(s@.take(i as int + 1)));
        i = i + 1;
    }
    assert(s@.take(s@.len() as int) =~= s@);
}

/// The canonical bytes of an event: one fixed-order JSON object. The chain
/// hash is computed over exactly these bytes, and hydration recomputes them
/// the same way.
pub open spec fn canon_event_bytes(e: AuditEventV) -> Seq<u8> {
    encode_utf8("{\"actor\":\""@) + json_escape(e.actor) + encode_utf8("\",\"role\":\""@)
        + json_escape(e.role) + encode_utf8("\",\"action\":\""@) + json_escape(e.action)
        + encode_utf8("\",\"resource\":\""@) + json_escape(e.resource) + encode_utf8(
        "\",\"outcome\":\""@,
    ) + json_escape(e.outcome) + (match e.detail {
        Some(d) => encode_utf8("\",\"detail\":"@) + d + encode_utf8("}"@),
        None => encode_utf8("\"}"@),
    })
}

/// Render the canonical bytes of an event.
pub fn canonical_event_bytes(e: &AuditEvent) -> (r: Vec<u8>)
    ensures
        r@ == canon_event_bytes(e@),
{
    let mut out: Vec<u8> = Vec::new();
    push_bytes(&mut out, "{\"actor\":\"".as_bytes());
    push_json_escaped(&mut out, e.actor.as_str().as_bytes());
    push_bytes(&mut out, "\",\"role\":\"".as_bytes());
    push_json_escaped(&mut out, e.role.as_str().as_bytes());
    push_bytes(&mut out, "\",\"action\":\"".as_bytes());
    push_json_escaped(&mut out, e.action.as_str().as_bytes());
    push_bytes(&mut out, "\",\"resource\":\"".as_bytes());
    push_json_escaped(&mut out, e.resource.as_str().as_bytes());
    push_bytes(&mut out, "\",\"outcome\":\"".as_bytes());
    push_json_escaped(&mut out, e.outcome.as_str().as_bytes());
    match &e.detail {
        Some(d) => {
            push_bytes(&mut out, "\",\"detail\":".as_bytes());
            push_bytes(&mut out, d.as_str().as_bytes());
            push_bytes(&mut out, "}".as_bytes());
        },
        None => {
            push_bytes(&mut out, "\"}".as_bytes());
        },
    }
    assert(out@ =~= canon_event_bytes(e@));
    out
}

/// One stored audit record: a timestamp, the previous record's hash and this
/// record's hash (both base64), and the event itself.
#[derive(Debug, Clone, PartialEq, Eq)]
pub struct AuditRecord {
    pub timestamp: String,
    pub prev_hash: String,
    pub hash: String,
    pub event: AuditEvent,
}

/// Model of an [`AuditRecord`].
pub struct AuditRecordV {
    pub timestamp: Seq<char>,
    pub prev_hash: Seq<char>,
    pub hash: Seq<char>,
    pub event: AuditEventV,
}

impl View for AuditRecord {
    type V = AuditRecordV;

    open spec fn view(&self) -> AuditRecordV {
        AuditRecordV {
            timestamp: self.timestamp@,
            prev_hash: self.prev_hash@,
            hash: self.hash@,
            event: self.event@,
        }
    }
}

/// Why the audit store rejects input.
#[derive(Debug, Clone, PartialEq, Eq)]
pub enum AuditError {
    /// An I/O failure outside this library's control.
    Io(String),
    /// A stored record does not parse or decode.
    Malformed,
}

/// The writer's in-memory state: the hash to chain the next record to.
#[derive(Debug, Clone, PartialEq, Eq)]
pub struct AuditWriter {
    pub prev_hash: Vec<u8>,
}

/// The 32 zero bytes the chain starts from.
pub open spec fn zero_hash() -> Seq<u8> {
    Seq::new(32, |i: int| 0u8)
}

impl AuditWriter {
    /// Chain state well-formedness: the carried hash is 32 bytes.
    pub open spec fn wf(self) -> bool {
        self.prev_hash@.len() == 32
    }

    /// A fresh chain, starting from 32 zero bytes.
    pub fn new() -> (r: AuditWriter)
        ensures
            r.wf(),
            r.prev_hash@ == zero_hash(),
    {
        let mut prev_hash: Vec<u8> = Vec::new();
        let mut i: usize = 0;
        while i < 32
            invariant
                i <= 32,
                prev_hash@ =~= Seq::new(i as nat, |j: int| 0u8),
            decreases 32 - i,
        {
            prev_hash.push(0);
            assert(prev_hash@ =~= Seq::new(i as nat + 1, |j: int| 0u8));
            i = i + 1;
        }
        AuditWriter { prev_hash }
    }

    /// Resume a chain from already-stored records: the hash to carry is the
    /// decoded `hash` of the last record, or 32 zero bytes with no records.
    /// A `hash` field that is not canonical base64 is malformed.
    pub fn hydrate(records: &Vec<AuditRecord>) -> (r: Result<AuditWriter, AuditError>)
        ensures
            match r {
                Ok(w) => {
                    &&& records@.len() == 0 ==> w.prev_hash@ == zero_hash()
                    &&& records@.len() > 0 ==> records@.last()@.hash == b64_of(w.prev_hash@)
                },
                Err(e) => e is Malformed,
            },
    {
        if records.len() == 0 {
            return Ok(AuditWriter::new());
        }
        let last = &records[records.len() - 1];
        match b64_decode(last.hash.as_str()) {
            Ok(prev_hash) => Ok(AuditWriter { prev_hash }),
            Err(()) => Err(AuditError::Malformed),
        }
    }

    /// Append one event: the new record's hash is the SHA-256 of the carried
    /// hash followed by the event's canonical bytes, and becomes the carried
    /// hash for the next append.
    pub fn append(&mut self, event: AuditEvent, timestamp: String) -> (r: AuditRecord)
        ensures
            r@.timestamp == timestamp@,
            r@.prev_hash == b64_of(old(self).prev_hash@),
            r@.hash == b64_of(sha256_of(old(self).prev_hash@ + canon_event_bytes(event@))),
            r@.event == event@,
            final(self).prev_hash@ == sha256_of(old(self).prev_hash@ + canon_event_bytes(event@)),
            final(self).wf(),
    {
        let mut message: Vec<u8> = Vec::new();
        push_bytes(&mut message, self.prev_hash.as_slice());
        let canon = canonical_event_bytes(&event);
        push_bytes(&mut message, canon.as_slice());
        assert(message@ =~= self.prev_hash@ + canon_event_bytes(event@));
        let hash = sha256(message.as_slice());
        let record = AuditRecord {
            timestamp,
            prev_hash: b64_encode(self.prev_hash.as_slice()),
            hash: b64_encode(hash.as_slice()),
            event,
        };
        self.prev_hash = hash;
        record
    }
}

/// Whether record `i` is consistent with a recomputation whose carried hash
/// is `prev`: its stored fields are the base64 of `prev` and of the
/// recomputed hash.
pub open spec fn record_consistent(r: AuditRecordV, prev: Seq<u8>) -> bool {
    r.prev_hash == b64_of(prev) && r.hash == b64_of(next_hash(prev, r.event))
}

/// The recomputed hash of a record chained to `prev`.
pub open spec fn next_hash(prev: Seq<u8>, e: AuditEventV) -> Seq<u8> {
    sha256_of(prev + canon_event_bytes(e))
}

/// The views of a sequence of records.
pub open spec fn records_view(rs: Seq<AuditRecord>) -> Seq<AuditRecordV> {
    rs.map_values(|r: AuditRecord| r@)
}

/// The first index (from `i`, with carried hash `prev`) at which the stored
/// chain disagrees with recomputation, if any.
pub open spec fn spec_first_tampered(rs: Seq<AuditRecordV>, prev: Seq<u8>, i: int) -> Option<int>
    decreases rs.len() - i,
{
    if i < 0 || i >= rs.len() {
        None
    } else if !record_consistent(rs[i], prev) {
        Some(i)
    } else {
        spec_first_tampered(rs, next_hash(prev, rs[i].event), i + 1)
    }
}

/// Recompute the whole chain from 32 zero bytes and return the first index
/// whose stored record disagrees, or `None` when the chain verifies.
pub fn verify_chain(records: &Vec<AuditRecord>) -> (r: Option<usize>)
    ensures
        match r {
            Some(i) => spec_first_tampered(records_view(records@), zero_hash(), 0) == Some(
                i as int,
            ),
            None => spec_first_tampered(records_view(records@), zero_hash(), 0) is None,
        },
{
    let mut writer = AuditWriter::new();
    let mut i: usize = 0;
    while i < records.len()
        invariant
            i <= records@.len(),
            writer.wf(),
            spec_first_tampered(records_view(records@), zero_hash(), 0) == spec_first_tampered(
                records_view(records@),
                writer.prev_hash@,
                i as int,
            ),
        decreases records@.len() - i,
    {
        let rec = &records[i];
        assert(rec@ == records_view(records@)[i as int]);
        let expected_prev = b64_encode(writer.prev_hash.as_slice());
        let ghost old_prev = writer.prev_hash@;
        let computed = writer.append(rec.event.duplicate(), rec.timestamp.clone());
        if !strings_equal(&rec.prev_hash, &expected_prev) || !strings_equal(
            &rec.hash,
            &computed.hash,
        ) {
            assert(!record_consistent(records_view(records@)[i as int], old_prev));
            return Some(i);
        }
        assert(record_consistent(records_view(records@)[i as int], old_prev));
        i = i + 1;
    }
    None
}

/// String equality by view.
pub fn strings_equal_pub(a: &String, b: &String) -> (r: bool)
    ensures
        r == (a@ == b@),
{
    strings_equal(a, b)
}

/// String equality by view.
fn strings_equal(a: &String, b: &String) -> (r: bool)
    ensures
        r == (a@ == b@),
{
    let r = crate::strutil::bytes_eq(a.as_str().as_bytes(), b.as_str().as_bytes());
    proof {
        vstd::utf8::encode_utf8_decode_utf8(a@);
        vstd::utf8::encode_utf8_decode_utf8(b@);
    }
    r
}

/// A chain written by successive appends verifies clean, and flipping the
/// stored hash of any one record makes verification fail at that record or
/// earlier: the first divergence is reported at or before the altered index.
pub proof fn lemma_tamper_detected(
    rs: Seq<AuditRecordV>,
    rs2: Seq<AuditRecordV>,
    prev: Seq<u8>,
    k: int,
)
    requires
        spec_first_tampered(rs, prev, 0) is None,
        rs2.len() == rs.len(),
        0 <= k < rs.len(),
        forall|j: int| 0 <= j < k ==> rs2[j] == rs[j],
        rs2[k].event == rs[k].event,
        rs2[k].hash != rs[k].hash || rs2[k].prev_hash != rs[k].prev_hash,
    ensures
        spec_first_tampered(rs2, prev, 0) == Some(k),
{
    lemma_tamper_detected_from(rs, rs2, prev, 0, k);
}

proof fn lemma_tamper_detected_from(
    rs: Seq<AuditRecordV>,
    rs2: Seq<AuditRecordV>,
    prev: Seq<u8>,
    i: int,
    k: int,
)
    requires
        spec_first_tampered(rs, prev, i) is None,
        rs2.len() == rs.len(),
        0 <= i <= k < rs.len(),
        forall|j: int| i <= j < k ==> rs2[j] == rs[j],
        rs2[k].event == rs[k].event,
        rs2[k].hash != rs[k].hash || rs2[k].prev_hash != rs[k].prev_hash,
    ensures
        spec_first_tampered(rs2, prev, i) == Some(k),
    decreases k - i,
{
    if i < k {
        lemma_tamper_detected_from(rs, rs2, next_hash(prev, rs[i].event), i + 1, k);
    }
}

} // verus!
