//! FFI mode: binding manifest callback fields to trampoline slots, the
//! lines callbacks produce, how each stdin op maps onto a lane or op
//! symbol, and the shutdown grace arithmetic.
//!
//! The callback table handed to the runtime's start symbol has one entry
//! per manifest field; each entry is the trampoline of the field's kind at
//! the next free index of that kind, and the slot at that index remembers
//! which field it serves.

use vstd::prelude::*;
use vstd::utf8::encode_utf8;

use crate::hex::{hex_encode_spec, hex_lower};
use crate::manifest::{CallbackField, CallbackKind, Manifest, OpKind, MAX_CALLBACK_FIELDS};
use crate::output::{
    caused_error_line, error, error_caused, error_line, Detail, DetailV, Line, LineV, Message,
    MessageV, Outbox, RcOp,
};
use crate::text::{
    is_json_text, json_or_raw, json_or_raw_spec, lossy_utf8, session_id, session_id_spec,
};

verus! {

/// Maximum bytes accepted in a stdin `send` payload.
pub const MAX_PAYLOAD_BYTES: usize = 8 * 1024 * 1024;

/// What a trampoline knows about the callback field it serves.
pub struct Slot {
    /// The manifest field name, used to label events.
    pub field: String,
    /// Whether callback events are suppressed.
    pub no_events: bool,
}

/// [`Slot`] with its name taken by its characters.
pub struct SlotV {
    pub field: Seq<char>,
    pub no_events: bool,
}

impl View for Slot {
    type V = SlotV;

    open spec fn view(&self) -> SlotV {
        SlotV { field: self.field@, no_events: self.no_events }
    }
}

/// The view of an optional slot.
pub open spec fn opt_slot(s: Option<Slot>) -> Option<SlotV> {
    match s {
        Some(x) => Some(x@),
        None => None,
    }
}

/// The three trampoline slot tables, one per callback kind, each with one
/// slot per possible field position.
pub struct CallbackSlots {
    json: Vec<Option<Slot>>,
    json_with_sid: Vec<Option<Slot>>,
    raw_with_seq: Vec<Option<Slot>>,
}

impl CallbackSlots {
    /// The `json` slots.
    pub closed spec fn json_view(&self) -> Seq<Option<SlotV>> {
        self.json@.map_values(|s: Option<Slot>| opt_slot(s))
    }

    /// The `json_with_sid` slots.
    pub closed spec fn json_with_sid_view(&self) -> Seq<Option<SlotV>> {
        self.json_with_sid@.map_values(|s: Option<Slot>| opt_slot(s))
    }

    /// The `raw_with_seq` slots.
    pub closed spec fn raw_with_seq_view(&self) -> Seq<Option<SlotV>> {
        self.raw_with_seq@.map_values(|s: Option<Slot>| opt_slot(s))
    }

    /// The slots of one kind.
    pub open spec fn slots_of(&self, kind: CallbackKind) -> Seq<Option<SlotV>> {
        match kind {
            CallbackKind::Json => self.json_view(),
            CallbackKind::JsonWithSid => self.json_with_sid_view(),
            CallbackKind::RawWithSeq => self.raw_with_seq_view(),
        }
    }

    /// Every bound slot, of every kind, suppresses callback events.
    pub open spec fn events_suppressed(&self) -> bool {
        forall|k: CallbackKind, i: int|
            0 <= i < MAX_CALLBACK_FIELDS ==> (#[trigger] self.slots_of(k)[i] matches Some(s)
                ==> s.no_events)
    }

    /// Every table has one slot per possible field position.
    pub open spec fn wf(&self) -> bool {
        &&& self.json_view().len() == MAX_CALLBACK_FIELDS
        &&& self.json_with_sid_view().len() == MAX_CALLBACK_FIELDS
        &&& self.raw_with_seq_view().len() == MAX_CALLBACK_FIELDS
    }

    /// Tables with every slot empty.
    pub fn new() -> (r: CallbackSlots)
        ensures
            r.wf(),
            forall|k: CallbackKind, i: int|
                0 <= i < MAX_CALLBACK_FIELDS ==> (#[trigger] r.slots_of(k)[i]) is None,
            r.events_suppressed(),
    {
        let mut json: Vec<Option<Slot>> = Vec::new();
        let mut json_with_sid: Vec<Option<Slot>> = Vec::new();
        let mut raw_with_seq: Vec<Option<Slot>> = Vec::new();
        let mut i: usize = 0;
        while i < MAX_CALLBACK_FIELDS
            invariant
                i <= MAX_CALLBACK_FIELDS,
                json.len() == i,
                json_with_sid.len() == i,
                raw_with_seq.len() == i,
                forall|j: int| 0 <= j < i ==> json@[j] is None,
                forall|j: int| 0 <= j < i ==> json_with_sid@[j] is None,
                forall|j: int| 0 <= j < i ==> raw_with_seq@[j] is None,
            decreases MAX_CALLBACK_FIELDS - i,
        {
            json.push(None);
            json_with_sid.push(None);
            raw_with_seq.push(None);
            i = i + 1;
        }
        CallbackSlots { json, json_with_sid, raw_with_seq }
    }

    /// The slot of `kind` at `index`.
    pub fn get(&self, kind: CallbackKind, index: usize) -> (r: Option<&Slot>)
        requires
            self.wf(),
            index < MAX_CALLBACK_FIELDS,
        ensures
            match r {
                Some(s) => self.slots_of(kind)[index as int] == Some(s@),
                None => self.slots_of(kind)[index as int] is None,
            },
    {
        let s = match kind {
            CallbackKind::Json => &self.json[index],
            CallbackKind::JsonWithSid => &self.json_with_sid[index],
            CallbackKind::RawWithSeq => &self.raw_with_seq[index],
        };
        match s {
            Some(x) => Some(x),
            None => None,
        }
    }
}

/// Binds the `json` slot at `index` to `slot`.
pub fn bind_json_slot(slots: &mut CallbackSlots, index: usize, slot: Slot)
    requires
        old(slots).wf(),
        index < MAX_CALLBACK_FIELDS,
    ensures
        final(slots).wf(),
        final(slots).json_view() == old(slots).json_view().update(index as int, Some(slot@)),
        final(slots).json_with_sid_view() == old(slots).json_with_sid_view(),
        final(slots).raw_with_seq_view() == old(slots).raw_with_seq_view(),
{
    let ghost sv = slot@;
    slots.json.set(index, Some(slot));
    assert(slots.json_view() =~= old(slots).json_view().update(index as int, Some(sv)));
}

/// Binds the `json_with_sid` slot at `index` to `slot`.
pub fn bind_json_with_sid_slot(slots: &mut CallbackSlots, index: usize, slot: Slot)
    requires
        old(slots).wf(),
        index < MAX_CALLBACK_FIELDS,
    ensures
        final(slots).wf(),
        final(slots).json_with_sid_view() == old(slots).json_with_sid_view().update(
            index as int,
            Some(slot@),
        ),
        final(slots).json_view() == old(slots).json_view(),
        final(slots).raw_with_seq_view() == old(slots).raw_with_seq_view(),
{
    let ghost sv = slot@;
    slots.json_with_sid.set(index, Some(slot));
    assert(slots.json_with_sid_view() =~= old(slots).json_with_sid_view().update(
        index as int,
        Some(sv),
    ));
}

/// Binds the `raw_with_seq` slot at `index` to `slot`.
pub fn bind_raw_seq_slot(slots: &mut CallbackSlots, index: usize, slot: Slot)
    requires
        old(slots).wf(),
        index < MAX_CALLBACK_FIELDS,
    ensures
        final(slots).wf(),
        final(slots).raw_with_seq_view() == old(slots).raw_with_seq_view().update(
            index as int,
            Some(slot@),
        ),
        final(slots).json_view() == old(slots).json_view(),
        final(slots).json_with_sid_view() == old(slots).json_with_sid_view(),
{
    let ghost sv = slot@;
    slots.raw_with_seq.set(index, Some(slot));
    assert(slots.raw_with_seq_view() =~= old(slots).raw_with_seq_view().update(
        index as int,
        Some(sv),
    ));
}

/// A bound `json` slot reads back as bound; the other `json` slots and
/// the other tables keep what they held (likewise for the other kinds).
pub proof fn law_bind_then_read(
    before: CallbackSlots,
    after: CallbackSlots,
    index: int,
    slot: SlotV,
    other: int,
)
    requires
        before.wf(),
        0 <= index < MAX_CALLBACK_FIELDS,
        0 <= other < MAX_CALLBACK_FIELDS,
        other != index,
        after.json_view() == before.json_view().update(index, Some(slot)),
        after.json_with_sid_view() == before.json_with_sid_view(),
        after.raw_with_seq_view() == before.raw_with_seq_view(),
    ensures
        after.wf(),
        after.slots_of(CallbackKind::Json)[index] == Some(slot),
        after.slots_of(CallbackKind::Json)[other] == before.slots_of(CallbackKind::Json)[other],
        after.slots_of(CallbackKind::JsonWithSid) == before.slots_of(CallbackKind::JsonWithSid),
        after.slots_of(CallbackKind::RawWithSeq) == before.slots_of(CallbackKind::RawWithSeq),
{
}

/// How many of `kinds` are `k`.
pub open spec fn kind_count(kinds: Seq<CallbackKind>, k: CallbackKind) -> nat
    decreases kinds.len(),
{
    if kinds.len() == 0 {
        0
    } else {
        kind_count(kinds.drop_last(), k) + if kinds.last() == k {
            1nat
        } else {
            0nat
        }
    }
}

/// The kinds of the callback fields, in order.
pub open spec fn field_kinds(fields: Seq<CallbackField>) -> Seq<CallbackKind> {
    fields.map_values(|f: CallbackField| f.kind)
}

/// The trampoline index of field `i`: how many earlier fields share its kind.
pub open spec fn slot_index(kinds: Seq<CallbackKind>, i: int) -> nat {
    kind_count(kinds.take(i), kinds[i])
}

/// Where each callback field went: its kind and its trampoline index, in
/// field order, and how many fields each kind has.
#[derive(Debug, PartialEq)]
pub struct CallbackPlan {
    pub bindings: Vec<(CallbackKind, usize)>,
    pub json: usize,
    pub json_with_sid: usize,
    pub raw_with_seq: usize,
}

proof fn lemma_kind_count_le(kinds: Seq<CallbackKind>, k: CallbackKind)
    ensures
        kind_count(kinds, k) <= kinds.len(),
    decreases kinds.len(),
{
    if kinds.len() > 0 {
        lemma_kind_count_le(kinds.drop_last(), k);
    }
}

proof fn lemma_kind_count_step(kinds: Seq<CallbackKind>, i: int, k: CallbackKind)
    requires
        0 <= i < kinds.len(),
    ensures
        kind_count(kinds.take(i + 1), k) == kind_count(kinds.take(i), k) + if kinds[i] == k {
            1nat
        } else {
            0nat
        },
{
    assert(kinds.take(i + 1).drop_last() =~= kinds.take(i));
}

proof fn lemma_kind_count_mono(kinds: Seq<CallbackKind>, j: int, i: int, k: CallbackKind)
    requires
        0 <= j < i <= kinds.len(),
        kinds[j] == k,
    ensures
        kind_count(kinds.take(j), k) < kind_count(kinds.take(i), k),
    decreases i - j,
{
    lemma_kind_count_step(kinds, i - 1, k);
    if j < i - 1 {
        lemma_kind_count_mono(kinds, j, i - 1, k);
    }
}

/// Two fields of one kind get different trampoline indices, the earlier
/// field the smaller one, and every index stays below the number of fields
/// of that kind.
pub proof fn law_slot_indices_distinct(kinds: Seq<CallbackKind>, j: int, i: int)
    requires
        0 <= j < i < kinds.len(),
        kinds[j] == kinds[i],
    ensures
        slot_index(kinds, j) < slot_index(kinds, i),
        slot_index(kinds, i) < kind_count(kinds, kinds[i]),
        kind_count(kinds, kinds[i]) <= kinds.len(),
{
    lemma_kind_count_mono(kinds, j, i, kinds[i]);
    lemma_kind_count_mono(kinds, i, kinds.len() as int, kinds[i]);
    assert(kinds.take(kinds.len() as int) =~= kinds);
    lemma_kind_count_le(kinds, kinds[i]);
}

/// Binds every callback field to the next free slot of its kind.
pub fn bind_callbacks(slots: &mut CallbackSlots, fields: &Vec<CallbackField>, no_events: bool) -> (r:
    CallbackPlan)
    requires
        old(slots).wf(),
        fields@.len() <= MAX_CALLBACK_FIELDS,
    ensures
        final(slots).wf(),
        r.bindings@.len() == fields@.len(),
        r.json == kind_count(field_kinds(fields@), CallbackKind::Json),
        r.json_with_sid == kind_count(field_kinds(fields@), CallbackKind::JsonWithSid),
        r.raw_with_seq == kind_count(field_kinds(fields@), CallbackKind::RawWithSeq),
        forall|i: int|
            0 <= i < fields@.len() ==> {
                &&& (#[trigger] r.bindings@[i]).0 == fields@[i].kind
                &&& r.bindings@[i].1 == slot_index(field_kinds(fields@), i)
                &&& r.bindings@[i].1 < MAX_CALLBACK_FIELDS
                &&& final(slots).slots_of(fields@[i].kind)[r.bindings@[i].1 as int] == Some(
                    SlotV { field: fields@[i].name@, no_events },
                )
            },
        forall|k: CallbackKind, m: int|
            kind_count(field_kinds(fields@), k) <= m < MAX_CALLBACK_FIELDS
                ==> #[trigger] final(slots).slots_of(k)[m] == old(slots).slots_of(k)[m],
        forall|k: CallbackKind, m: int|
            0 <= m < kind_count(field_kinds(fields@), k) ==> (#[trigger] final(slots).slots_of(k)[m]
                matches Some(s) && s.no_events == no_events),
        no_events && old(slots).events_suppressed() ==> final(slots).events_suppressed(),
{
    let ghost kinds = field_kinds(fields@);
    let mut bindings: Vec<(CallbackKind, usize)> = Vec::new();
    let mut json_idx: usize = 0;
    let mut json_sid_idx: usize = 0;
    let mut raw_seq_idx: usize = 0;
    let mut i: usize = 0;
    while i < fields.len()
        invariant
            kinds == field_kinds(fields@),
            fields@.len() <= MAX_CALLBACK_FIELDS,
            i <= fields@.len(),
            slots.wf(),
            bindings@.len() == i,
            json_idx == kind_count(kinds.take(i as int), CallbackKind::Json),
            json_sid_idx == kind_count(kinds.take(i as int), CallbackKind::JsonWithSid),
            raw_seq_idx == kind_count(kinds.take(i as int), CallbackKind::RawWithSeq),
            forall|j: int|
                0 <= j < i ==> {
                    &&& (#[trigger] bindings@[j]).0 == fields@[j].kind
                    &&& bindings@[j].1 == slot_index(kinds, j)
                    &&& bindings@[j].1 < MAX_CALLBACK_FIELDS
                    &&& slots.slots_of(fields@[j].kind)[bindings@[j].1 as int] == Some(
                        SlotV { field: fields@[j].name@, no_events },
                    )
                },
            forall|k: CallbackKind, m: int|
                kind_count(kinds.take(i as int), k) <= m < MAX_CALLBACK_FIELDS
                    ==> #[trigger] slots.slots_of(k)[m] == old(slots).slots_of(k)[m],
            forall|k: CallbackKind, m: int|
                0 <= m < kind_count(kinds.take(i as int), k) ==> (#[trigger] slots.slots_of(k)[m]
                    matches Some(s) && s.no_events == no_events),
        decreases fields@.len() - i,
    {
        let field = &fields[i];
        proof {
            lemma_kind_count_step(kinds, i as int, CallbackKind::Json);
            lemma_kind_count_step(kinds, i as int, CallbackKind::JsonWithSid);
            lemma_kind_count_step(kinds, i as int, CallbackKind::RawWithSeq);
            lemma_kind_count_le(kinds.take(i as int), field.kind);
            assert(kinds[i as int] == field.kind);
            assert forall|j: int| 0 <= j < i && #[trigger] fields@[j].kind == field.kind implies slot_index(
                kinds,
                j,
            ) < slot_index(kinds, i as int) by {
                assert(kinds[j] == fields@[j].kind);
                lemma_kind_count_mono(kinds, j, i as int, field.kind);
            }
        }
        let ghost before = *slots;
        let slot = Slot { field: field.name.clone(), no_events };
        let idx: usize;
        match field.kind {
            CallbackKind::Json => {
                idx = json_idx;
                bind_json_slot(slots, json_idx, slot);
                json_idx = json_idx + 1;
            },
            CallbackKind::JsonWithSid => {
                idx = json_sid_idx;
                bind_json_with_sid_slot(slots, json_sid_idx, slot);
                json_sid_idx = json_sid_idx + 1;
            },
            CallbackKind::RawWithSeq => {
                idx = raw_seq_idx;
                bind_raw_seq_slot(slots, raw_seq_idx, slot);
                raw_seq_idx = raw_seq_idx + 1;
            },
        }
        assert(slots.slots_of(field.kind) == before.slots_of(field.kind).update(
            idx as int,
            Some(SlotV { field: field.name@, no_events }),
        ));
        assert forall|k: CallbackKind| k != field.kind implies #[trigger] slots.slots_of(k)
            == before.slots_of(k) by {}
        bindings.push((field.kind, idx));
        i = i + 1;
        proof {
            assert forall|j: int| 0 <= j < i implies {
                &&& (#[trigger] bindings@[j]).0 == fields@[j].kind
                &&& bindings@[j].1 == slot_index(kinds, j)
                &&& bindings@[j].1 < MAX_CALLBACK_FIELDS
                &&& slots.slots_of(fields@[j].kind)[bindings@[j].1 as int] == Some(
                    SlotV { field: fields@[j].name@, no_events },
                )
            } by {
                if j < i - 1 {
                    if fields@[j].kind == field.kind {
                        assert(slot_index(kinds, j) < slot_index(kinds, (i - 1) as int));
                    }
                }
            }
        }
    }
    assert(kinds.take(fields@.len() as int) =~= kinds);
    proof {
        if no_events && old(slots).events_suppressed() {
            assert forall|k: CallbackKind, m: int| 0 <= m < MAX_CALLBACK_FIELDS implies (
            #[trigger] slots.slots_of(k)[m] matches Some(s) ==> s.no_events) by {
                if m >= kind_count(kinds, k) {
                    assert(slots.slots_of(k)[m] == old(slots).slots_of(k)[m]);
                }
            }
        }
    }
    CallbackPlan { bindings, json: json_idx, json_with_sid: json_sid_idx, raw_with_seq: raw_seq_idx }
}

/// The `event` line a `json` callback produces for `json`.
pub open spec fn json_event_line(field: Seq<char>, json: Seq<u8>) -> LineV {
    LineV::Event {
        callback: field,
        payload: json_or_raw_spec(json).0,
        payload_raw: json_or_raw_spec(json).1,
    }
}

/// Reports a `json` callback, unless events are suppressed.
pub fn emit_json_event(slot: &Slot, json: &[u8], w: &mut Outbox)
    ensures
        final(w)@ == if slot.no_events {
            old(w)@
        } else {
            old(w)@.push(json_event_line(slot.field@, json@))
        },
        !slot.no_events && is_json_text(json@) ==> final(w)@ == old(w)@.push(
            LineV::Event { callback: slot.field@, payload: Some(json@), payload_raw: None },
        ),
        !slot.no_events && !is_json_text(json@) ==> final(w)@ == old(w)@.push(
            LineV::Event { callback: slot.field@, payload: None, payload_raw: Some(lossy_utf8(json@)) },
        ),
{
    if slot.no_events {
        return ;
    }
    let (payload, payload_raw) = json_or_raw(json);
    w.push(Line::Event { callback: slot.field.clone(), payload, payload_raw });
}

/// The `json_with_sid` line a callback produces.
pub open spec fn json_with_sid_line(field: Seq<char>, sid: Option<Seq<u8>>, json: Seq<u8>) -> LineV {
    LineV::JsonWithSid {
        callback: field,
        session_id: session_id_spec(sid),
        payload: json_or_raw_spec(json).0,
        payload_raw: json_or_raw_spec(json).1,
    }
}

/// The bytes of an optional buffer.
pub open spec fn opt_slice(b: Option<&[u8]>) -> Option<Seq<u8>> {
    match b {
        Some(x) => Some(x@),
        None => None,
    }
}

/// Reports a `json_with_sid` callback, unless events are suppressed.
pub fn emit_json_with_sid(slot: &Slot, sid: Option<&[u8]>, json: &[u8], w: &mut Outbox)
    ensures
        final(w)@ == if slot.no_events {
            old(w)@
        } else {
            old(w)@.push(json_with_sid_line(slot.field@, opt_slice(sid), json@))
        },
        !slot.no_events && is_json_text(json@) ==> final(w)@ == old(w)@.push(
            LineV::JsonWithSid {
                callback: slot.field@,
                session_id: session_id_spec(opt_slice(sid)),
                payload: Some(json@),
                payload_raw: None,
            },
        ),
        !slot.no_events && !is_json_text(json@) ==> final(w)@ == old(w)@.push(
            LineV::JsonWithSid {
                callback: slot.field@,
                session_id: session_id_spec(opt_slice(sid)),
                payload: None,
                payload_raw: Some(lossy_utf8(json@)),
            },
        ),
        json@.len() == 0 && !slot.no_events ==> final(w)@ == old(w)@.push(
            LineV::JsonWithSid {
                callback: slot.field@,
                session_id: session_id_spec(opt_slice(sid)),
                payload: None,
                payload_raw: Some(Seq::<char>::empty()),
            },
        ),
{
    if slot.no_events {
        return ;
    }
    let session = session_id(sid);
    let (payload, payload_raw) = json_or_raw(json);
    w.push(
        Line::JsonWithSid {
            callback: slot.field.clone(),
            session_id: session,
            payload,
            payload_raw,
        },
    );
}

/// The `raw_with_seq` line a callback produces.
pub open spec fn raw_seq_line(field: Seq<char>, sid: Option<Seq<u8>>, seq: u64, bytes: Seq<u8>) -> LineV {
    LineV::RawWithSeq {
        callback: field,
        session_id: session_id_spec(sid),
        seq,
        len: bytes.len() as usize,
        hex: hex_encode_spec(bytes),
    }
}

/// Reports a `raw_with_seq` callback with its bytes as hex, unless events
/// are suppressed.
pub fn emit_raw_seq_event(slot: &Slot, sid: Option<&[u8]>, seq: u64, bytes: &[u8], w: &mut Outbox)
    requires
        2 * bytes@.len() <= usize::MAX,
    ensures
        final(w)@ == if slot.no_events {
            old(w)@
        } else {
            old(w)@.push(raw_seq_line(slot.field@, opt_slice(sid), seq, bytes@))
        },
{
    if slot.no_events {
        return ;
    }
    let session = session_id(sid);
    let hex = hex_lower(bytes);
    w.push(
        Line::RawWithSeq {
            callback: slot.field.clone(),
            session_id: session,
            seq,
            len: bytes.len(),
            hex,
        },
    );
}

/// The bytes a callback passed, a null buffer read as empty.
pub open spec fn or_empty(b: Option<Seq<u8>>) -> Seq<u8> {
    match b {
        Some(x) => x,
        None => Seq::empty(),
    }
}

/// The lines a `json` callback through trampoline `index` produces: none
/// for a null or empty buffer or an unbound slot, none when the slot
/// suppresses events, else one `event` line.
pub open spec fn json_callback_lines(slots: CallbackSlots, index: int, json: Option<Seq<u8>>) -> Seq<
    LineV,
> {
    match (json, slots.json_view()[index]) {
        (Some(b), Some(s)) => if b.len() == 0 || s.no_events {
            Seq::empty()
        } else {
            seq![json_event_line(s.field, b)]
        },
        _ => Seq::empty(),
    }
}

/// The lines a `json_with_sid` callback through trampoline `index`
/// produces: none for an unbound slot or a slot that suppresses events,
/// else one line, a null buffer read as empty.
pub open spec fn json_with_sid_callback_lines(
    slots: CallbackSlots,
    index: int,
    sid: Option<Seq<u8>>,
    json: Option<Seq<u8>>,
) -> Seq<LineV> {
    match slots.json_with_sid_view()[index] {
        Some(s) => if s.no_events {
            Seq::empty()
        } else {
            seq![json_with_sid_line(s.field, sid, or_empty(json))]
        },
        None => Seq::empty(),
    }
}

/// The lines a `raw_with_seq` callback through trampoline `index`
/// produces: none for an unbound slot or a slot that suppresses events,
/// else one line, a null buffer read as empty.
pub open spec fn raw_seq_callback_lines(
    slots: CallbackSlots,
    index: int,
    sid: Option<Seq<u8>>,
    seq: u64,
    bytes: Option<Seq<u8>>,
) -> Seq<LineV> {
    match slots.raw_with_seq_view()[index] {
        Some(s) => if s.no_events {
            Seq::empty()
        } else {
            seq![raw_seq_line(s.field, sid, seq, or_empty(bytes))]
        },
        None => Seq::empty(),
    }
}

/// A `json` callback through trampoline `index`: a null or empty buffer is
/// ignored, and so is a call into a slot that was never bound.
pub fn json_callback(slots: &CallbackSlots, index: usize, json: Option<&[u8]>, w: &mut Outbox)
    requires
        slots.wf(),
        index < MAX_CALLBACK_FIELDS,
    ensures
        final(w)@ == old(w)@ + json_callback_lines(*slots, index as int, opt_slice(json)),
{
    let ghost lines = json_callback_lines(*slots, index as int, opt_slice(json));
    match json {
        Some(bytes) => {
            if bytes.len() != 0 {
                match slots.get(CallbackKind::Json, index) {
                    Some(slot) => emit_json_event(slot, bytes, w),
                    None => {},
                }
            }
        },
        None => {},
    }
    assert(final(w)@ =~= old(w)@ + lines);
}

/// A `json_with_sid` callback through trampoline `index`: a null buffer
/// reads as empty (and gives `payload_raw` of the empty text); an unbound
/// slot is ignored.
pub fn json_with_sid_callback(
    slots: &CallbackSlots,
    index: usize,
    sid: Option<&[u8]>,
    json: Option<&[u8]>,
    w: &mut Outbox,
)
    requires
        slots.wf(),
        index < MAX_CALLBACK_FIELDS,
    ensures
        final(w)@ == old(w)@ + json_with_sid_callback_lines(
            *slots,
            index as int,
            opt_slice(sid),
            opt_slice(json),
        ),
        or_empty(opt_slice(json)).len() == 0 ==> match slots.json_with_sid_view()[index as int] {
            Some(s) => !s.no_events ==> final(w)@ == old(w)@.push(
                LineV::JsonWithSid {
                    callback: s.field,
                    session_id: session_id_spec(opt_slice(sid)),
                    payload: None,
                    payload_raw: Some(Seq::<char>::empty()),
                },
            ),
            None => final(w)@ == old(w)@,
        },
{
    let ghost lines = json_with_sid_callback_lines(
        *slots,
        index as int,
        opt_slice(sid),
        opt_slice(json),
    );
    let empty: Vec<u8> = Vec::new();
    let bytes: &[u8] = match json {
        Some(b) => b,
        None => empty.as_slice(),
    };
    assert(bytes@ == or_empty(opt_slice(json)));
    match slots.get(CallbackKind::JsonWithSid, index) {
        Some(slot) => emit_json_with_sid(slot, sid, bytes, w),
        None => {},
    }
    assert(final(w)@ =~= old(w)@ + lines);
}

/// A `raw_with_seq` callback through trampoline `index`: a null buffer
/// reads as empty; an unbound slot is ignored.
pub fn raw_seq_callback(
    slots: &CallbackSlots,
    index: usize,
    sid: Option<&[u8]>,
    seq: u64,
    bytes: Option<&[u8]>,
    w: &mut Outbox,
)
    requires
        slots.wf(),
        index < MAX_CALLBACK_FIELDS,
        2 * or_empty(opt_slice(bytes)).len() <= usize::MAX,
    ensures
        final(w)@ == old(w)@ + raw_seq_callback_lines(
            *slots,
            index as int,
            opt_slice(sid),
            seq,
            opt_slice(bytes),
        ),
{
    let ghost lines = raw_seq_callback_lines(
        *slots,
        index as int,
        opt_slice(sid),
        seq,
        opt_slice(bytes),
    );
    let empty: Vec<u8> = Vec::new();
    let data: &[u8] = match bytes {
        Some(b) => b,
        None => empty.as_slice(),
    };
    assert(data@ == or_empty(opt_slice(bytes)));
    match slots.get(CallbackKind::RawWithSeq, index) {
        Some(slot) => emit_raw_seq_event(slot, sid, seq, data, w),
        None => {},
    }
    assert(final(w)@ =~= old(w)@ + lines);
}

/// Callback events obey `--no-events`: when every bound slot suppresses
/// events, no callback of any kind, at any trampoline, with any arguments,
/// produces a line.
pub proof fn law_no_events_silences(
    slots: CallbackSlots,
    index: int,
    sid: Option<Seq<u8>>,
    seq: u64,
    bytes: Option<Seq<u8>>,
)
    requires
        slots.wf(),
        slots.events_suppressed(),
        0 <= index < MAX_CALLBACK_FIELDS,
    ensures
        json_callback_lines(slots, index, bytes) == Seq::<LineV>::empty(),
        json_with_sid_callback_lines(slots, index, sid, bytes) == Seq::<LineV>::empty(),
        raw_seq_callback_lines(slots, index, sid, seq, bytes) == Seq::<LineV>::empty(),
{
    assert(slots.slots_of(CallbackKind::Json)[index] == slots.json_view()[index]);
    assert(slots.slots_of(CallbackKind::JsonWithSid)[index] == slots.json_with_sid_view()[index]);
    assert(slots.slots_of(CallbackKind::RawWithSeq)[index] == slots.raw_with_seq_view()[index]);
}

/// A `json_with_sid` callback carries its bytes as a `json` callback does:
/// bytes that are a JSON text are the `payload` (and there is no
/// `payload_raw`); any other bytes give no `payload` and their lossy UTF-8
/// reading as `payload_raw`. The session id does not change which.
pub proof fn law_json_with_sid_carries_payload(field: Seq<char>, sid: Option<Seq<u8>>, json: Seq<u8>)
    ensures
        is_json_text(json) ==> json_with_sid_line(field, sid, json) == (LineV::JsonWithSid {
            callback: field,
            session_id: session_id_spec(sid),
            payload: Some(json),
            payload_raw: None,
        }),
        !is_json_text(json) ==> json_with_sid_line(field, sid, json) == (LineV::JsonWithSid {
            callback: field,
            session_id: session_id_spec(sid),
            payload: None,
            payload_raw: Some(lossy_utf8(json)),
        }),
        json_event_line(field, json) == (LineV::Event {
            callback: field,
            payload: if is_json_text(json) {
                Some(json)
            } else {
                None
            },
            payload_raw: if is_json_text(json) {
                None
            } else {
                Some(lossy_utf8(json))
            },
        }),
{
}

/// A bound `json_with_sid` trampoline with events on reports JSON bytes as
/// the line's payload, whatever the session id.
pub proof fn law_json_with_sid_callback_payload(
    slots: CallbackSlots,
    index: int,
    sid: Option<Seq<u8>>,
    json: Seq<u8>,
)
    requires
        slots.wf(),
        0 <= index < MAX_CALLBACK_FIELDS,
        slots.json_with_sid_view()[index] matches Some(s) && !s.no_events,
        is_json_text(json),
    ensures
        json_with_sid_callback_lines(slots, index, sid, Some(json)) == seq![
            LineV::JsonWithSid {
                callback: slots.json_with_sid_view()[index]->Some_0.field,
                session_id: session_id_spec(sid),
                payload: Some(json),
                payload_raw: None,
            },
        ],
{
    law_json_with_sid_carries_payload(slots.json_with_sid_view()[index]->Some_0.field, sid, json);
}

/// A null byte buffer reads as empty: the `raw_with_seq` line then has
/// length 0 and no hex digits.
pub proof fn law_null_buffer_reads_empty(field: Seq<char>, sid: Option<Seq<u8>>, seq: u64)
    ensures
        raw_seq_line(field, sid, seq, or_empty(None)) == (LineV::RawWithSeq {
            callback: field,
            session_id: session_id_spec(sid),
            seq,
            len: 0,
            hex: Seq::<u8>::empty(),
        }),
{
    assert(hex_encode_spec(Seq::<u8>::empty()) =~= Seq::<u8>::empty());
}

/// One stdin op of FFI mode (`stop` is handled by the stdin loop).
#[derive(Debug, PartialEq)]
pub enum FfiOp {
    /// Call a lane with the JSON payload (already serialised, or the words
    /// of its serialisation failure).
    Send { lane: String, payload: Result<Vec<u8>, String> },
    /// Call an ad-hoc op, with an optional string argument.
    Call { name: String, arg: Option<String> },
    /// Pause stdin processing.
    SleepMs { ms: u64 },
    /// An op name this mode does not know.
    Unknown,
}

/// The call one FFI op makes.
#[derive(Debug, PartialEq)]
pub enum FfiAction {
    /// Call lane symbol `index` with `bytes`; report the result as `send`.
    CallLane { index: usize, name: String, bytes: Vec<u8> },
    /// Call op symbol `index` with `arg` as a C string (it holds no NUL).
    CallOpCstr { index: usize, name: String, arg: String },
    /// Call op symbol `index` with the handle alone.
    CallOpOnly { index: usize, name: String },
    /// Sleep this many milliseconds.
    Sleep { ms: u64 },
    /// Nothing more (any error is already reported).
    Nothing,
}

/// The first lane named `name`, if any.
pub fn find_lane(manifest: &Manifest, name: &String) -> (r: Option<usize>)
    ensures
        match r {
            Some(i) => i < manifest.lanes@.len() && manifest.lanes@[i as int].name@ == name@ && forall|
                j: int,
            | 0 <= j < i ==> (#[trigger] manifest.lanes@[j]).name@ != name@,
            None => forall|j: int|
                0 <= j < manifest.lanes@.len() ==> (#[trigger] manifest.lanes@[j]).name@ != name@,
        },
{
    let mut i: usize = 0;
    while i < manifest.lanes.len()
        invariant
            i <= manifest.lanes@.len(),
            forall|j: int| 0 <= j < i ==> (#[trigger] manifest.lanes@[j]).name@ != name@,
        decreases manifest.lanes@.len() - i,
    {
        if manifest.lanes[i].name.eq(name) {
            return Some(i);
        }
        i = i + 1;
    }
    None
}

/// The first op named `name`, if any.
pub fn find_op(manifest: &Manifest, name: &String) -> (r: Option<usize>)
    ensures
        match r {
            Some(i) => i < manifest.ops@.len() && manifest.ops@[i as int].name@ == name@ && forall|
                j: int,
            | 0 <= j < i ==> (#[trigger] manifest.ops@[j]).name@ != name@,
            None => forall|j: int|
                0 <= j < manifest.ops@.len() ==> (#[trigger] manifest.ops@[j]).name@ != name@,
        },
{
    let mut i: usize = 0;
    while i < manifest.ops.len()
        invariant
            i <= manifest.ops@.len(),
            forall|j: int| 0 <= j < i ==> (#[trigger] manifest.ops@[j]).name@ != name@,
        decreases manifest.ops@.len() - i,
    {
        if manifest.ops[i].name.eq(name) {
            return Some(i);
        }
        i = i + 1;
    }
    None
}

/// Whether the UTF-8 bytes of a text hold a NUL byte.
pub open spec fn has_nul(s: Seq<char>) -> bool {
    encode_utf8(s).contains(0u8)
}

/// Checks a C-string argument for an interior NUL byte.
fn contains_nul(s: &str) -> (r: bool)
    ensures
        r == has_nul(s@),
{
    let b = s.as_bytes();
    let mut i: usize = 0;
    while i < b.len()
        invariant
            i <= b@.len(),
            b@ == encode_utf8(s@),
            forall|j: int| 0 <= j < i ==> b@[j] != 0u8,
        decreases b@.len() - i,
    {
        if b[i] == 0 {
            return true;
        }
        i = i + 1;
    }
    false
}

/// Lane `i` is the first lane of the manifest with this name.
pub open spec fn lane_matches(manifest: Manifest, i: int, name: Seq<char>) -> bool {
    &&& 0 <= i < manifest.lanes@.len()
    &&& manifest.lanes@[i].name@ == name
    &&& forall|j: int| 0 <= j < i ==> (#[trigger] manifest.lanes@[j]).name@ != name
}

/// Op `i` is the first op of the manifest with this name.
pub open spec fn op_matches(manifest: Manifest, i: int, name: Seq<char>) -> bool {
    &&& 0 <= i < manifest.ops@.len()
    &&& manifest.ops@[i].name@ == name
    &&& forall|j: int| 0 <= j < i ==> (#[trigger] manifest.ops@[j]).name@ != name
}

/// No lane of the manifest has this name.
pub open spec fn no_lane(manifest: Manifest, name: Seq<char>) -> bool {
    forall|j: int| 0 <= j < manifest.lanes@.len() ==> (#[trigger] manifest.lanes@[j]).name@ != name
}

/// No op of the manifest has this name.
pub open spec fn no_op(manifest: Manifest, name: Seq<char>) -> bool {
    forall|j: int| 0 <= j < manifest.ops@.len() ==> (#[trigger] manifest.ops@[j]).name@ != name
}

/// The text a `call` passes as C string: its argument, or the empty text.
pub open spec fn arg_text(arg: Option<String>) -> Seq<char> {
    match arg {
        Some(a) => a@,
        None => Seq::empty(),
    }
}

/// What one FFI op calls. `send` refuses payloads it cannot serialise or
/// that exceed [`MAX_PAYLOAD_BYTES`], then the first lane with its name;
/// `call` finds the first op with its name and, for C-string ops, refuses
/// an argument with a NUL byte.
pub fn plan_ffi_op(w: &mut Outbox, manifest: &Manifest, op: FfiOp) -> (r: FfiAction)
    ensures
        match op {
            FfiOp::Send { lane, payload } => match payload {
                Err(e) => r is Nothing && final(w)@ == old(w)@.push(
                    caused_error_line("payload serialise failed"@, e@),
                ),
                Ok(b) => if b@.len() > MAX_PAYLOAD_BYTES {
                    r is Nothing && final(w)@ == old(w)@.push(
                        error_line(
                            "payload exceeds MAX_PAYLOAD_BYTES"@,
                            Some(DetailV::PayloadTooLarge { len: b@.len() as usize, max: MAX_PAYLOAD_BYTES }),
                        ),
                    )
                } else if no_lane(*manifest, lane@) {
                    r is Nothing && final(w)@ == old(w)@.push(
                        error_line("unknown lane"@, Some(DetailV::UnknownLane { lane: lane@ })),
                    )
                } else {
                    r matches FfiAction::CallLane { index, name, bytes } && lane_matches(
                        *manifest,
                        index as int,
                        lane@,
                    ) && name@ == lane@ && bytes@ == b@ && final(w)@ == old(w)@
                },
            },
            FfiOp::Call { name: op_name, arg } => if no_op(*manifest, op_name@) {
                r is Nothing && final(w)@ == old(w)@.push(
                    error_line("unknown op"@, Some(DetailV::UnknownOp { op: op_name@ })),
                )
            } else {
                exists|i: int|
                    op_matches(*manifest, i, op_name@) && match manifest.ops@[i].kind {
                        OpKind::HandleCstr => if has_nul(arg_text(arg)) {
                            r is Nothing && final(w)@ == old(w)@.push(
                                error_line("op arg contained interior NUL"@, None),
                            )
                        } else {
                            r matches FfiAction::CallOpCstr { index, name, arg: a } && index == i
                                && name@ == op_name@ && a@ == arg_text(arg)
                                && final(w)@ == old(w)@
                        },
                        OpKind::HandleOnly => r matches FfiAction::CallOpOnly { index, name }
                            && index == i && name@ == op_name@ && final(w)@ == old(w)@,
                    }
            },
            FfiOp::SleepMs { ms } => r == FfiAction::Sleep { ms } && final(w)@ == old(w)@,
            FfiOp::Unknown => r is Nothing && final(w)@ == old(w)@.push(
                error_line("unknown stdin op"@, None),
            ),
        },
{
    match op {
        FfiOp::Send { lane, payload } => {
            let bytes = match payload {
                Ok(b) => b,
                Err(e) => {
                    error_caused(w, "payload serialise failed", e);
                    return FfiAction::Nothing;
                },
            };
            if bytes.len() > MAX_PAYLOAD_BYTES {
                error(
                    w,
                    "payload exceeds MAX_PAYLOAD_BYTES",
                    Some(Detail::PayloadTooLarge { len: bytes.len(), max: MAX_PAYLOAD_BYTES }),
                );
                return FfiAction::Nothing;
            }
            match find_lane(manifest, &lane) {
                Some(index) => FfiAction::CallLane { index, name: lane, bytes },
                None => {
                    error(w, "unknown lane", Some(Detail::UnknownLane { lane }));
                    FfiAction::Nothing
                },
            }
        },
        FfiOp::Call { name: op_name, arg } => {
            let index = match find_op(manifest, &op_name) {
                Some(i) => i,
                None => {
                    error(w, "unknown op", Some(Detail::UnknownOp { op: op_name }));
                    return FfiAction::Nothing;
                },
            };
            assert(op_matches(*manifest, index as int, op_name@));
            match manifest.ops[index].kind {
                OpKind::HandleCstr => {
                    let a: String = match arg {
                        Some(s) => s,
                        None => String::new(),
                    };
                    if contains_nul(a.as_str()) {
                        error(w, "op arg contained interior NUL", None);
                        FfiAction::Nothing
                    } else {
                        FfiAction::CallOpCstr { index, name: op_name, arg: a }
                    }
                },
                OpKind::HandleOnly => FfiAction::CallOpOnly { index, name: op_name },
            }
        },
        FfiOp::SleepMs { ms } => FfiAction::Sleep { ms },
        FfiOp::Unknown => {
            error(w, "unknown stdin op", None);
            FfiAction::Nothing
        },
    }
}

/// Reports the return code of a lane (`send`) or op (`call`) call.
pub fn record_rc(w: &mut Outbox, op: RcOp, name: String, rc: i32)
    ensures
        final(w)@ == old(w)@.push(LineV::FfiRc { op, name: name@, rc }),
{
    w.push(Line::FfiRc { op, name, rc });
}

/// Reports which manifest drives which library.
pub fn loading_manifest(w: &mut Outbox, manifest_path: String, lib_path: String)
    ensures
        final(w)@ == old(w)@.push(
            LineV::Control {
                msg: MessageV::LoadingManifest { manifest: manifest_path@, lib: lib_path@ },
            },
        ),
{
    w.push(Line::Control { msg: Message::LoadingManifest { manifest: manifest_path, lib: lib_path } });
}

/// Echoes the manifest label, when it has one.
pub fn manifest_label(w: &mut Outbox, manifest: &Manifest)
    ensures
        final(w)@ == match manifest.label {
            Some(l) => old(w)@.push(LineV::Control { msg: MessageV::ManifestLabel { label: l@ } }),
            None => old(w)@,
        },
{
    match &manifest.label {
        Some(l) => w.push(Line::Control { msg: Message::ManifestLabel { label: l.clone() } }),
        None => {},
    }
}

/// Reports a library that could not be opened; the process then exits with 2.
pub fn dlopen_failed(w: &mut Outbox, cause: String, lib_path: String)
    ensures
        final(w)@ == old(w)@.push(
            LineV::Error {
                msg: MessageV::Caused { what: "dlopen failed"@, cause: cause@ },
                detail: Some(DetailV::Lib { lib: lib_path@ }),
            },
        ),
{
    w.push(
        Line::Error {
            msg: Message::Caused { what: "dlopen failed".to_owned(), cause },
            detail: Some(Detail::Lib { lib: lib_path }),
        },
    );
}

/// Reports the start of the runtime with the shape of what was bound.
pub fn starting_runtime(w: &mut Outbox, manifest: &Manifest, plan: &CallbackPlan)
    ensures
        final(w)@ == old(w)@.push(
            LineV::Control {
                msg: MessageV::StartingRuntime {
                    start_symbol: manifest.lifecycle.start_symbol@,
                    callbacks: manifest.callback_struct@.len() as usize,
                    json: plan.json,
                    json_with_sid: plan.json_with_sid,
                    raw_with_seq: plan.raw_with_seq,
                    lanes: manifest.lanes@.len() as usize,
                    ops: manifest.ops@.len() as usize,
                },
            },
        ),
{
    w.push(
        Line::Control {
            msg: Message::StartingRuntime {
                start_symbol: manifest.lifecycle.start_symbol.clone(),
                callbacks: manifest.callback_struct.len(),
                json: plan.json,
                json_with_sid: plan.json_with_sid,
                raw_with_seq: plan.raw_with_seq,
                lanes: manifest.lanes.len(),
                ops: manifest.ops.len(),
            },
        },
    );
}

/// Nanoseconds in a millisecond.
pub const NANOS_PER_MILLI: u128 = 1_000_000;

/// Announces the stop and the total grace for stop plus draining.
pub fn stop_begin(w: &mut Outbox, grace_ms: u64)
    ensures
        final(w)@ == old(w)@.push(LineV::Control { msg: MessageV::StoppingRuntime { grace_ms } }),
{
    w.push(Line::Control { msg: Message::StoppingRuntime { grace_ms } });
}

/// How the stop thread fared.
#[derive(Debug, PartialEq)]
pub enum StopOutcome {
    /// The thread could not be started.
    SpawnFailed(String),
    /// The stop symbol returned after this many nanoseconds.
    Completed { elapsed_ns: u128 },
    /// The thread ended without reporting.
    ChannelClosed,
    /// The grace ran out first.
    TimedOut,
}

/// What is left of the grace after `elapsed_ns`, in nanoseconds.
pub open spec fn remaining_ns(grace_ms: u64, elapsed_ns: u128) -> nat {
    let g = grace_ms as nat * NANOS_PER_MILLI as nat;
    if elapsed_ns >= g {
        0
    } else {
        (g - elapsed_ns) as nat
    }
}

/// Reports how the stop went and returns how long to wait for callbacks
/// to drain, in nanoseconds: what is left of the grace after a completed
/// stop, and nothing otherwise.
pub fn stop_finish(w: &mut Outbox, grace_ms: u64, outcome: StopOutcome) -> (sleep_ns: u128)
    ensures
        match outcome {
            StopOutcome::Completed { elapsed_ns } => {
                &&& sleep_ns == remaining_ns(grace_ms, elapsed_ns)
                &&& final(w)@ == if sleep_ns == 0 {
                    old(w)@
                } else {
                    old(w)@.push(
                        LineV::Control {
                            msg: MessageV::Draining { remaining_ms: sleep_ns / NANOS_PER_MILLI },
                        },
                    )
                }
            },
            StopOutcome::SpawnFailed(e) => sleep_ns == 0 && final(w)@ == old(w)@.push(
                caused_error_line("failed to start runtime stop thread"@, e@),
            ),
            StopOutcome::ChannelClosed => sleep_ns == 0 && final(w)@ == old(w)@.push(
                error_line("runtime stop thread ended without reporting completion"@, None),
            ),
            StopOutcome::TimedOut => sleep_ns == 0 && final(w)@ == old(w)@.push(
                error_line(
                    "runtime stop exceeded shutdown grace; forcing process exit"@,
                    Some(DetailV::GraceExceeded { grace_ms }),
                ),
            ),
        },
{
    match outcome {
        StopOutcome::Completed { elapsed_ns } => {
            let grace_ns: u128 = grace_ms as u128 * NANOS_PER_MILLI;
            let remaining = grace_ns.saturating_sub(elapsed_ns);
            if remaining != 0 {
                w.push(
                    Line::Control {
                        msg: Message::Draining { remaining_ms: remaining / NANOS_PER_MILLI },
                    },
                );
            }
            remaining
        },
        StopOutcome::SpawnFailed(e) => {
            error_caused(w, "failed to start runtime stop thread", e);
            0
        },
        StopOutcome::ChannelClosed => {
            error(w, "runtime stop thread ended without reporting completion", None);
            0
        },
        StopOutcome::TimedOut => {
            error(
                w,
                "runtime stop exceeded shutdown grace; forcing process exit",
                Some(Detail::GraceExceeded { grace_ms }),
            );
            0
        },
    }
}

/// Stopping never takes longer than the grace: after a stop that took
/// `elapsed_ns`, the drain wait brings the total to the grace exactly,
/// or adds nothing once the grace is spent.
pub proof fn law_stop_within_grace(grace_ms: u64, elapsed_ns: u128)
    ensures
        elapsed_ns < grace_ms as nat * NANOS_PER_MILLI as nat ==> elapsed_ns + remaining_ns(
            grace_ms,
            elapsed_ns,
        ) == grace_ms as nat * NANOS_PER_MILLI as nat,
        elapsed_ns >= grace_ms as nat * NANOS_PER_MILLI as nat ==> remaining_ns(grace_ms, elapsed_ns)
            == 0,
{
}

} // verus!
