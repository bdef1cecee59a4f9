//! Inspect mode: list the exported symbols of a shared library (Mach-O,
//! ELF, PE, ...), each once, with a summary.
//!
//! Defined, named symbols from both symbol tables are gathered into a
//! table keyed by (name, address), the first symbol of each key winning,
//! kept in key order. When the file has an export list, its exports are
//! reported in file order with the size and kind the table knows for them;
//! otherwise the table's global symbols are reported in key order.

use vstd::prelude::*;
use vstd::utf8::{decode_utf8, encode_utf8, valid_utf8};

use object::{BinaryFormat as F, Object, ObjectSymbol, SymbolKind as K};

use crate::output::{BinFormat, Line, LineV, Outbox, SymKind};
use crate::text::utf8_or_empty;

verus! {

/// A symbol kind as the `object` crate reports it.
#[derive(Clone, Copy, Debug, PartialEq, Eq, Structural)]
pub enum ObjSymbolKind {
    Unknown,
    Text,
    Data,
    Section,
    File,
    Label,
    Tls,
}

/// One entry of a symbol table.
pub struct SymbolRecord {
    /// The name, when it is readable text.
    pub name: Option<String>,
    pub address: u64,
    pub size: u64,
    pub kind: ObjSymbolKind,
    pub is_definition: bool,
    pub is_undefined: bool,
    pub is_global: bool,
}

/// One entry of the export list.
pub struct ExportRecord {
    /// The raw name bytes.
    pub name: Vec<u8>,
    pub address: u64,
}

/// What `inspect` reads from a parsed file.
pub struct ObjectInfo {
    pub format: BinFormat,
    /// The symbol table followed by the dynamic symbol table.
    pub symbols: Vec<SymbolRecord>,
    pub exports: Vec<ExportRecord>,
}

/// The outcome of reading a file.
pub enum ObjectRead {
    Parsed(ObjectInfo),
    /// The file is no object the crate can parse: its words.
    ParseFailed(String),
    /// The export list could not be read: its words.
    ExportsFailed(String),
}

/// [`SymbolRecord`] with its name taken by its characters.
pub struct SymbolRecordV {
    pub name: Option<Seq<char>>,
    pub address: u64,
    pub size: u64,
    pub kind: ObjSymbolKind,
    pub is_definition: bool,
    pub is_undefined: bool,
    pub is_global: bool,
}

/// [`ExportRecord`] with its name taken as bytes.
pub struct ExportRecordV {
    pub name: Seq<u8>,
    pub address: u64,
}

/// [`ObjectInfo`] by views.
pub struct ObjectInfoV {
    pub format: BinFormat,
    pub symbols: Seq<SymbolRecordV>,
    pub exports: Seq<ExportRecordV>,
}

/// [`ObjectRead`] by views.
pub enum ObjectReadV {
    Parsed(ObjectInfoV),
    ParseFailed(Seq<char>),
    ExportsFailed(Seq<char>),
}

impl View for SymbolRecord {
    type V = SymbolRecordV;

    open spec fn view(&self) -> SymbolRecordV {
        SymbolRecordV {
            name: crate::output::opt_chars(self.name),
            address: self.address,
            size: self.size,
            kind: self.kind,
            is_definition: self.is_definition,
            is_undefined: self.is_undefined,
            is_global: self.is_global,
        }
    }
}

impl View for ExportRecord {
    type V = ExportRecordV;

    open spec fn view(&self) -> ExportRecordV {
        ExportRecordV { name: self.name@, address: self.address }
    }
}

impl View for ObjectInfo {
    type V = ObjectInfoV;

    open spec fn view(&self) -> ObjectInfoV {
        ObjectInfoV {
            format: self.format,
            symbols: self.symbols@.map_values(|s: SymbolRecord| s@),
            exports: self.exports@.map_values(|e: ExportRecord| e@),
        }
    }
}

impl View for ObjectRead {
    type V = ObjectReadV;

    open spec fn view(&self) -> ObjectReadV {
        match self {
            ObjectRead::Parsed(i) => ObjectReadV::Parsed(i@),
            ObjectRead::ParseFailed(e) => ObjectReadV::ParseFailed(e@),
            ObjectRead::ExportsFailed(e) => ObjectReadV::ExportsFailed(e@),
        }
    }
}

/// What `object::File::parse` and then `Object::format` make of a file's
/// bytes: its container format, or the parser's words.
pub uninterp spec fn object_format_of(data: Seq<u8>) -> Result<BinFormat, Seq<char>>;

/// The symbol table followed by the dynamic symbol table of a parsed file.
pub uninterp spec fn object_symbols_of(data: Seq<u8>) -> Seq<SymbolRecordV>;

/// The export list of a parsed file, or the reader's words.
pub uninterp spec fn object_exports_of(data: Seq<u8>) -> Result<Seq<ExportRecordV>, Seq<char>>;

/// What `inspect` reads from a file's bytes.
pub open spec fn object_contents(data: Seq<u8>) -> ObjectReadV {
    match object_format_of(data) {
        Err(e) => ObjectReadV::ParseFailed(e),
        Ok(format) => match object_exports_of(data) {
            Err(e) => ObjectReadV::ExportsFailed(e),
            Ok(exports) => ObjectReadV::Parsed(
                ObjectInfoV { format, symbols: object_symbols_of(data), exports },
            ),
        },
    }
}

/// Calls `object::File::parse` and then `Object::format`, mapping each
/// format to its variant here (formats this library does not list become
/// `Unknown`). Claimed: the outcome depends on the bytes alone and is named
/// by `object_format_of`.
/// Left unsaid: the `object` crate does not document that its readers never
/// panic on malformed input, so no input is ruled out here.
#[verifier::external_body]
fn object_format(data: &[u8]) -> (r: Result<BinFormat, String>)
    ensures
        match r {
            Ok(f) => object_format_of(data@) == Ok::<BinFormat, Seq<char>>(f),
            Err(e) => object_format_of(data@) == Err::<BinFormat, Seq<char>>(e@),
        },
{
    let obj = match object::File::parse(data) { Ok(o) => o, Err(e) => return Err(e.to_string()) };
    Ok(match obj.format() { F::Elf => BinFormat::Elf, F::MachO => BinFormat::MachO, F::Pe => BinFormat::Pe, F::Coff => BinFormat::Coff, F::Wasm => BinFormat::Wasm, F::Xcoff => BinFormat::Xcoff, _ => BinFormat::Unknown })
}

/// Calls `Object::symbols` and `Object::dynamic_symbols` on the parsed
/// file and copies out each symbol's name (when it is text), address, size,
/// kind and flags, in table order. Claimed: the list depends on the bytes
/// alone and is named by `object_symbols_of`.
/// Left unsaid: the `object` crate does not document that its readers never
/// panic on malformed input, so no input is ruled out here.
#[verifier::external_body]
fn object_symbols(data: &[u8]) -> (r: Vec<SymbolRecord>)
    requires
        object_format_of(data@) is Ok,
    ensures
        r@.map_values(|s: SymbolRecord| s@) == object_symbols_of(data@),
{
    let obj = match object::File::parse(data) { Ok(o) => o, Err(_) => return Vec::new() };
    let kind = |k| match k { K::Text => ObjSymbolKind::Text, K::Data => ObjSymbolKind::Data, K::Section => ObjSymbolKind::Section, K::File => ObjSymbolKind::File, K::Label => ObjSymbolKind::Label, K::Tls => ObjSymbolKind::Tls, _ => ObjSymbolKind::Unknown };
    obj.symbols().chain(obj.dynamic_symbols()).map(|s| SymbolRecord { name: s.name().ok().map(String::from), address: s.address(), size: s.size(), kind: kind(s.kind()), is_definition: s.is_definition(), is_undefined: s.is_undefined(), is_global: s.is_global() }).collect()
}

/// Calls `Object::exports` on the parsed file and copies out each export's
/// name bytes and address. Claimed: the outcome depends on the bytes alone
/// and is named by `object_exports_of`.
/// Left unsaid: the `object` crate does not document that its readers never
/// panic on malformed input, so no input is ruled out here.
#[verifier::external_body]
fn object_exports(data: &[u8]) -> (r: Result<Vec<ExportRecord>, String>)
    requires
        object_format_of(data@) is Ok,
    ensures
        match r {
            Ok(v) => object_exports_of(data@) == Ok::<Seq<ExportRecordV>, Seq<char>>(
                v@.map_values(|x: ExportRecord| x@),
            ),
            Err(e) => object_exports_of(data@) == Err::<Seq<ExportRecordV>, Seq<char>>(e@),
        },
{
    let obj = match object::File::parse(data) { Ok(o) => o, Err(e) => return Err(e.to_string()) };
    match obj.exports() {
        Ok(v) => Ok(v.iter().map(|x| ExportRecord { name: x.name().to_vec(), address: x.address() }).collect()),
        Err(e) => Err(e.to_string()),
    }
}

/// Reads format, symbols and exports from a file's bytes.
pub fn read_object(data: &[u8]) -> (r: ObjectRead)
    ensures
        r@ == object_contents(data@),
{
    let format = match object_format(data) {
        Ok(f) => f,
        Err(e) => return ObjectRead::ParseFailed(e),
    };
    let exports = match object_exports(data) {
        Ok(v) => v,
        Err(e) => return ObjectRead::ExportsFailed(e),
    };
    let symbols = object_symbols(data);
    ObjectRead::Parsed(ObjectInfo { format, symbols, exports })
}

// ---------------------------------------------------------------------
// Byte-string order (the order of `str`: lexicographic by bytes).

/// `a` sorts before `b`, byte by byte, a proper prefix first.
pub open spec fn bytes_lt(a: Seq<u8>, b: Seq<u8>) -> bool
    decreases a.len(),
{
    if a.len() == 0 {
        b.len() > 0
    } else if b.len() == 0 {
        false
    } else if a[0] < b[0] {
        true
    } else if a[0] > b[0] {
        false
    } else {
        bytes_lt(a.drop_first(), b.drop_first())
    }
}

proof fn lemma_bytes_lt_irrefl(a: Seq<u8>)
    ensures
        !bytes_lt(a, a),
    decreases a.len(),
{
    if a.len() > 0 {
        lemma_bytes_lt_irrefl(a.drop_first());
    }
}

proof fn lemma_bytes_lt_total(a: Seq<u8>, b: Seq<u8>)
    ensures
        a != b ==> (bytes_lt(a, b) || bytes_lt(b, a)),
        !(bytes_lt(a, b) && bytes_lt(b, a)),
    decreases a.len(),
{
    if a.len() > 0 && b.len() > 0 {
        lemma_bytes_lt_total(a.drop_first(), b.drop_first());
        if a[0] == b[0] && a.drop_first() == b.drop_first() {
            assert(a =~= seq![a[0]] + a.drop_first());
            assert(b =~= seq![b[0]] + b.drop_first());
        }
    } else if a.len() == 0 && b.len() == 0 {
        assert(a =~= b);
    }
}

proof fn lemma_bytes_lt_trans(a: Seq<u8>, b: Seq<u8>, c: Seq<u8>)
    requires
        bytes_lt(a, b),
        bytes_lt(b, c),
    ensures
        bytes_lt(a, c),
    decreases a.len(),
{
    if a.len() > 0 && b.len() > 0 && c.len() > 0 && a[0] == b[0] && b[0] == c[0] {
        lemma_bytes_lt_trans(a.drop_first(), b.drop_first(), c.drop_first());
    }
}

/// A table key: the name's bytes and the address.
pub open spec fn key_lt(a: (Seq<u8>, u64), b: (Seq<u8>, u64)) -> bool {
    bytes_lt(a.0, b.0) || (a.0 == b.0 && a.1 < b.1)
}

proof fn lemma_key_order(a: (Seq<u8>, u64), b: (Seq<u8>, u64), c: (Seq<u8>, u64))
    ensures
        !key_lt(a, a),
        a != b ==> (key_lt(a, b) || key_lt(b, a)),
        !(key_lt(a, b) && key_lt(b, a)),
        key_lt(a, b) && key_lt(b, c) ==> key_lt(a, c),
{
    lemma_bytes_lt_irrefl(a.0);
    lemma_bytes_lt_total(a.0, b.0);
    lemma_bytes_lt_total(b.0, c.0);
    lemma_bytes_lt_total(a.0, c.0);
    if bytes_lt(a.0, b.0) && bytes_lt(b.0, c.0) {
        lemma_bytes_lt_trans(a.0, b.0, c.0);
    }
    if a.0 == b.0 && a.1 == b.1 {
        assert(a == b);
    }
}

/// Whether `a` sorts before `b`, byte by byte.
fn bytes_before(a: &[u8], b: &[u8]) -> (r: bool)
    ensures
        r == bytes_lt(a@, b@),
{
    let mut i: usize = 0;
    assert(a@.skip(0) =~= a@);
    assert(b@.skip(0) =~= b@);
    while i < a.len() && i < b.len()
        invariant
            i <= a@.len(),
            i <= b@.len(),
            bytes_lt(a@, b@) == bytes_lt(a@.skip(i as int), b@.skip(i as int)),
        decreases a@.len() - i,
    {
        if a[i] < b[i] {
            return true;
        }
        if a[i] > b[i] {
            return false;
        }
        assert(a@.skip(i as int).drop_first() =~= a@.skip(i + 1));
        assert(b@.skip(i as int).drop_first() =~= b@.skip(i + 1));
        i = i + 1;
    }
    i == a.len() && i < b.len()
}

/// Whether two byte strings are equal.
fn bytes_equal(a: &[u8], b: &[u8]) -> (r: bool)
    ensures
        r == (a@ == b@),
{
    if a.len() != b.len() {
        return false;
    }
    let mut i: usize = 0;
    while i < a.len()
        invariant
            a@.len() == b@.len(),
            i <= a@.len(),
            forall|j: int| 0 <= j < i ==> a@[j] == b@[j],
        decreases a@.len() - i,
    {
        if a[i] != b[i] {
            return false;
        }
        i = i + 1;
    }
    assert(a@ =~= b@);
    true
}

// ---------------------------------------------------------------------
// The symbol table.

/// One entry of the symbol table: what is known of a (name, address).
pub struct Meta {
    pub name: String,
    pub address: u64,
    pub size: u64,
    pub kind: ObjSymbolKind,
    pub is_global: bool,
}

/// [`Meta`] by views.
pub struct MetaV {
    pub name: Seq<char>,
    pub address: u64,
    pub size: u64,
    pub kind: ObjSymbolKind,
    pub is_global: bool,
}

impl View for Meta {
    type V = MetaV;

    open spec fn view(&self) -> MetaV {
        MetaV {
            name: self.name@,
            address: self.address,
            size: self.size,
            kind: self.kind,
            is_global: self.is_global,
        }
    }
}

/// The key of a table entry.
pub open spec fn meta_key(m: MetaV) -> (Seq<u8>, u64) {
    (encode_utf8(m.name), m.address)
}

/// A symbol goes into the table when it is a definition, not undefined,
/// and has a non-empty textual name.
pub open spec fn eligible(s: SymbolRecordV) -> bool {
    &&& s.is_definition
    &&& !s.is_undefined
    &&& s.name is Some
    &&& s.name.unwrap().len() > 0
}

/// The table entry of an eligible symbol.
pub open spec fn meta_of(s: SymbolRecordV) -> MetaV {
    MetaV {
        name: s.name.unwrap(),
        address: s.address,
        size: s.size,
        kind: s.kind,
        is_global: s.is_global,
    }
}

/// Adds an entry to a key-ordered table unless its key is already there.
pub open spec fn meta_insert(t: Seq<MetaV>, e: MetaV) -> Seq<MetaV>
    decreases t.len(),
{
    if t.len() == 0 {
        seq![e]
    } else if meta_key(t[0]) == meta_key(e) {
        t
    } else if key_lt(meta_key(e), meta_key(t[0])) {
        seq![e] + t
    } else {
        seq![t[0]] + meta_insert(t.drop_first(), e)
    }
}

/// The table built from the symbols, in order: each eligible symbol is
/// added unless its key is already there, so the first symbol of a key wins.
pub open spec fn meta_table(syms: Seq<SymbolRecordV>) -> Seq<MetaV>
    decreases syms.len(),
{
    if syms.len() == 0 {
        Seq::empty()
    } else {
        let t = meta_table(syms.drop_last());
        if eligible(syms.last()) {
            meta_insert(t, meta_of(syms.last()))
        } else {
            t
        }
    }
}

/// The table is in strictly increasing key order.
pub open spec fn sorted(t: Seq<MetaV>) -> bool {
    forall|i: int, j: int| 0 <= i < j < t.len() ==> key_lt(meta_key(#[trigger] t[i]), meta_key(#[trigger] t[j]))
}

proof fn lemma_meta_insert_at(t: Seq<MetaV>, e: MetaV, p: int)
    requires
        sorted(t),
        0 <= p <= t.len(),
        forall|j: int| 0 <= j < p ==> key_lt(meta_key(#[trigger] t[j]), meta_key(e)),
        p < t.len() ==> !key_lt(meta_key(t[p]), meta_key(e)),
    ensures
        (p < t.len() && meta_key(t[p]) == meta_key(e)) ==> meta_insert(t, e) == t,
        !(p < t.len() && meta_key(t[p]) == meta_key(e)) ==> meta_insert(t, e) == t.insert(p, e),
    decreases t.len(),
{
    if t.len() == 0 {
        assert(t.insert(p, e) =~= seq![e]);
    } else {
        lemma_key_order(meta_key(t[0]), meta_key(e), meta_key(e));
        if meta_key(t[0]) == meta_key(e) {
            assert(p == 0);
        } else if key_lt(meta_key(e), meta_key(t[0])) {
            assert(p == 0);
            assert(t.insert(0, e) =~= seq![e] + t);
        } else {
            assert(p >= 1);
            let u = t.drop_first();
            assert forall|i: int, j: int| 0 <= i < j < u.len() implies key_lt(
                meta_key(#[trigger] u[i]),
                meta_key(#[trigger] u[j]),
            ) by {
                assert(u[i] == t[i + 1] && u[j] == t[j + 1]);
            }
            assert forall|j: int| 0 <= j < p - 1 implies key_lt(meta_key(#[trigger] u[j]), meta_key(e)) by {
                assert(u[j] == t[j + 1]);
            }
            lemma_meta_insert_at(u, e, p - 1);
            assert(t =~= seq![t[0]] + u);
            if !(p < t.len() && meta_key(t[p]) == meta_key(e)) {
                assert(seq![t[0]] + u.insert(p - 1, e) =~= t.insert(p, e));
            }
        }
    }
}

proof fn lemma_insert_sorted(t: Seq<MetaV>, e: MetaV, p: int)
    requires
        sorted(t),
        0 <= p <= t.len(),
        forall|j: int| 0 <= j < p ==> key_lt(meta_key(#[trigger] t[j]), meta_key(e)),
        p < t.len() ==> !key_lt(meta_key(t[p]), meta_key(e)),
        !(p < t.len() && meta_key(t[p]) == meta_key(e)),
    ensures
        sorted(t.insert(p, e)),
{
    let s = t.insert(p, e);
    if p < t.len() {
        lemma_key_order(meta_key(t[p]), meta_key(e), meta_key(e));
    }
    assert forall|i: int, j: int| 0 <= i < j < s.len() implies key_lt(
        meta_key(#[trigger] s[i]),
        meta_key(#[trigger] s[j]),
    ) by {
        if i < p && j == p {
        } else if i < p && j > p {
            assert(s[j] == t[j - 1]);
            if j - 1 == p {
                lemma_key_order(meta_key(t[i]), meta_key(e), meta_key(t[p]));
            } else {
                lemma_key_order(meta_key(t[i]), meta_key(t[p]), meta_key(t[j - 1]));
            }
        } else if i == p {
            assert(s[j] == t[j - 1]);
            if j - 1 > p {
                lemma_key_order(meta_key(e), meta_key(t[p]), meta_key(t[j - 1]));
            }
        } else if i > p {
            assert(s[i] == t[i - 1] && s[j] == t[j - 1]);
        } else {
            assert(s[i] == t[i] && s[j] == t[j]);
        }
    }
}

/// The first position whose key does not sort before `e`'s.
pub open spec fn insert_pos(t: Seq<MetaV>, e: MetaV) -> int
    decreases t.len(),
{
    if t.len() == 0 || !key_lt(meta_key(t[0]), meta_key(e)) {
        0
    } else {
        1 + insert_pos(t.drop_first(), e)
    }
}

proof fn lemma_insert_pos(t: Seq<MetaV>, e: MetaV)
    requires
        sorted(t),
    ensures
        0 <= insert_pos(t, e) <= t.len(),
        forall|j: int| 0 <= j < insert_pos(t, e) ==> key_lt(meta_key(#[trigger] t[j]), meta_key(e)),
        insert_pos(t, e) < t.len() ==> !key_lt(meta_key(t[insert_pos(t, e)]), meta_key(e)),
    decreases t.len(),
{
    if t.len() > 0 && key_lt(meta_key(t[0]), meta_key(e)) {
        let u = t.drop_first();
        assert forall|i: int, j: int| 0 <= i < j < u.len() implies key_lt(
            meta_key(#[trigger] u[i]),
            meta_key(#[trigger] u[j]),
        ) by {
            assert(u[i] == t[i + 1] && u[j] == t[j + 1]);
        }
        lemma_insert_pos(u, e);
        assert forall|j: int| 0 <= j < insert_pos(t, e) implies key_lt(
            meta_key(#[trigger] t[j]),
            meta_key(e),
        ) by {
            if j > 0 {
                assert(t[j] == u[j - 1]);
            }
        }
    }
}

/// Adding an entry keeps a table in strictly increasing key order.
proof fn lemma_meta_insert_sorted(t: Seq<MetaV>, e: MetaV)
    requires
        sorted(t),
    ensures
        sorted(meta_insert(t, e)),
{
    lemma_insert_pos(t, e);
    let p = insert_pos(t, e);
    lemma_meta_insert_at(t, e, p);
    if !(p < t.len() && meta_key(t[p]) == meta_key(e)) {
        lemma_insert_sorted(t, e, p);
    }
}

/// The symbol table is in strictly increasing (name bytes, address) order,
/// so no key appears in it twice.
pub proof fn law_symbol_table_sorted(syms: Seq<SymbolRecordV>)
    ensures
        sorted(meta_table(syms)),
    decreases syms.len(),
{
    if syms.len() > 0 {
        law_symbol_table_sorted(syms.drop_last());
        if eligible(syms.last()) {
            lemma_meta_insert_sorted(meta_table(syms.drop_last()), meta_of(syms.last()));
        }
    }
}

/// Some entry of the table has key `k`.
pub open spec fn table_has_key(t: Seq<MetaV>, k: (Seq<u8>, u64)) -> bool {
    exists|i: int| 0 <= i < t.len() && meta_key(#[trigger] t[i]) == k
}

/// Some eligible symbol has key `k`.
pub open spec fn symbols_have_key(syms: Seq<SymbolRecordV>, k: (Seq<u8>, u64)) -> bool {
    exists|i: int| 0 <= i < syms.len() && eligible(#[trigger] syms[i]) && meta_key(meta_of(syms[i])) == k
}

/// Symbol `i` is eligible and no earlier eligible symbol has its key.
pub open spec fn first_of_key(syms: Seq<SymbolRecordV>, i: int) -> bool {
    &&& 0 <= i < syms.len()
    &&& eligible(syms[i])
    &&& forall|j: int|
        0 <= j < i && eligible(#[trigger] syms[j]) ==> meta_key(meta_of(syms[j])) != meta_key(
            meta_of(syms[i]),
        )
}

proof fn lemma_meta_insert_contents(t: Seq<MetaV>, e: MetaV)
    requires
        sorted(t),
    ensures
        forall|x: MetaV|
            #[trigger] meta_insert(t, e).contains(x) <==> (t.contains(x) || (x == e && !table_has_key(
                t,
                meta_key(e),
            ))),
{
    lemma_insert_pos(t, e);
    let p = insert_pos(t, e);
    lemma_meta_insert_at(t, e, p);
    if p < t.len() && meta_key(t[p]) == meta_key(e) {
        assert(table_has_key(t, meta_key(e)));
    } else {
        assert(!table_has_key(t, meta_key(e))) by {
            if table_has_key(t, meta_key(e)) {
                let q = choose|q: int| 0 <= q < t.len() && meta_key(#[trigger] t[q]) == meta_key(e);
                lemma_key_order(meta_key(e), meta_key(e), meta_key(e));
                if q > p {
                    lemma_key_order(meta_key(t[p]), meta_key(e), meta_key(e));
                    lemma_key_order(meta_key(e), meta_key(t[p]), meta_key(t[q]));
                }
            }
        }
        let s = t.insert(p, e);
        assert forall|x: MetaV| #[trigger] s.contains(x) <==> (t.contains(x) || x == e) by {
            if s.contains(x) {
                let i = choose|i: int| 0 <= i < s.len() && s[i] == x;
                if i < p {
                    assert(t[i] == x);
                } else if i > p {
                    assert(t[i - 1] == x);
                }
            }
            if t.contains(x) {
                let i = choose|i: int| 0 <= i < t.len() && t[i] == x;
                if i < p {
                    assert(s[i] == x);
                } else {
                    assert(s[i + 1] == x);
                }
            }
            if x == e {
                assert(s[p] == x);
            }
        }
    }
}

proof fn lemma_meta_insert_keys(t: Seq<MetaV>, e: MetaV, k: (Seq<u8>, u64))
    requires
        sorted(t),
    ensures
        table_has_key(meta_insert(t, e), k) <==> (table_has_key(t, k) || meta_key(e) == k),
{
    lemma_meta_insert_contents(t, e);
    let u = meta_insert(t, e);
    if table_has_key(u, k) {
        let i = choose|i: int| 0 <= i < u.len() && meta_key(#[trigger] u[i]) == k;
        assert(u.contains(u[i]));
        if t.contains(u[i]) {
            let j = choose|j: int| 0 <= j < t.len() && t[j] == u[i];
            assert(meta_key(t[j]) == k);
        }
    }
    if table_has_key(t, k) {
        let j = choose|j: int| 0 <= j < t.len() && meta_key(#[trigger] t[j]) == k;
        assert(t.contains(t[j]));
        assert(u.contains(t[j]));
        let i = choose|i: int| 0 <= i < u.len() && u[i] == t[j];
        assert(meta_key(u[i]) == k);
    }
    if meta_key(e) == k && !table_has_key(t, k) {
        assert(u.contains(e));
        let i = choose|i: int| 0 <= i < u.len() && u[i] == e;
        assert(meta_key(u[i]) == k);
    }
}

/// The table holds a key exactly when some eligible symbol has it.
pub proof fn law_symbol_table_keys(syms: Seq<SymbolRecordV>, k: (Seq<u8>, u64))
    ensures
        table_has_key(meta_table(syms), k) <==> symbols_have_key(syms, k),
    decreases syms.len(),
{
    if syms.len() > 0 {
        let p = syms.drop_last();
        law_symbol_table_keys(p, k);
        law_symbol_table_sorted(p);
        if eligible(syms.last()) {
            lemma_meta_insert_keys(meta_table(p), meta_of(syms.last()), k);
        }
        if symbols_have_key(p, k) {
            let i = choose|i: int| 0 <= i < p.len() && eligible(#[trigger] p[i]) && meta_key(meta_of(p[i])) == k;
            assert(syms[i] == p[i]);
        }
        if symbols_have_key(syms, k) {
            let i = choose|i: int| 0 <= i < syms.len() && eligible(#[trigger] syms[i]) && meta_key(meta_of(syms[i])) == k;
            if i < syms.len() - 1 {
                assert(p[i] == syms[i]);
            }
        }
    }
}

/// The table holds an entry exactly when it is the entry of an eligible
/// symbol that no earlier eligible symbol shares a key with: of several
/// symbols with one (name, address), the first one wins.
pub proof fn law_symbol_table_first_wins(syms: Seq<SymbolRecordV>, x: MetaV)
    ensures
        meta_table(syms).contains(x) <==> exists|i: int|
            first_of_key(syms, i) && x == meta_of(#[trigger] syms[i]),
    decreases syms.len(),
{
    if syms.len() > 0 {
        let p = syms.drop_last();
        let n = syms.len() - 1;
        law_symbol_table_first_wins(p, x);
        law_symbol_table_sorted(p);
        assert forall|i: int| 0 <= i < n implies (first_of_key(syms, i) <==> first_of_key(p, i)) by {
            assert(syms[i] == p[i]);
            assert forall|j: int| 0 <= j < i implies #[trigger] syms[j] == p[j] by {}
        }
        if eligible(syms.last()) {
            let e = meta_of(syms.last());
            lemma_meta_insert_contents(meta_table(p), e);
            law_symbol_table_keys(p, meta_key(e));
            assert(first_of_key(syms, n) <==> !symbols_have_key(p, meta_key(e))) by {
                if symbols_have_key(p, meta_key(e)) {
                    let j = choose|j: int| 0 <= j < p.len() && eligible(#[trigger] p[j]) && meta_key(meta_of(p[j])) == meta_key(e);
                    assert(syms[j] == p[j]);
                }
                if !symbols_have_key(p, meta_key(e)) {
                    assert forall|j: int| 0 <= j < n && eligible(#[trigger] syms[j]) implies meta_key(
                        meta_of(syms[j]),
                    ) != meta_key(meta_of(syms[n])) by {
                        assert(p[j] == syms[j]);
                    }
                }
            }
        }
        if exists|i: int| first_of_key(syms, i) && x == meta_of(#[trigger] syms[i]) {
            let i = choose|i: int| first_of_key(syms, i) && x == meta_of(#[trigger] syms[i]);
            if i < n {
                assert(p[i] == syms[i]);
                assert(first_of_key(p, i) && x == meta_of(p[i]));
            }
        }
        if exists|i: int| first_of_key(p, i) && x == meta_of(#[trigger] p[i]) {
            let i = choose|i: int| first_of_key(p, i) && x == meta_of(#[trigger] p[i]);
            assert(syms[i] == p[i]);
            assert(first_of_key(syms, i) && x == meta_of(syms[i]));
        }
    }
}

/// Builds the symbol table from the symbols, in order.
fn build_table(syms: &Vec<SymbolRecord>) -> (t: Vec<Meta>)
    ensures
        t@.map_values(|m: Meta| m@) == meta_table(syms@.map_values(|s: SymbolRecord| s@)),
{
    let ghost sv = syms@.map_values(|s: SymbolRecord| s@);
    let mut t: Vec<Meta> = Vec::new();
    let mut i: usize = 0;
    while i < syms.len()
        invariant
            sv == syms@.map_values(|s: SymbolRecord| s@),
            i <= syms@.len(),
            t@.map_values(|m: Meta| m@) == meta_table(sv.take(i as int)),
            sorted(t@.map_values(|m: Meta| m@)),
        decreases syms@.len() - i,
    {
        let s = &syms[i];
        assert(sv.take(i + 1).drop_last() =~= sv.take(i as int));
        assert(sv.take(i + 1).last() == s@);
        proof {
            law_symbol_table_sorted(sv.take(i as int));
        }
        let ok = s.is_definition && !s.is_undefined && match &s.name {
            Some(n) => !n.as_str().is_empty(),
            None => false,
        };
        if ok {
            let name: &String = match &s.name {
                Some(n) => n,
                None => { return t; },
            };
            let ghost tv = t@.map_values(|m: Meta| m@);
            let e = Meta {
                name: name.clone(),
                address: s.address,
                size: s.size,
                kind: s.kind,
                is_global: s.is_global,
            };
            assert(e@ == meta_of(s@));
            let mut p: usize = 0;
            while p < t.len()
                invariant
                    tv == t@.map_values(|m: Meta| m@),
                    p <= t@.len(),
                    forall|j: int| 0 <= j < p ==> key_lt(meta_key(#[trigger] tv[j]), meta_key(e@)),
                ensures
                    p <= t@.len(),
                    forall|j: int| 0 <= j < p ==> key_lt(meta_key(#[trigger] tv[j]), meta_key(e@)),
                    p < t@.len() ==> !key_lt(meta_key(tv[p as int]), meta_key(e@)),
                decreases t@.len() - p,
            {
                let before = bytes_before(t[p].name.as_str().as_bytes(), e.name.as_str().as_bytes())
                    || (bytes_equal(t[p].name.as_str().as_bytes(), e.name.as_str().as_bytes()) && t[p].address
                    < e.address);
                assert(tv[p as int] == t@[p as int]@);
                if !before {
                    break;
                }
                p = p + 1;
            }
            proof {
                lemma_meta_insert_at(tv, e@, p as int);
            }
            let same = p < t.len() && bytes_equal(t[p].name.as_str().as_bytes(), e.name.as_str().as_bytes())
                && t[p].address == e.address;
            if !same {
                proof {
                    lemma_insert_sorted(tv, e@, p as int);
                }
                t.insert(p, e);
                assert(t@.map_values(|m: Meta| m@) =~= tv.insert(p as int, e@));
            }
        }
        i = i + 1;
    }
    assert(sv.take(syms@.len() as int) =~= sv);
    t
}

// ---------------------------------------------------------------------
// Reporting.

/// A symbol to report: name, address, size and kind.
pub struct Cand {
    pub name: Seq<char>,
    pub address: u64,
    pub size: u64,
    pub kind: ObjSymbolKind,
}

/// The table's global entries, in key order, as report candidates.
pub open spec fn global_candidates(t: Seq<MetaV>) -> Seq<Cand>
    decreases t.len(),
{
    if t.len() == 0 {
        Seq::empty()
    } else {
        let rest = global_candidates(t.drop_last());
        let m = t.last();
        if m.is_global {
            rest.push(Cand { name: m.name, address: m.address, size: m.size, kind: m.kind })
        } else {
            rest
        }
    }
}

/// The table entry with key `k`, if any (the first one).
pub open spec fn meta_lookup(t: Seq<MetaV>, k: (Seq<u8>, u64)) -> Option<MetaV>
    decreases t.len(),
{
    if t.len() == 0 {
        None
    } else if meta_key(t[0]) == k {
        Some(t[0])
    } else {
        meta_lookup(t.drop_first(), k)
    }
}

/// The exports with a non-empty UTF-8 name, in file order, with the size
/// and kind the table knows for (name, address), or 0 and unknown.
pub open spec fn export_candidates(t: Seq<MetaV>, ex: Seq<ExportRecordV>) -> Seq<Cand>
    decreases ex.len(),
{
    if ex.len() == 0 {
        Seq::empty()
    } else {
        let rest = export_candidates(t, ex.drop_last());
        let x = ex.last();
        if valid_utf8(x.name) && decode_utf8(x.name).len() > 0 {
            let found = meta_lookup(t, (x.name, x.address));
            rest.push(
                Cand {
                    name: decode_utf8(x.name),
                    address: x.address,
                    size: match found {
                        Some(m) => m.size,
                        None => 0,
                    },
                    kind: match found {
                        Some(m) => m.kind,
                        None => ObjSymbolKind::Unknown,
                    },
                },
            )
        } else {
            rest
        }
    }
}

/// What an object reports, before dropping repeated (name, address) pairs.
pub open spec fn candidates(info: ObjectInfoV) -> Seq<Cand> {
    let t = meta_table(info.symbols);
    if info.exports.len() == 0 {
        global_candidates(t)
    } else {
        export_candidates(t, info.exports)
    }
}

/// Some earlier candidate has this name and address.
pub open spec fn has_key(d: Seq<Cand>, name: Seq<char>, address: u64) -> bool {
    exists|i: int| 0 <= i < d.len() && (#[trigger] d[i]).name == name && d[i].address == address
}

/// The candidates with every repeat of a (name, address) pair dropped.
pub open spec fn first_occurrences(c: Seq<Cand>) -> Seq<Cand>
    decreases c.len(),
{
    if c.len() == 0 {
        Seq::empty()
    } else {
        let d = first_occurrences(c.drop_last());
        if has_key(d, c.last().name, c.last().address) {
            d
        } else {
            d.push(c.last())
        }
    }
}

/// How a symbol kind is reported.
pub open spec fn sym_kind_of(k: ObjSymbolKind) -> SymKind {
    match k {
        ObjSymbolKind::Text => SymKind::Text,
        ObjSymbolKind::Data => SymKind::Data,
        _ => SymKind::Other,
    }
}

/// The `symbol` line of a candidate.
pub open spec fn symbol_line(c: Cand) -> LineV {
    LineV::Symbol { name: c.name, sym_kind: sym_kind_of(c.kind), address: c.address, size: c.size }
}

/// How many reported symbols have this reported kind.
pub open spec fn count_kind(d: Seq<Cand>, k: SymKind) -> nat
    decreases d.len(),
{
    if d.len() == 0 {
        0
    } else {
        count_kind(d.drop_last(), k) + if sym_kind_of(d.last().kind) == k {
            1nat
        } else {
            0nat
        }
    }
}

/// The lines `inspect` reports for an object: one `symbol` line per
/// distinct (name, address), then the summary.
pub open spec fn inspect_lines(info: ObjectInfoV) -> Seq<LineV> {
    let d = first_occurrences(candidates(info));
    d.map_values(|c: Cand| symbol_line(c)).push(
        LineV::Summary {
            format: info.format,
            total: d.len() as usize,
            functions: count_kind(d, SymKind::Text) as usize,
            data: count_kind(d, SymKind::Data) as usize,
        },
    )
}

/// No (name, address) pair is reported twice, and every candidate's pair
/// is reported.
pub proof fn law_reported_once(c: Seq<Cand>)
    ensures
        forall|i: int, j: int|
            0 <= i < j < first_occurrences(c).len() ==> !(#[trigger] first_occurrences(c)[i].name
                == #[trigger] first_occurrences(c)[j].name && first_occurrences(c)[i].address
                == first_occurrences(c)[j].address),
        forall|k: int| 0 <= k < c.len() ==> has_key(first_occurrences(c), #[trigger] c[k].name, c[k].address),
    decreases c.len(),
{
    if c.len() > 0 {
        let p = c.drop_last();
        law_reported_once(p);
        let d = first_occurrences(p);
        assert forall|k: int| 0 <= k < c.len() implies has_key(
            first_occurrences(c),
            #[trigger] c[k].name,
            c[k].address,
        ) by {
            if k < c.len() - 1 {
                assert(c[k] == p[k]);
                let w = choose|i: int| 0 <= i < d.len() && (#[trigger] d[i]).name == p[k].name && d[i].address == p[k].address;
                assert(first_occurrences(c)[w] == d[w]);
            } else if !has_key(d, c.last().name, c.last().address) {
                assert(first_occurrences(c)[d.len() as int] == c.last());
            }
        }
    }
}

/// The summary's counts: functions and data are among the total.
pub proof fn law_summary_counts(d: Seq<Cand>)
    ensures
        count_kind(d, SymKind::Text) + count_kind(d, SymKind::Data) <= d.len(),
    decreases d.len(),
{
    if d.len() > 0 {
        law_summary_counts(d.drop_last());
    }
}

/// A report candidate in exec form.
pub struct CandE {
    pub name: String,
    pub address: u64,
    pub size: u64,
    pub kind: ObjSymbolKind,
}

impl View for CandE {
    type V = Cand;

    open spec fn view(&self) -> Cand {
        Cand { name: self.name@, address: self.address, size: self.size, kind: self.kind }
    }
}

/// The table's global entries, in key order.
fn globals(t: &Vec<Meta>) -> (r: Vec<CandE>)
    ensures
        r@.map_values(|c: CandE| c@) == global_candidates(t@.map_values(|m: Meta| m@)),
{
    let ghost tv = t@.map_values(|m: Meta| m@);
    let mut r: Vec<CandE> = Vec::new();
    let mut i: usize = 0;
    while i < t.len()
        invariant
            tv == t@.map_values(|m: Meta| m@),
            i <= t@.len(),
            r@.map_values(|c: CandE| c@) == global_candidates(tv.take(i as int)),
        decreases t@.len() - i,
    {
        assert(tv.take(i + 1).drop_last() =~= tv.take(i as int));
        assert(tv.take(i + 1).last() == t@[i as int]@);
        let m = &t[i];
        if m.is_global {
            let ghost before = r@.map_values(|c: CandE| c@);
            r.push(CandE { name: m.name.clone(), address: m.address, size: m.size, kind: m.kind });
            assert(r@.map_values(|c: CandE| c@) =~= before.push(
                Cand { name: m.name@, address: m.address, size: m.size, kind: m.kind },
            ));
        }
        i = i + 1;
    }
    assert(tv.take(t@.len() as int) =~= tv);
    r
}

/// The table entry with this name and address.
fn lookup(t: &Vec<Meta>, name: &[u8], address: u64) -> (r: Option<usize>)
    ensures
        match r {
            Some(i) => i < t@.len() && meta_lookup(t@.map_values(|m: Meta| m@), (name@, address))
                == Some(t@[i as int]@),
            None => meta_lookup(t@.map_values(|m: Meta| m@), (name@, address)) is None,
        },
{
    let ghost tv = t@.map_values(|m: Meta| m@);
    let mut i: usize = 0;
    assert(tv.skip(0) =~= tv);
    while i < t.len()
        invariant
            tv == t@.map_values(|m: Meta| m@),
            i <= t@.len(),
            meta_lookup(tv, (name@, address)) == meta_lookup(tv.skip(i as int), (name@, address)),
        decreases t@.len() - i,
    {
        assert(tv.skip(i as int)[0] == t@[i as int]@);
        assert(tv.skip(i as int).drop_first() =~= tv.skip(i + 1));
        if bytes_equal(t[i].name.as_str().as_bytes(), name) && t[i].address == address {
            return Some(i);
        }
        i = i + 1;
    }
    None
}

/// The exports to report, with what the table knows of them.
fn export_list(t: &Vec<Meta>, ex: &Vec<ExportRecord>) -> (r: Vec<CandE>)
    ensures
        r@.map_values(|c: CandE| c@) == export_candidates(
            t@.map_values(|m: Meta| m@),
            ex@.map_values(|e: ExportRecord| e@),
        ),
{
    let ghost tv = t@.map_values(|m: Meta| m@);
    let ghost xv = ex@.map_values(|e: ExportRecord| e@);
    let mut r: Vec<CandE> = Vec::new();
    let mut i: usize = 0;
    while i < ex.len()
        invariant
            tv == t@.map_values(|m: Meta| m@),
            xv == ex@.map_values(|e: ExportRecord| e@),
            i <= ex@.len(),
            r@.map_values(|c: CandE| c@) == export_candidates(tv, xv.take(i as int)),
        decreases ex@.len() - i,
    {
        assert(xv.take(i + 1).drop_last() =~= xv.take(i as int));
        assert(xv.take(i + 1).last() == ex@[i as int]@);
        let x = &ex[i];
        let name = utf8_or_empty(x.name.as_slice());
        if !name.as_str().is_empty() {
            let ghost before = r@.map_values(|c: CandE| c@);
            proof {
                if !valid_utf8(x.name@) {
                    assert(name@.len() == 0);
                }
            }
            let (size, kind) = match lookup(t, x.name.as_slice(), x.address) {
                Some(j) => (t[j].size, t[j].kind),
                None => (0, ObjSymbolKind::Unknown),
            };
            r.push(CandE { name, address: x.address, size, kind });
            assert(r@.map_values(|c: CandE| c@) =~= export_candidates(tv, xv.take(i + 1)));
        } else {
            proof {
                if valid_utf8(x.name@) {
                    assert(decode_utf8(x.name@).len() == 0);
                }
            }
        }
        i = i + 1;
    }
    assert(xv.take(ex@.len() as int) =~= xv);
    r
}

/// The report candidate of one export with a non-empty UTF-8 name.
spec fn export_cand(t: Seq<MetaV>, x: ExportRecordV) -> Cand {
    let found = meta_lookup(t, (x.name, x.address));
    Cand {
        name: decode_utf8(x.name),
        address: x.address,
        size: match found {
            Some(m) => m.size,
            None => 0,
        },
        kind: match found {
            Some(m) => m.kind,
            None => ObjSymbolKind::Unknown,
        },
    }
}

/// An export with a non-empty UTF-8 name.
spec fn reportable(x: ExportRecordV) -> bool {
    valid_utf8(x.name) && decode_utf8(x.name).len() > 0
}

proof fn lemma_export_candidates_elems(t: Seq<MetaV>, ex: Seq<ExportRecordV>)
    ensures
        forall|k: int|
            0 <= k < ex.len() && reportable(ex[k]) ==> export_candidates(t, ex).contains(
                #[trigger] export_cand(t, ex[k]),
            ),
        forall|e: Cand|
            #[trigger] export_candidates(t, ex).contains(e) ==> exists|k: int|
                0 <= k < ex.len() && reportable(ex[k]) && e == export_cand(t, ex[k]),
    decreases ex.len(),
{
    if ex.len() > 0 {
        let p = ex.drop_last();
        lemma_export_candidates_elems(t, p);
        let rest = export_candidates(t, p);
        let cur = export_candidates(t, ex);
        assert forall|k: int|
            0 <= k < ex.len() && reportable(ex[k]) implies cur.contains(
            #[trigger] export_cand(t, ex[k]),
        ) by {
            if k < ex.len() - 1 {
                assert(p[k] == ex[k]);
                assert(rest.contains(export_cand(t, p[k])));
                let q = choose|q: int| 0 <= q < rest.len() && rest[q] == export_cand(t, p[k]);
                assert(cur[q] == rest[q]);
            } else {
                assert(cur[cur.len() - 1] == export_cand(t, ex[k]));
            }
        }
        assert forall|e: Cand| #[trigger] cur.contains(e) implies exists|k: int|
            0 <= k < ex.len() && reportable(ex[k]) && e == export_cand(t, ex[k]) by {
            let q = choose|q: int| 0 <= q < cur.len() && cur[q] == e;
            if q < rest.len() {
                assert(rest[q] == e);
                assert(rest.contains(e));
                let k = choose|k: int| 0 <= k < p.len() && reportable(p[k]) && e == export_cand(t, p[k]);
                assert(p[k] == ex[k]);
            } else {
                assert(e == export_cand(t, ex[ex.len() - 1]));
            }
        }
    }
}

proof fn lemma_first_occurrences_subset(c: Seq<Cand>)
    ensures
        forall|d: Cand| #[trigger] first_occurrences(c).contains(d) ==> c.contains(d),
    decreases c.len(),
{
    if c.len() > 0 {
        let p = c.drop_last();
        lemma_first_occurrences_subset(p);
        let f = first_occurrences(c);
        assert forall|d: Cand| #[trigger] f.contains(d) implies c.contains(d) by {
            let q = choose|q: int| 0 <= q < f.len() && f[q] == d;
            let fp = first_occurrences(p);
            if q < fp.len() {
                assert(fp[q] == d);
                assert(fp.contains(d));
                let r = choose|r: int| 0 <= r < p.len() && p[r] == d;
                assert(c[r] == d);
            } else {
                assert(d == c.last());
                assert(c[c.len() - 1] == d);
            }
        }
    }
}

proof fn lemma_meta_lookup_finds(t: Seq<MetaV>, m: MetaV)
    requires
        sorted(t),
        t.contains(m),
    ensures
        meta_lookup(t, meta_key(m)) == Some(m),
    decreases t.len(),
{
    let q = choose|q: int| 0 <= q < t.len() && t[q] == m;
    if q > 0 {
        lemma_key_order(meta_key(t[0]), meta_key(t[0]), meta_key(t[0]));
        assert(key_lt(meta_key(t[0]), meta_key(t[q])));
        let u = t.drop_first();
        assert forall|i: int, j: int| 0 <= i < j < u.len() implies key_lt(
            meta_key(#[trigger] u[i]),
            meta_key(#[trigger] u[j]),
        ) by {
            assert(u[i] == t[i + 1] && u[j] == t[j + 1]);
        }
        assert(u[q - 1] == m);
        lemma_meta_lookup_finds(u, m);
    }
}

proof fn lemma_meta_lookup_none(t: Seq<MetaV>, k: (Seq<u8>, u64))
    requires
        !table_has_key(t, k),
    ensures
        meta_lookup(t, k) is None,
    decreases t.len(),
{
    if t.len() > 0 {
        assert(meta_key(t[0]) != k);
        let u = t.drop_first();
        assert(!table_has_key(u, k)) by {
            if table_has_key(u, k) {
                let i = choose|i: int| 0 <= i < u.len() && meta_key(#[trigger] u[i]) == k;
                assert(t[i + 1] == u[i]);
            }
        }
        lemma_meta_lookup_none(u, k);
    }
}

/// In export mode, each reportable export is reported by a `symbol` line
/// built from its own name, address and table entry.
proof fn lemma_export_line(info: ObjectInfoV, i: int)
    requires
        info.exports.len() > 0,
        0 <= i < info.exports.len(),
        reportable(info.exports[i]),
    ensures
        inspect_lines(info).contains(
            symbol_line(export_cand(meta_table(info.symbols), info.exports[i])),
        ),
{
    let t = meta_table(info.symbols);
    let ex = info.exports;
    let x = ex[i];
    let c = export_cand(t, x);
    let cs = candidates(info);
    lemma_export_candidates_elems(t, ex);
    assert(cs.contains(c));
    let k0 = choose|k: int| 0 <= k < cs.len() && cs[k] == c;
    law_reported_once(cs);
    let f = first_occurrences(cs);
    assert(has_key(f, cs[k0].name, cs[k0].address));
    let w = choose|w: int| 0 <= w < f.len() && (#[trigger] f[w]).name == c.name && f[w].address == c.address;
    let d = f[w];
    lemma_first_occurrences_subset(cs);
    assert(f.contains(d));
    assert(cs.contains(d));
    let k = choose|k: int| 0 <= k < ex.len() && reportable(ex[k]) && d == export_cand(t, ex[k]);
    vstd::utf8::decode_utf8_encode_utf8(ex[k].name);
    vstd::utf8::decode_utf8_encode_utf8(x.name);
    assert(ex[k].name == x.name);
    assert(d == c);
    let lines = inspect_lines(info);
    assert(lines[w] == symbol_line(c));
}

/// An export that a defined, named symbol of the file also describes (same
/// name and address) is reported with that symbol's size and kind, taken
/// from the first such symbol: a function as `function`, a data object as
/// `data`.
pub proof fn law_export_has_symbol_metadata(info: ObjectInfoV, i: int, j: int)
    requires
        info.exports.len() > 0,
        0 <= i < info.exports.len(),
        valid_utf8(info.exports[i].name),
        decode_utf8(info.exports[i].name).len() > 0,
        first_of_key(info.symbols, j),
        encode_utf8(info.symbols[j].name.unwrap()) == info.exports[i].name,
        info.symbols[j].address == info.exports[i].address,
    ensures
        inspect_lines(info).contains(
            LineV::Symbol {
                name: decode_utf8(info.exports[i].name),
                sym_kind: if info.symbols[j].kind == ObjSymbolKind::Text {
                    SymKind::Text
                } else if info.symbols[j].kind == ObjSymbolKind::Data {
                    SymKind::Data
                } else {
                    SymKind::Other
                },
                address: info.exports[i].address,
                size: info.symbols[j].size,
            },
        ),
{
    let t = meta_table(info.symbols);
    let m = meta_of(info.symbols[j]);
    law_symbol_table_first_wins(info.symbols, m);
    law_symbol_table_sorted(info.symbols);
    assert(t.contains(m));
    lemma_meta_lookup_finds(t, m);
    lemma_export_line(info, i);
}

/// An export that no defined, named symbol of the file describes (same
/// name and address) is reported with size 0 and kind `other`.
pub proof fn law_export_without_symbol(info: ObjectInfoV, i: int)
    requires
        info.exports.len() > 0,
        0 <= i < info.exports.len(),
        valid_utf8(info.exports[i].name),
        decode_utf8(info.exports[i].name).len() > 0,
        !symbols_have_key(info.symbols, (info.exports[i].name, info.exports[i].address)),
    ensures
        inspect_lines(info).contains(
            LineV::Symbol {
                name: decode_utf8(info.exports[i].name),
                sym_kind: SymKind::Other,
                address: info.exports[i].address,
                size: 0,
            },
        ),
{
    let k = (info.exports[i].name, info.exports[i].address);
    law_symbol_table_keys(info.symbols, k);
    lemma_meta_lookup_none(meta_table(info.symbols), k);
    lemma_export_line(info, i);
}

/// Reports the candidates, each (name, address) once, then the summary.
fn report(w: &mut Outbox, format: BinFormat, c: Vec<CandE>)
    ensures
        final(w)@ == old(w)@ + ({
            let d = first_occurrences(c@.map_values(|x: CandE| x@));
            d.map_values(|x: Cand| symbol_line(x)).push(
                LineV::Summary {
                    format,
                    total: d.len() as usize,
                    functions: count_kind(d, SymKind::Text) as usize,
                    data: count_kind(d, SymKind::Data) as usize,
                },
            )
        }),
{
    let ghost cv = c@.map_values(|x: CandE| x@);
    let mut seen: Vec<CandE> = Vec::new();
    let mut functions: usize = 0;
    let mut data: usize = 0;
    let mut i: usize = 0;
    while i < c.len()
        invariant
            cv == c@.map_values(|x: CandE| x@),
            i <= c@.len(),
            seen@.len() <= i,
            seen@.map_values(|x: CandE| x@) == first_occurrences(cv.take(i as int)),
            functions == count_kind(first_occurrences(cv.take(i as int)), SymKind::Text),
            data == count_kind(first_occurrences(cv.take(i as int)), SymKind::Data),
            functions <= seen@.len(),
            data <= seen@.len(),
            w@ == old(w)@ + first_occurrences(cv.take(i as int)).map_values(
                |x: Cand| symbol_line(x),
            ),
        decreases c@.len() - i,
    {
        let ghost sv = seen@.map_values(|x: CandE| x@);
        assert(cv.take(i + 1).drop_last() =~= cv.take(i as int));
        assert(cv.take(i + 1).last() == c@[i as int]@);
        let x = &c[i];
        let mut found = false;
        let mut j: usize = 0;
        while j < seen.len()
            invariant
                sv == seen@.map_values(|x: CandE| x@),
                j <= seen@.len(),
                !found ==> forall|k: int| 0 <= k < j ==> !((#[trigger] sv[k]).name == x.name@ && sv[k].address == x.address),
                found ==> has_key(sv, x.name@, x.address),
            ensures
                !found ==> forall|k: int| 0 <= k < sv.len() ==> !((#[trigger] sv[k]).name == x.name@ && sv[k].address == x.address),
                found ==> has_key(sv, x.name@, x.address),
            decreases seen@.len() - j,
        {
            assert(sv[j as int] == seen@[j as int]@);
            if seen[j].name.eq(&x.name) && seen[j].address == x.address {
                found = true;
                break;
            }
            j = j + 1;
        }
        if !found {
            let ghost old_lines = w@;
            let sk = match x.kind {
                ObjSymbolKind::Text => SymKind::Text,
                ObjSymbolKind::Data => SymKind::Data,
                _ => SymKind::Other,
            };
            match sk {
                SymKind::Text => { functions = functions + 1; },
                SymKind::Data => { data = data + 1; },
                SymKind::Other => {},
            }
            w.push(Line::Symbol { name: x.name.clone(), sym_kind: sk, address: x.address, size: x.size });
            seen.push(CandE { name: x.name.clone(), address: x.address, size: x.size, kind: x.kind });
            assert(seen@.map_values(|x: CandE| x@) =~= sv.push(x@));
            assert(first_occurrences(cv.take(i + 1)) == sv.push(x@));
            assert(sv.push(x@).drop_last() =~= sv);
            assert(sv.push(x@).map_values(|y: Cand| symbol_line(y)) =~= sv.map_values(
                |y: Cand| symbol_line(y),
            ).push(symbol_line(x@)));
        }
        i = i + 1;
    }
    assert(cv.take(c@.len() as int) =~= cv);
    w.push(Line::Summary { format, total: seen.len(), functions, data });
}

/// Lists the symbols of a parsed object.
pub fn inspect_object(w: &mut Outbox, info: &ObjectInfo)
    ensures
        final(w)@ == old(w)@ + inspect_lines(info@),
{
    let t = build_table(&info.symbols);
    let c = if info.exports.len() == 0 {
        globals(&t)
    } else {
        export_list(&t, &info.exports)
    };
    report(w, info.format, c);
}

/// Why a file could not be inspected.
#[derive(Debug, PartialEq)]
pub enum InspectError {
    /// The file is no object: the parser's words.
    Parse(String),
    /// Its export list could not be read: the reader's words.
    Exports(String),
}

/// Lists the exported symbols of the object file held in `data`.
pub fn inspect(w: &mut Outbox, data: &[u8]) -> (r: Result<(), InspectError>)
    ensures
        match object_contents(data@) {
            ObjectReadV::Parsed(info) => r is Ok && final(w)@ == old(w)@ + inspect_lines(info),
            ObjectReadV::ParseFailed(e) => r matches Err(InspectError::Parse(m)) && m@ == e
                && final(w)@ == old(w)@,
            ObjectReadV::ExportsFailed(e) => r matches Err(InspectError::Exports(m)) && m@ == e
                && final(w)@ == old(w)@,
        },
{
    match read_object(data) {
        ObjectRead::Parsed(info) => {
            inspect_object(w, &info);
            Ok(())
        },
        ObjectRead::ParseFailed(e) => Err(InspectError::Parse(e)),
        ObjectRead::ExportsFailed(e) => Err(InspectError::Exports(e)),
    }
}

} // verus!
