//! The database engine as this library uses it: its types, one wrapper per
//! engine function, and the verified logic of each operation around them.
use vstd::prelude::*;
use std::sync::Arc;
use vstd::multiset::Multiset;
use vstd::string::StringExecFns;
use crate::error::{BoundaryError, EngineError};
use crate::filter::{
    no_nul, tag_field, text_cost, texts_cost, texts_view, FilterDraft, DATA_ROOM, ELEM_ROOM, FIELD_HEADER,
    MAX_FIELDS,
};
use crate::marshal::bytes_to_32;
use crate::payload::{
    note_document, note_json, profile_document, profile_json, NoteRecord, ProfileFields, TagElem,
};
use crate::wire::{encode_key_list, encode_pubkey_list, key_list_bytes, pubkey_list_bytes};

verus! {

#[verifier::external_type_specification]
#[verifier::external_body]
pub struct ExNdb(nostrdb::Ndb);

#[verifier::external_type_specification]
#[verifier::external_body]
pub struct ExTransaction(nostrdb::Transaction);

#[verifier::external_type_specification]
#[verifier::external_body]
pub struct ExFilter(nostrdb::Filter);

#[verifier::external_type_specification]
#[verifier::external_body]
pub struct ExFilterBuilder(nostrdb::FilterBuilder);

#[verifier::external_type_specification]
#[verifier::external_body]
pub struct ExEngineError(nostrdb::Error);

#[verifier::external_type_specification]
#[verifier::external_body]
pub struct ExNote<'a>(nostrdb::Note<'a>);

#[verifier::external_type_specification]
#[verifier::external_body]
pub struct ExProfileRecord<'a>(nostrdb::ProfileRecord<'a>);

#[verifier::external_type_specification]
#[verifier::external_body]
pub struct ExNdbProfile<'a>(nostrdb::NdbProfile<'a>);

/// Relies on the variants of nostrdb::Error: `NotFound` and `DbOpenFailed`
/// are told apart from the rest.
#[verifier::external_body]
fn engine_error(e: nostrdb::Error) -> EngineError {
    match e {
        nostrdb::Error::NotFound => EngineError::NotFound,
        nostrdb::Error::DbOpenFailed => EngineError::OpenFailed,
        _ => EngineError::Other,
    }
}

/// Relies on nostrdb::Ndb::new, with the default nostrdb::Config.
#[verifier::external_body]
fn ndb_new(path: &str) -> Result<nostrdb::Ndb, nostrdb::Error> {
    nostrdb::Ndb::new(path, &nostrdb::Config::new())
}

/// Relies on nostrdb::Ndb::process_event.
#[verifier::external_body]
fn ndb_process_event(ndb: &nostrdb::Ndb, json: &str) -> Result<(), nostrdb::Error> {
    ndb.process_event(json)
}

/// Relies on nostrdb::Transaction::new.
#[verifier::external_body]
fn txn_new(ndb: &nostrdb::Ndb) -> Result<nostrdb::Transaction, nostrdb::Error> {
    nostrdb::Transaction::new(ndb)
}

/// Relies on nostrdb::Ndb::get_note_by_id.
#[verifier::external_body]
fn ndb_note_by_id<'a>(ndb: &nostrdb::Ndb, txn: &'a nostrdb::Transaction, id: &[u8; 32]) -> Result<
    nostrdb::Note<'a>,
    nostrdb::Error,
> {
    ndb.get_note_by_id(txn, id)
}

/// Relies on nostrdb::Ndb::get_note_by_key.
#[verifier::external_body]
fn ndb_note_by_key<'a>(ndb: &nostrdb::Ndb, txn: &'a nostrdb::Transaction, key: u64) -> Result<
    nostrdb::Note<'a>,
    nostrdb::Error,
> {
    ndb.get_note_by_key(txn, nostrdb::NoteKey::new(key))
}

/// Relies on nostrdb::Note::id.
#[verifier::external_body]
fn note_id(n: &nostrdb::Note) -> [u8; 32] {
    *n.id()
}

/// Relies on nostrdb::Note::pubkey.
#[verifier::external_body]
fn note_pubkey(n: &nostrdb::Note) -> [u8; 32] {
    *n.pubkey()
}

/// Relies on nostrdb::Note::kind.
#[verifier::external_body]
fn note_kind(n: &nostrdb::Note) -> u32 {
    n.kind()
}

/// Relies on nostrdb::Note::created_at.
#[verifier::external_body]
fn note_created_at(n: &nostrdb::Note) -> u64 {
    n.created_at()
}

/// Relies on nostrdb::Note::content.
#[verifier::external_body]
fn note_content(n: &nostrdb::Note) -> String {
    n.content().to_string()
}

/// Relies on nostrdb::Note::sig.
#[verifier::external_body]
fn note_sig(n: &nostrdb::Note) -> [u8; 64] {
    *n.sig()
}

/// Relies on nostrdb::Note::tags, nostrdb::Tag::get_unchecked and
/// nostrdb::NdbStr::variant: every element of every tag, in order, as the
/// text or the packed 32-byte id the engine stores.
#[verifier::external_body]
fn note_tags(n: &nostrdb::Note) -> Vec<Vec<TagElem>> {
    n.tags().iter().map(|t| (0..t.count()).map(|i| match t.get_unchecked(i).variant() {
        nostrdb::NdbStrVariant::Str(s) => TagElem::Text(s.to_string()),
        nostrdb::NdbStrVariant::Id(id) => TagElem::Id(*id),
    }).collect()).collect()
}

/// Relies on nostrdb::Ndb::get_profile_by_pubkey.
#[verifier::external_body]
fn ndb_profile_by_pubkey<'a>(
    ndb: &nostrdb::Ndb,
    txn: &'a nostrdb::Transaction,
    pk: &[u8; 32],
) -> Result<nostrdb::ProfileRecord<'a>, nostrdb::Error> {
    ndb.get_profile_by_pubkey(txn, pk)
}

/// Relies on nostrdb::ProfileRecord::record and NdbProfileRecord::profile:
/// the profile a record holds, if any.
#[verifier::external_body]
fn record_profile<'a>(r: &nostrdb::ProfileRecord<'a>) -> Option<nostrdb::NdbProfile<'a>> {
    r.record().profile()
}

/// Relies on nostrdb::NdbProfile::name.
#[verifier::external_body]
fn profile_name(p: &nostrdb::NdbProfile) -> Option<String> {
    p.name().map(|s| s.to_string())
}

/// Relies on nostrdb::NdbProfile::display_name.
#[verifier::external_body]
fn profile_display_name(p: &nostrdb::NdbProfile) -> Option<String> {
    p.display_name().map(|s| s.to_string())
}

/// Relies on nostrdb::NdbProfile::about.
#[verifier::external_body]
fn profile_about(p: &nostrdb::NdbProfile) -> Option<String> {
    p.about().map(|s| s.to_string())
}

/// Relies on nostrdb::NdbProfile::picture.
#[verifier::external_body]
fn profile_picture(p: &nostrdb::NdbProfile) -> Option<String> {
    p.picture().map(|s| s.to_string())
}

/// Relies on nostrdb::NdbProfile::banner.
#[verifier::external_body]
fn profile_banner(p: &nostrdb::NdbProfile) -> Option<String> {
    p.banner().map(|s| s.to_string())
}

/// Relies on nostrdb::NdbProfile::website.
#[verifier::external_body]
fn profile_website(p: &nostrdb::NdbProfile) -> Option<String> {
    p.website().map(|s| s.to_string())
}

/// Relies on nostrdb::NdbProfile::lud06.
#[verifier::external_body]
fn profile_lud06(p: &nostrdb::NdbProfile) -> Option<String> {
    p.lud06().map(|s| s.to_string())
}

/// Relies on nostrdb::NdbProfile::lud16.
#[verifier::external_body]
fn profile_lud16(p: &nostrdb::NdbProfile) -> Option<String> {
    p.lud16().map(|s| s.to_string())
}

/// Relies on nostrdb::NdbProfile::nip05.
#[verifier::external_body]
fn profile_nip05(p: &nostrdb::NdbProfile) -> Option<String> {
    p.nip05().map(|s| s.to_string())
}

/// Relies on nostrdb::Ndb::query with the one filter `f`: the key of each
/// result, at most `limit` of them, the capacity handed to the engine. A
/// negative bound would be taken as a huge capacity.
#[verifier::external_body]
fn ndb_query(
    ndb: &nostrdb::Ndb,
    txn: &nostrdb::Transaction,
    f: &nostrdb::Filter,
    limit: i32,
) -> (r: Result<Vec<u64>, nostrdb::Error>)
    requires
        limit >= 0,
    ensures
        r matches Ok(keys) ==> keys@.len() <= limit,
{
    ndb.query(txn, std::slice::from_ref(f), limit).map(
        |rs| rs.iter().map(|r| r.note_key.as_u64()).collect(),
    )
}

/// Relies on nostrdb::Ndb::search_profile: the pubkeys found.
#[verifier::external_body]
fn ndb_search_profile(
    ndb: &nostrdb::Ndb,
    txn: &nostrdb::Transaction,
    query: &str,
    limit: u32,
) -> Result<Vec<[u8; 32]>, nostrdb::Error> {
    ndb.search_profile(txn, query, limit).map(|pks| pks.iter().map(|pk| **pk).collect())
}

/// Relies on nostrdb::Ndb::subscribe with the one filter `f`: the id of the
/// subscription.
#[verifier::external_body]
fn ndb_subscribe(ndb: &nostrdb::Ndb, f: &nostrdb::Filter) -> Result<u64, nostrdb::Error> {
    ndb.subscribe(std::slice::from_ref(f)).map(|s| s.id())
}

/// Relies on nostrdb::Ndb::poll_for_notes: the keys of at most `max` notes
/// that arrived. The engine takes `max` as a C `int`; above `i32::MAX` it
/// would be negative.
#[verifier::external_body]
fn ndb_poll_for_notes(ndb: &nostrdb::Ndb, sub: u64, max: u32) -> (r: Vec<u64>)
    requires
        max <= 0x7fff_ffff,
    ensures
        r@.len() <= max,
{
    ndb.poll_for_notes(nostrdb::Subscription::new(sub), max).iter().map(|k| k.as_u64()).collect()
}

/// Relies on std's Arc::get_mut: access to the value only where no other
/// reference to it is outstanding, else `None`.
#[verifier::external_body]
fn arc_get_mut(a: &mut Arc<nostrdb::Ndb>) -> Option<&mut nostrdb::Ndb> {
    Arc::get_mut(a)
}

/// Relies on nostrdb::Ndb::unsubscribe.
#[verifier::external_body]
fn ndb_unsubscribe(ndb: &mut nostrdb::Ndb, sub: u64) -> Result<(), nostrdb::Error> {
    ndb.unsubscribe(nostrdb::Subscription::new(sub))
}

/// The kind of a field of an engine filter.
#[derive(Debug, Clone, Copy, PartialEq, Eq, Structural)]
pub enum FieldKind {
    Kinds,
    Authors,
    Tag,
    Since,
    Until,
    Limit,
    Search,
}

/// What a field of an engine filter holds. The engine sorts kinds and
/// authors when it ends their field, so their order is not kept.
pub ghost enum FieldValue {
    Kinds(Multiset<u64>),
    Authors(Multiset<Seq<u8>>),
    Tagged(char, Seq<Seq<char>>),
    Since(u64),
    Until(u64),
    Limit(u64),
    Search(Seq<char>),
}

pub open spec fn kind_of(v: FieldValue) -> FieldKind {
    match v {
        FieldValue::Kinds(_) => FieldKind::Kinds,
        FieldValue::Authors(_) => FieldKind::Authors,
        FieldValue::Tagged(_, _) => FieldKind::Tag,
        FieldValue::Since(_) => FieldKind::Since,
        FieldValue::Until(_) => FieldKind::Until,
        FieldValue::Limit(_) => FieldKind::Limit,
        FieldValue::Search(_) => FieldKind::Search,
    }
}

/// The fields an engine filter builder holds, in the order they were added.
pub uninterp spec fn builder_model(b: nostrdb::FilterBuilder) -> Seq<FieldValue>;

/// The fields a finished engine filter holds, in order.
pub uninterp spec fn filter_model(f: nostrdb::Filter) -> Seq<FieldValue>;

/// The kinds of the fields of a builder, in order.
pub open spec fn builder_fields(b: nostrdb::FilterBuilder) -> Seq<FieldKind> {
    builder_model(b).map_values(|v: FieldValue| kind_of(v))
}

pub proof fn lemma_fields_push(b: nostrdb::FilterBuilder, r: nostrdb::FilterBuilder, v: FieldValue)
    requires
        builder_model(r) == builder_model(b).push(v),
    ensures
        builder_fields(r) == builder_fields(b).push(kind_of(v)),
{
    assert(builder_fields(r) =~= builder_fields(b).push(kind_of(v)));
}

/// The bytes used in the element area of an engine filter builder.
pub uninterp spec fn builder_elem_used(b: nostrdb::FilterBuilder) -> nat;

/// The bytes used in the data area of an engine filter builder.
pub uninterp spec fn builder_data_used(b: nostrdb::FilterBuilder) -> nat;

/// Whether a field of kind `k` can still be added to `b`: the engine keeps
/// at most `MAX_FIELDS` fields, refuses a second one of any kind but tags,
/// skips a field's header only where room is left after it, and pushes an
/// element only where it fits.
pub open spec fn can_add(b: nostrdb::FilterBuilder, k: FieldKind, elems: nat, data: nat) -> bool {
    &&& builder_fields(b).len() < MAX_FIELDS
    &&& (k != FieldKind::Tag ==> !builder_fields(b).contains(k))
    &&& builder_elem_used(b) + FIELD_HEADER + 8 * elems < ELEM_ROOM
    &&& builder_data_used(b) + data <= DATA_ROOM
}

/// What adding field `v` with `elems` elements and `data` data bytes leaves
/// in `r`.
pub open spec fn added(
    b: nostrdb::FilterBuilder,
    r: nostrdb::FilterBuilder,
    v: FieldValue,
    elems: nat,
    data: nat,
) -> bool {
    &&& builder_model(r) == builder_model(b).push(v)
    &&& builder_elem_used(r) == builder_elem_used(b) + FIELD_HEADER + 8 * elems
    &&& builder_data_used(r) == builder_data_used(b) + data
}

/// Relies on nostrdb::Filter::new: a builder with 256 pages of 4096 bytes,
/// a quarter of them for elements and the rest for data, and no field.
#[verifier::external_body]
pub(crate) fn builder_new() -> (r: nostrdb::FilterBuilder)
    ensures
        builder_model(r) == Seq::<FieldValue>::empty(),
        builder_elem_used(r) == 0,
        builder_data_used(r) == 0,
{
    nostrdb::Filter::new()
}

/// Relies on nostrdb::FilterBuilder::kinds: one field holding the kinds,
/// 8 element bytes per kind. It panics where the field exists or a buffer is full.
#[verifier::external_body]
pub(crate) fn builder_kinds(b: nostrdb::FilterBuilder, kinds: Vec<u64>) -> (r: nostrdb::FilterBuilder)
    requires
        can_add(b, FieldKind::Kinds, kinds@.len(), 0),
    ensures
        added(b, r, FieldValue::Kinds(kinds@.to_multiset()), kinds@.len(), 0),
{
    b.kinds(kinds)
}

/// Relies on nostrdb::FilterBuilder::authors: one field, 8 element bytes and
/// 32 data bytes per pubkey. It panics where the field exists or a buffer is
/// full.
#[verifier::external_body]
pub(crate) fn builder_authors(b: nostrdb::FilterBuilder, authors: &Vec<[u8; 32]>) -> (r: nostrdb::FilterBuilder)
    requires
        can_add(b, FieldKind::Authors, authors@.len(), 32 * authors@.len()),
    ensures
        added(
            b,
            r,
            FieldValue::Authors(authors@.map_values(|a: [u8; 32]| a@).to_multiset()),
            authors@.len(),
            32 * authors@.len(),
        ),
{
    b.authors(authors.iter())
}

/// Relies on nostrdb::FilterBuilder::tags: one field, 8 element bytes per
/// value and each value's bytes with a closing zero. The engine keeps the
/// key as one byte, which is the key itself for an ASCII character. It
/// panics where a value holds a zero byte or a buffer is full.
#[verifier::external_body]
pub(crate) fn builder_tags(b: nostrdb::FilterBuilder, values: &Vec<String>, key: char) -> (r:
    nostrdb::FilterBuilder)
    requires
        key as u32 <= 127,
        forall|j: int| 0 <= j < values@.len() ==> no_nul(#[trigger] values@[j]@),
        can_add(b, FieldKind::Tag, values@.len(), texts_cost(texts_view(*values))),
    ensures
        added(
            b,
            r,
            tag_field((key, texts_view(*values))),
            values@.len(),
            texts_cost(texts_view(*values)),
        ),
{
    b.tags(values.iter().map(|v| v.as_str()), key)
}

/// Relies on nostrdb::FilterBuilder::since: on a builder without the field,
/// one field with one element.
#[verifier::external_body]
pub(crate) fn builder_since(b: nostrdb::FilterBuilder, v: u64) -> (r: nostrdb::FilterBuilder)
    requires
        can_add(b, FieldKind::Since, 1, 0),
    ensures
        added(b, r, FieldValue::Since(v), 1, 0),
{
    b.since(v)
}

/// Relies on nostrdb::FilterBuilder::until: on a builder without the field,
/// one field with one element.
#[verifier::external_body]
pub(crate) fn builder_until(b: nostrdb::FilterBuilder, v: u64) -> (r: nostrdb::FilterBuilder)
    requires
        can_add(b, FieldKind::Until, 1, 0),
    ensures
        added(b, r, FieldValue::Until(v), 1, 0),
{
    b.until(v)
}

/// Relies on nostrdb::FilterBuilder::limit: on a builder without the field,
/// one field with one element.
#[verifier::external_body]
pub(crate) fn builder_limit(b: nostrdb::FilterBuilder, v: u64) -> (r: nostrdb::FilterBuilder)
    requires
        can_add(b, FieldKind::Limit, 1, 0),
    ensures
        added(b, r, FieldValue::Limit(v), 1, 0),
{
    b.limit(v)
}

/// Relies on nostrdb::FilterBuilder::search: one field with one element, the
/// term's bytes with a closing zero. It panics where the term holds a zero
/// byte, the field exists or a buffer is full.
#[verifier::external_body]
pub(crate) fn builder_search(b: nostrdb::FilterBuilder, term: &str) -> (r: nostrdb::FilterBuilder)
    requires
        no_nul(term@),
        can_add(b, FieldKind::Search, 1, text_cost(term@)),
    ensures
        added(b, r, FieldValue::Search(term@), 1, text_cost(term@)),
{
    b.search(term)
}

/// Relies on nostrdb::FilterBuilder::build: the finished filter holds the
/// builder's fields. On a builder without fields the engine reallocates its
/// buffer to zero bytes, which frees it, and frees it again on destruction.
#[verifier::external_body]
pub(crate) fn builder_build(b: &mut nostrdb::FilterBuilder) -> (r: nostrdb::Filter)
    requires
        builder_model(*old(b)).len() > 0,
    ensures
        filter_model(r) == builder_model(*old(b)),
{
    b.build()
}

fn engine_failure(e: EngineError) -> (r: BoundaryError)
    ensures
        r == BoundaryError::Nostrdb(e),
{
    BoundaryError::Nostrdb(e)
}

/// Opens the database in the directory `path`.
pub fn open(path: &str) -> (r: Result<nostrdb::Ndb, BoundaryError>)
    ensures
        r matches Err(e) ==> e is Nostrdb,
{
    match ndb_new(path) {
        Ok(ndb) => Ok(ndb),
        Err(e) => Err(engine_failure(engine_error(e))),
    }
}

/// Ingests one event record.
pub fn ingest_one(ndb: &nostrdb::Ndb, json: &str) -> (r: Result<(), BoundaryError>)
    ensures
        r matches Err(e) ==> e is Nostrdb,
{
    match ndb_process_event(ndb, json) {
        Ok(()) => Ok(()),
        Err(e) => Err(engine_failure(engine_error(e))),
    }
}

/// Begins a read transaction.
pub fn begin_txn(ndb: &nostrdb::Ndb) -> (r: Result<nostrdb::Transaction, BoundaryError>)
    ensures
        r matches Err(e) ==> e is Nostrdb,
{
    match txn_new(ndb) {
        Ok(t) => Ok(t),
        Err(e) => Err(engine_failure(engine_error(e))),
    }
}

/// Settles a lookup by identity: the payload of what was found, nothing
/// where the engine found no record ("not found" is no failure), and the
/// engine's failure otherwise.
pub fn lookup_outcome(found: Result<Vec<u8>, EngineError>) -> (r: Result<
    Option<Vec<u8>>,
    BoundaryError,
>)
    ensures
        match found {
            Ok(b) => r matches Ok(Some(x)) && x@ == b@,
            Err(EngineError::NotFound) => r matches Ok(None),
            Err(k) => r == Err::<Option<Vec<u8>>, BoundaryError>(BoundaryError::Nostrdb(k)),
        },
{
    match found {
        Ok(b) => Ok(Some(b)),
        Err(EngineError::NotFound) => Ok(None),
        Err(k) => Err(BoundaryError::Nostrdb(k)),
    }
}

/// A note from its parts, each kept as given.
pub fn note_from_parts(
    id: [u8; 32],
    pubkey: [u8; 32],
    kind: u32,
    created_at: u64,
    content: String,
    sig: [u8; 64],
    tags: Vec<Vec<TagElem>>,
) -> (r: NoteRecord)
    ensures
        r.id == id,
        r.pubkey == pubkey,
        r.kind == kind,
        r.created_at == created_at,
        r.content == content,
        r.sig == sig,
        r.tags == tags,
{
    NoteRecord { id, pubkey, kind, created_at, content, sig, tags }
}

/// The note as plain values.
fn note_record(n: &nostrdb::Note) -> NoteRecord {
    note_from_parts(
        note_id(n),
        note_pubkey(n),
        note_kind(n),
        note_created_at(n),
        note_content(n),
        note_sig(n),
        note_tags(n),
    )
}

fn profile_fields(p: &nostrdb::NdbProfile) -> ProfileFields {
    ProfileFields {
        name: profile_name(p),
        display_name: profile_display_name(p),
        about: profile_about(p),
        picture: profile_picture(p),
        banner: profile_banner(p),
        website: profile_website(p),
        lud06: profile_lud06(p),
        lud16: profile_lud16(p),
        nip05: profile_nip05(p),
    }
}

/// Fetches the note with the 32-byte id `id` as its payload. An id of any
/// other length is refused; a missing note is an absent result.
pub fn note_by_id(ndb: &nostrdb::Ndb, txn: &nostrdb::Transaction, id: &Vec<u8>) -> (r: Result<
    Option<Vec<u8>>,
    BoundaryError,
>)
    ensures
        id@.len() != 32 <==> r == Err::<Option<Vec<u8>>, BoundaryError>(
            BoundaryError::InvalidIdLength(id@.len() as usize),
        ),
        r matches Ok(Some(b)) ==> exists|n: NoteRecord| b@ == note_json(n),
        id@.len() == 32 && r is Err ==> (r->Err_0 matches BoundaryError::Nostrdb(k) && k
            != EngineError::NotFound),
{
    let key = match bytes_to_32(id) {
        Ok(k) => k,
        Err(e) => return Err(e),
    };
    let found = match ndb_note_by_id(ndb, txn, &key) {
        Ok(note) => {
            let rec = note_record(&note);
            let doc = note_document(&rec);
            Ok(doc)
        },
        Err(e) => Err(engine_error(e)),
    };
    lookup_outcome(found)
}

/// Fetches the note with the engine key `key` as its payload; a missing note
/// is an absent result.
pub fn note_by_key(ndb: &nostrdb::Ndb, txn: &nostrdb::Transaction, key: u64) -> (r: Result<
    Option<Vec<u8>>,
    BoundaryError,
>)
    ensures
        r matches Ok(Some(b)) ==> exists|n: NoteRecord| b@ == note_json(n),
        r matches Err(e) ==> e matches BoundaryError::Nostrdb(k) && k != EngineError::NotFound,
{
    let found = match ndb_note_by_key(ndb, txn, key) {
        Ok(note) => {
            let rec = note_record(&note);
            let doc = note_document(&rec);
            Ok(doc)
        },
        Err(e) => Err(engine_error(e)),
    };
    lookup_outcome(found)
}

/// Fetches the profile of the 32-byte pubkey `pk` as its payload. A pubkey
/// of any other length is refused; a missing profile is an absent result.
pub fn profile_by_pubkey(ndb: &nostrdb::Ndb, txn: &nostrdb::Transaction, pk: &Vec<u8>) -> (r:
    Result<Option<Vec<u8>>, BoundaryError>)
    ensures
        pk@.len() != 32 <==> r == Err::<Option<Vec<u8>>, BoundaryError>(
            BoundaryError::InvalidIdLength(pk@.len() as usize),
        ),
        r matches Ok(Some(b)) ==> exists|p: Option<ProfileFields>| b@ == profile_json(p),
        pk@.len() == 32 && r is Err ==> (r->Err_0 matches BoundaryError::Nostrdb(k) && k
            != EngineError::NotFound),
{
    let key = match bytes_to_32(pk) {
        Ok(k) => k,
        Err(e) => return Err(e),
    };
    let found = match ndb_profile_by_pubkey(ndb, txn, &key) {
        Ok(rec) => {
            let fields = match record_profile(&rec) {
                Some(p) => Some(profile_fields(&p)),
                None => None,
            };
            Ok(profile_document(&fields))
        },
        Err(e) => Err(engine_error(e)),
    };
    lookup_outcome(found)
}

/// Encodes keys that the engine returned as a key list; the engine's failure
/// passes through, and a list too long for its count is refused.
pub fn key_list_outcome(found: Result<Vec<u64>, EngineError>) -> (r: Result<Vec<u8>, BoundaryError>)
    ensures
        match found {
            Ok(keys) => if keys@.len() <= u32::MAX {
                r matches Ok(b) && b@ == key_list_bytes(keys@)
            } else {
                r == Err::<Vec<u8>, BoundaryError>(BoundaryError::Json)
            },
            Err(k) => r == Err::<Vec<u8>, BoundaryError>(BoundaryError::Nostrdb(k)),
        },
{
    match found {
        Ok(keys) => if keys.len() <= 0xffff_ffff {
            Ok(encode_key_list(&keys))
        } else {
            Err(BoundaryError::Json)
        },
        Err(k) => Err(BoundaryError::Nostrdb(k)),
    }
}

/// Encodes pubkeys that the engine returned as a pubkey list; the engine's
/// failure passes through, and a list too long for its count is refused.
pub fn pubkey_list_outcome(found: Result<Vec<[u8; 32]>, EngineError>) -> (r: Result<
    Vec<u8>,
    BoundaryError,
>)
    ensures
        match found {
            Ok(pks) => if pks@.len() <= u32::MAX {
                r matches Ok(b) && b@ == pubkey_list_bytes(pks@)
            } else {
                r == Err::<Vec<u8>, BoundaryError>(BoundaryError::Json)
            },
            Err(k) => r == Err::<Vec<u8>, BoundaryError>(BoundaryError::Nostrdb(k)),
        },
{
    match found {
        Ok(pks) => if pks.len() <= 0xffff_ffff {
            Ok(encode_pubkey_list(&pks))
        } else {
            Err(BoundaryError::Json)
        },
        Err(k) => Err(BoundaryError::Nostrdb(k)),
    }
}

/// Runs `filter` and returns the keys of at most `limit` matching notes as a
/// key list. A negative limit is refused with `InvalidState`.
pub fn query(ndb: &nostrdb::Ndb, txn: &nostrdb::Transaction, filter: &nostrdb::Filter, limit: i32)
    -> (r: Result<Vec<u8>, BoundaryError>)
    ensures
        limit < 0 ==> (r matches Err(e) && e is InvalidState),
        r matches Ok(b) ==> exists|keys: Seq<u64>| keys.len() <= limit && b@ == key_list_bytes(keys),
        r matches Err(e) ==> e is Nostrdb || (limit < 0 && e is InvalidState),
{
    if limit < 0 {
        return Err(BoundaryError::InvalidState(String::from_str("query limit is negative")));
    }
    match ndb_query(ndb, txn, filter, limit) {
        Ok(keys) => {
            let ghost ks = keys@;
            let r = key_list_outcome(Ok(keys));
            assert(r matches Ok(b) && b@ == key_list_bytes(ks));
            r
        },
        Err(e) => Err(engine_failure(engine_error(e))),
    }
}

/// Searches profiles by name and returns the pubkeys found, at most one more
/// than `limit`, as a pubkey list.
pub fn search_profiles(ndb: &nostrdb::Ndb, txn: &nostrdb::Transaction, text: &str, limit: u32) -> (r:
    Result<Vec<u8>, BoundaryError>)
    ensures
        r matches Ok(b) ==> exists|pks: Seq<[u8; 32]>| b@ == pubkey_list_bytes(pks),
        r matches Err(e) ==> e is Nostrdb || e is Json,
{
    let found = match ndb_search_profile(ndb, txn, text, limit) {
        Ok(pks) => Ok(pks),
        Err(e) => Err(engine_error(e)),
    };
    pubkey_list_outcome(found)
}

/// Registers a watch for notes that match `filter`; returns its id.
pub fn subscribe(ndb: &nostrdb::Ndb, filter: &nostrdb::Filter) -> (r: Result<u64, BoundaryError>)
    ensures
        r matches Err(e) ==> e is Nostrdb,
{
    match ndb_subscribe(ndb, filter) {
        Ok(id) => Ok(id),
        Err(e) => Err(engine_failure(engine_error(e))),
    }
}

/// The keys of at most `max` notes that arrived on subscription `sub`, as a
/// key list. A bound above `i32::MAX`, which the engine cannot take, is
/// refused with `InvalidState`.
pub fn poll_for_notes(ndb: &nostrdb::Ndb, sub: u64, max: u32) -> (r: Result<Vec<u8>, BoundaryError>)
    ensures
        max > 0x7fff_ffff <==> r is Err,
        r matches Err(e) ==> e is InvalidState,
        r matches Ok(b) ==> exists|keys: Seq<u64>| keys.len() <= max && b@ == key_list_bytes(keys),
{
    if max > 0x7fff_ffff {
        return Err(BoundaryError::InvalidState(String::from_str("poll bound too large")));
    }
    let keys = ndb_poll_for_notes(ndb, sub, max);
    let ghost ks = keys@;
    let r = key_list_outcome(Ok(keys));
    assert(r matches Ok(b) && b@ == key_list_bytes(ks));
    r
}

/// What unsubscribing comes to: refused with `InvalidState` where the
/// database handle was shared (`None`), else the engine's own outcome.
pub fn unsubscribe_outcome(exclusive: Option<Result<(), EngineError>>) -> (r: Result<(), BoundaryError>)
    ensures
        exclusive is None ==> (r matches Err(e) && e is InvalidState),
        exclusive matches Some(Ok(())) ==> r is Ok,
        exclusive matches Some(Err(k)) ==> r == Err::<(), BoundaryError>(BoundaryError::Nostrdb(k)),
{
    match exclusive {
        None => Err(
            BoundaryError::InvalidState(
                String::from_str("Cannot unsubscribe: Ndb has multiple references"),
            ),
        ),
        Some(Ok(())) => Ok(()),
        Some(Err(k)) => Err(BoundaryError::Nostrdb(k)),
    }
}

/// Ends subscription `sub`. This needs the only reference to the database:
/// where another is outstanding it fails with `InvalidState`.
pub fn unsubscribe(ndb: &mut Arc<nostrdb::Ndb>, sub: u64) -> (r: Result<(), BoundaryError>)
    ensures
        r matches Err(e) ==> e is InvalidState || e is Nostrdb,
{
    let outcome = match arc_get_mut(ndb) {
        None => None,
        Some(n) => match ndb_unsubscribe(n, sub) {
            Ok(()) => Some(Ok(())),
            Err(e) => Some(Err(engine_error(e))),
        },
    };
    unsubscribe_outcome(outcome)
}

} // verus!
