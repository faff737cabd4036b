//! The consuming filter builder: a draft that each step takes by value and
//! hands back changed, and that is built into an engine filter at the end.
use vstd::prelude::*;
use vstd::string::StringSliceAdditionalSpecFns;
use vstd::string::StringExecFns;
use crate::error::BoundaryError;
use crate::marshal::{decode_authors, decode_kinds, le_u32_at};
use crate::engine::{
    builder_authors, builder_build, builder_elem_used, builder_data_used, builder_fields,
    builder_kinds, builder_limit, builder_new, builder_search, builder_since, builder_tags,
    builder_until, builder_model, filter_model, lemma_fields_push, kind_of, FieldKind, FieldValue,
};

verus! {

/// Fields that an engine filter holds at most.
pub const MAX_FIELDS: usize = 10;

/// Bytes of the engine filter's element area; what is used must stay below
/// it, as the engine starts a field only where room is left after its header.
pub const ELEM_ROOM: usize = 262144;

/// Bytes of the engine filter's data area.
pub const DATA_ROOM: usize = 786432;

/// Bytes that each field takes in the element area before its elements.
pub const FIELD_HEADER: usize = 16;

/// What a filter draft holds.
pub ghost struct DraftModel {
    pub kinds: Option<Seq<u64>>,
    pub authors: Option<Seq<Seq<u8>>>,
    pub tags: Seq<(char, Seq<Seq<char>>)>,
    pub since: Option<u64>,
    pub until: Option<u64>,
    pub limit: Option<u64>,
    pub search: Option<Seq<char>>,
}

pub open spec fn opt_count<T>(o: Option<T>) -> nat {
    if o is Some { 1 } else { 0 }
}

/// Bytes that a text value takes in the data area: its UTF-8 bytes and a zero.
pub open spec fn text_cost(s: Seq<char>) -> nat {
    vstd::utf8::encode_utf8(s).len() + 1
}

pub open spec fn texts_cost(ss: Seq<Seq<char>>) -> nat
    decreases ss.len(),
{
    if ss.len() == 0 {
        0
    } else {
        texts_cost(ss.drop_last()) + text_cost(ss.last())
    }
}

/// Values over all tag constraints.
pub open spec fn tag_values(tags: Seq<(char, Seq<Seq<char>>)>) -> nat
    decreases tags.len(),
{
    if tags.len() == 0 {
        0
    } else {
        tag_values(tags.drop_last()) + tags.last().1.len()
    }
}

/// Data-area bytes over all tag constraints.
pub open spec fn tag_data(tags: Seq<(char, Seq<Seq<char>>)>) -> nat
    decreases tags.len(),
{
    if tags.len() == 0 {
        0
    } else {
        tag_data(tags.drop_last()) + texts_cost(tags.last().1)
    }
}

impl DraftModel {
    /// The number of fields the draft builds.
    pub open spec fn fields(self) -> nat {
        opt_count(self.kinds) + opt_count(self.authors) + self.tags.len() + opt_count(self.since)
            + opt_count(self.until) + opt_count(self.limit) + opt_count(self.search)
    }

    /// Elements over all fields.
    pub open spec fn elements(self) -> nat {
        (if let Some(k) = self.kinds { k.len() } else { 0nat }) + (if let Some(a) = self.authors {
            a.len()
        } else {
            0nat
        }) + tag_values(self.tags) + opt_count(self.since) + opt_count(self.until) + opt_count(
            self.limit,
        ) + opt_count(self.search)
    }

    /// Bytes the built filter takes in its element area.
    pub open spec fn elem_bytes(self) -> nat {
        (FIELD_HEADER * self.fields() + 8 * self.elements()) as nat
    }

    /// Bytes the built filter takes in its data area.
    pub open spec fn data_bytes(self) -> nat {
        (if let Some(a) = self.authors { 32 * a.len() } else { 0nat }) + tag_data(self.tags) + (
        if let Some(s) = self.search {
            text_cost(s)
        } else {
            0nat
        })
    }

    /// Whether the engine can hold the built filter.
    pub open spec fn fits(self) -> bool {
        &&& self.fields() <= MAX_FIELDS
        &&& self.elem_bytes() < ELEM_ROOM
        &&& self.data_bytes() <= DATA_ROOM
    }

    pub open spec fn empty() -> DraftModel {
        DraftModel {
            kinds: None,
            authors: None,
            tags: Seq::empty(),
            since: None,
            until: None,
            limit: None,
            search: None,
        }
    }
}

/// Whether text holds no zero byte, which the engine cannot store.
pub open spec fn no_nul(s: Seq<char>) -> bool {
    !vstd::utf8::encode_utf8(s).contains(0u8)
}

/// Whether every tag key is an ASCII character: the engine keeps one byte
/// of a key.
pub open spec fn tags_ascii(tags: Seq<(char, Seq<Seq<char>>)>) -> bool {
    forall|i: int| 0 <= i < tags.len() ==> (#[trigger] tags[i]).0 as u32 <= 127
}

/// Whether no tag value holds a zero byte.
pub open spec fn tags_no_nul(tags: Seq<(char, Seq<Seq<char>>)>) -> bool {
    forall|i: int, j: int|
        0 <= i < tags.len() && 0 <= j < tags[i].1.len() ==> no_nul(#[trigger] tags[i].1[j])
}

/// The kinds read from a flat run of 4-byte little-endian integers.
pub open spec fn kinds_of(bytes: Seq<u8>) -> Seq<u64> {
    Seq::new((bytes.len() / 4) as nat, |i: int| le_u32_at(bytes, 4 * i))
}

/// The pubkeys read from a flat run of 32-byte blocks.
pub open spec fn authors_of(bytes: Seq<u8>) -> Seq<Seq<u8>> {
    Seq::new((bytes.len() / 32) as nat, |i: int| bytes.subrange(32 * i, 32 * i + 32))
}

/// A filter under construction.
pub struct FilterDraft {
    kinds: Option<Vec<u64>>,
    authors: Option<Vec<[u8; 32]>>,
    tags: Vec<(char, Vec<String>)>,
    since: Option<u64>,
    until: Option<u64>,
    limit: Option<u64>,
    search: Option<String>,
    n_fields: usize,
    elem_used: usize,
    data_used: usize,
}

pub open spec fn texts_view(v: Vec<String>) -> Seq<Seq<char>> {
    v@.map_values(|s: String| s@)
}

impl View for FilterDraft {
    type V = DraftModel;

    closed spec fn view(&self) -> DraftModel {
        DraftModel {
            kinds: match self.kinds {
                Some(k) => Some(k@),
                None => None,
            },
            authors: match self.authors {
                Some(a) => Some(a@.map_values(|b: [u8; 32]| b@)),
                None => None,
            },
            tags: self.tags@.map_values(|t: (char, Vec<String>)| (t.0, texts_view(t.1))),
            since: self.since,
            until: self.until,
            limit: self.limit,
            search: match self.search {
                Some(s) => Some(s@),
                None => None,
            },
        }
    }
}

impl FilterDraft {
    #[verifier::type_invariant]
    closed spec fn inv(&self) -> bool {
        &&& self@.fits()
        &&& self.n_fields == self@.fields()
        &&& self.elem_used == self@.elem_bytes()
        &&& self.data_used == self@.data_bytes()
        &&& tags_no_nul(self@.tags)
        &&& tags_ascii(self@.tags)
        &&& self@.search matches Some(s) ==> no_nul(s)
    }

    /// The empty draft.
    pub fn new() -> (r: FilterDraft)
        ensures
            r@ == DraftModel::empty(),
    {
        let r = FilterDraft {
            kinds: None,
            authors: None,
            tags: Vec::new(),
            since: None,
            until: None,
            limit: None,
            search: None,
            n_fields: 0,
            elem_used: 0,
            data_used: 0,
        };
        assert(r@.tags =~= Seq::empty());
        r
    }

    /// Whether `fields` more fields with `elems` elements and `data` data
    /// bytes would still fit.
    fn has_room(&self, fields: usize, elems: usize, data: usize) -> (r: bool)
        requires
            fields <= 1,
        ensures
            r == (self.n_fields + fields <= MAX_FIELDS && self.elem_used + FIELD_HEADER * fields
                + 8 * elems < ELEM_ROOM && self.data_used + data <= DATA_ROOM),
    {
        proof {
            use_type_invariant(self);
        }
        if self.n_fields + fields > MAX_FIELDS {
            return false;
        }
        if elems > ELEM_ROOM / 8 || data > DATA_ROOM {
            return false;
        }
        self.elem_used + FIELD_HEADER * fields + 8 * elems < ELEM_ROOM && self.data_used + data
            <= DATA_ROOM
    }

    fn too_large() -> (r: BoundaryError)
        ensures
            r is Filter,
    {
        BoundaryError::Filter(String::from_str("filter too large"))
    }

    fn already_set() -> (r: BoundaryError)
        ensures
            r is Filter,
    {
        BoundaryError::Filter(String::from_str("field already set"))
    }

    /// Adds the kinds read from `bytes`, a flat run of 4-byte little-endian
    /// integers. Refused where kinds are already set or the engine could not
    /// hold the result.
    pub fn kinds(self, bytes: &Vec<u8>) -> (r: Result<FilterDraft, BoundaryError>)
        ensures
            ({
                let next = DraftModel { kinds: Some(kinds_of(bytes@)), ..self@ };
                &&& r is Ok <==> self@.kinds is None && next.fits()
                &&& r is Ok ==> r->Ok_0@ == next
                &&& r is Err ==> r->Err_0 is Filter
            }),
    {
        proof {
            use_type_invariant(&self);
        }
        if self.kinds.is_some() {
            return Err(Self::already_set());
        }
        let ks = decode_kinds(bytes);
        assert(ks@ =~= kinds_of(bytes@));
        if !self.has_room(1, ks.len(), 0) {
            return Err(Self::too_large());
        }
        let n_fields = self.n_fields + 1;
        let elem_used = self.elem_used + FIELD_HEADER + 8 * ks.len();
        let r = FilterDraft {
            kinds: Some(ks),
            authors: self.authors,
            tags: self.tags,
            since: self.since,
            until: self.until,
            limit: self.limit,
            search: self.search,
            n_fields,
            elem_used,
            data_used: self.data_used,
        };
        Ok(r)
    }

    /// Adds the pubkeys read from `bytes`, a flat run of 32-byte blocks.
    /// Refused where authors are already set or the engine could not hold the
    /// result.
    pub fn authors(self, bytes: &Vec<u8>) -> (r: Result<FilterDraft, BoundaryError>)
        ensures
            ({
                let next = DraftModel { authors: Some(authors_of(bytes@)), ..self@ };
                &&& r is Ok <==> self@.authors is None && next.fits()
                &&& r is Ok ==> r->Ok_0@ == next
                &&& r is Err ==> r->Err_0 is Filter
            }),
    {
        proof {
            use_type_invariant(&self);
        }
        if self.authors.is_some() {
            return Err(Self::already_set());
        }
        let pks = decode_authors(bytes);
        assert(pks@.map_values(|b: [u8; 32]| b@) =~= authors_of(bytes@));
        if pks.len() > DATA_ROOM / 32 || !self.has_room(1, pks.len(), 32 * pks.len()) {
            return Err(Self::too_large());
        }
        let n_fields = self.n_fields + 1;
        let elem_used = self.elem_used + FIELD_HEADER + 8 * pks.len();
        let data_used = self.data_used + 32 * pks.len();
        Ok(
            FilterDraft {
                kinds: self.kinds,
                authors: Some(pks),
                tags: self.tags,
                since: self.since,
                until: self.until,
                limit: self.limit,
                search: self.search,
                n_fields,
                elem_used,
                data_used,
            },
        )
    }

    /// Adds a tag constraint: the first character of `name` is the tag key,
    /// and `values` the accepted values. Refused where the name is empty, its
    /// first character is not ASCII (the engine keeps one byte of a key), a
    /// value holds a zero byte, or the engine could not hold the result.
    pub fn tag(self, name: &str, values: Vec<String>) -> (r: Result<FilterDraft, BoundaryError>)
        ensures
            ({
                let next = DraftModel {
                    tags: self@.tags.push((name@[0], texts_view(values))),
                    ..self@
                };
                &&& r is Ok <==> name@.len() > 0 && name@[0] as u32 <= 127 && (forall|j: int|
                    0 <= j < values@.len() ==> no_nul(#[trigger] values@[j]@)) && next.fits()
                &&& r is Ok ==> r->Ok_0@ == next
                &&& r is Err ==> r->Err_0 is Filter
            }),
    {
        proof {
            use_type_invariant(&self);
        }
        let key = match crate::marshal::tag_key(name) {
            Ok(c) => c,
            Err(e) => return Err(e),
        };
        if key as u32 > 127 {
            return Err(BoundaryError::Filter(String::from_str("tag name is not ASCII")));
        }
        let ghost vs = texts_view(values);
        let mut cost: usize = 0;
        let mut j: usize = 0;
        while j < values.len()
            invariant
                j <= values@.len(),
                vs == texts_view(values),
                cost == texts_cost(vs.subrange(0, j as int)),
                cost <= DATA_ROOM,
                forall|k: int| 0 <= k < j ==> no_nul(#[trigger] values@[k]@),
            decreases values@.len() - j,
        {
            assert(vs.subrange(0, j + 1).drop_last() =~= vs.subrange(0, j as int));
            match text_cost_of(values[j].as_str()) {
                None => {
                    return Err(BoundaryError::Filter(String::from_str("tag value holds a zero byte")));
                },
                Some(c) => {
                    if c >= DATA_ROOM - cost {
                        proof {
                            lemma_texts_cost_prefix(vs, j as int + 1);
                            let next_tags = self@.tags.push((name@[0], vs));
                            assert(next_tags.drop_last() =~= self@.tags);
                            assert(vs.subrange(0, j + 1).last() == values@[j as int]@);
                        }
                        return Err(Self::too_large());
                    }
                    cost = cost + c + 1;
                },
            }
            j = j + 1;
        }
        assert(vs.subrange(0, values@.len() as int) =~= vs);
        proof {
            let next_tags = self@.tags.push((name@[0], vs));
            assert(next_tags.drop_last() =~= self@.tags);
            assert(tag_values(next_tags) == tag_values(self@.tags) + values@.len());
            assert(tag_data(next_tags) == tag_data(self@.tags) + cost);
        }
        if !self.has_room(1, values.len(), cost) {
            return Err(Self::too_large());
        }
        let n_fields = self.n_fields + 1;
        let elem_used = self.elem_used + FIELD_HEADER + 8 * values.len();
        let data_used = self.data_used + cost;
        let ghost old_tags = self@.tags;
        let mut tags = self.tags;
        tags.push((key, values));
        proof {
            let next_tags = old_tags.push((name@[0], vs));
            assert(next_tags.drop_last() =~= old_tags);
            assert(tags@.map_values(|t: (char, Vec<String>)| (t.0, texts_view(t.1))) =~= next_tags);
            assert forall|i: int| 0 <= i < next_tags.len() implies (#[trigger] next_tags[i]).0 as u32
                <= 127 by {
                if i < old_tags.len() {
                    assert(next_tags[i] == old_tags[i]);
                }
            }
            assert forall|i: int, k: int|
                0 <= i < next_tags.len() && 0 <= k < next_tags[i].1.len() implies no_nul(
                #[trigger] next_tags[i].1[k],
            ) by {
                if i < old_tags.len() {
                    assert(next_tags[i] == old_tags[i]);
                } else {
                    assert(next_tags[i].1[k] == values@[k]@);
                }
            }
        }
        Ok(
            FilterDraft {
                kinds: self.kinds,
                authors: self.authors,
                tags,
                since: self.since,
                until: self.until,
                limit: self.limit,
                search: self.search,
                n_fields,
                elem_used,
                data_used,
            },
        )
    }

    /// Sets the earliest creation time, replacing any earlier value. Refused only where a new field
    /// would not fit.
    pub fn since(self, v: u64) -> (r: Result<FilterDraft, BoundaryError>)
        ensures
            ({
                let next = DraftModel { since: Some(v), ..self@ };
                &&& r is Ok <==> next.fits()
                &&& r is Ok ==> r->Ok_0@ == next
                &&& r is Err ==> r->Err_0 is Filter
            }),
    {
        proof {
            use_type_invariant(&self);
        }
        let (n_fields, elem_used) = if self.since.is_some() {
            (self.n_fields, self.elem_used)
        } else {
            if !self.has_room(1, 1, 0) {
                return Err(Self::too_large());
            }
            (self.n_fields + 1, self.elem_used + FIELD_HEADER + 8)
        };
        Ok(
            FilterDraft {
                kinds: self.kinds,
                authors: self.authors,
                tags: self.tags,
                since: Some(v),
                until: self.until,
                limit: self.limit,
                search: self.search,
                n_fields,
                elem_used,
                data_used: self.data_used,
            },
        )
    }

    /// Sets the latest creation time, replacing any earlier value. Refused only where a new field
    /// would not fit.
    pub fn until(self, v: u64) -> (r: Result<FilterDraft, BoundaryError>)
        ensures
            ({
                let next = DraftModel { until: Some(v), ..self@ };
                &&& r is Ok <==> next.fits()
                &&& r is Ok ==> r->Ok_0@ == next
                &&& r is Err ==> r->Err_0 is Filter
            }),
    {
        proof {
            use_type_invariant(&self);
        }
        let (n_fields, elem_used) = if self.until.is_some() {
            (self.n_fields, self.elem_used)
        } else {
            if !self.has_room(1, 1, 0) {
                return Err(Self::too_large());
            }
            (self.n_fields + 1, self.elem_used + FIELD_HEADER + 8)
        };
        Ok(
            FilterDraft {
                kinds: self.kinds,
                authors: self.authors,
                tags: self.tags,
                until: Some(v),
                since: self.since,
                limit: self.limit,
                search: self.search,
                n_fields,
                elem_used,
                data_used: self.data_used,
            },
        )
    }

    /// Sets the most results, replacing any earlier value. Refused only where a new field
    /// would not fit.
    pub fn limit(self, v: u64) -> (r: Result<FilterDraft, BoundaryError>)
        ensures
            ({
                let next = DraftModel { limit: Some(v), ..self@ };
                &&& r is Ok <==> next.fits()
                &&& r is Ok ==> r->Ok_0@ == next
                &&& r is Err ==> r->Err_0 is Filter
            }),
    {
        proof {
            use_type_invariant(&self);
        }
        let (n_fields, elem_used) = if self.limit.is_some() {
            (self.n_fields, self.elem_used)
        } else {
            if !self.has_room(1, 1, 0) {
                return Err(Self::too_large());
            }
            (self.n_fields + 1, self.elem_used + FIELD_HEADER + 8)
        };
        Ok(
            FilterDraft {
                kinds: self.kinds,
                authors: self.authors,
                tags: self.tags,
                limit: Some(v),
                since: self.since,
                until: self.until,
                search: self.search,
                n_fields,
                elem_used,
                data_used: self.data_used,
            },
        )
    }

    /// Sets the full-text search term. Refused where a term is already set,
    /// the term holds a zero byte, or the engine could not hold the result.
    pub fn search(self, term: String) -> (r: Result<FilterDraft, BoundaryError>)
        ensures
            ({
                let next = DraftModel { search: Some(term@), ..self@ };
                &&& r is Ok <==> self@.search is None && no_nul(term@) && next.fits()
                &&& r is Ok ==> r->Ok_0@ == next
                &&& r is Err ==> r->Err_0 is Filter
            }),
    {
        proof {
            use_type_invariant(&self);
        }
        if self.search.is_some() {
            return Err(Self::already_set());
        }
        let len = match text_cost_of(term.as_str()) {
            None => {
                return Err(BoundaryError::Filter(String::from_str("search term holds a zero byte")));
            },
            Some(c) => c,
        };
        if len >= DATA_ROOM || !self.has_room(1, 1, len + 1) {
            return Err(Self::too_large());
        }
        let n_fields = self.n_fields + 1;
        let elem_used = self.elem_used + FIELD_HEADER + 8;
        let data_used = self.data_used + len + 1;
        Ok(
            FilterDraft {
                kinds: self.kinds,
                authors: self.authors,
                tags: self.tags,
                since: self.since,
                until: self.until,
                limit: self.limit,
                search: Some(term),
                n_fields,
                elem_used,
                data_used,
            },
        )
    }

    /// Builds the engine filter that the draft describes, adding its fields
    /// in a fixed order: kinds, authors, tags, since, until, limit, search.
    /// A draft without any field is refused: the engine cannot finish an
    /// empty filter.
    #[verifier::rlimit(100)]
    #[verifier::spinoff_prover]
    pub fn build(self) -> (r: Result<nostrdb::Filter, BoundaryError>)
        ensures
            self@.fields() == 0 <==> r is Err,
            r matches Ok(f) ==> filter_model(f) == draft_fields(self@),
            r matches Err(e) ==> e is Filter,
    {
        proof {
            use_type_invariant(&self);
        }
        if self.n_fields == 0 {
            return Err(BoundaryError::Filter(String::from_str("filter has no field")));
        }
        let ghost m = self@;
        let mut b = builder_new();
        let ghost mut acc: Seq<FieldValue> = Seq::empty();
        let ghost mut e0: nat = 0;
        let ghost mut d0: nat = 0;
        proof {
            assert(builder_fields(b) =~= Seq::<FieldKind>::empty());
        }
        if let Some(ks) = self.kinds {
            let ghost b0 = b;
            proof {
                lemma_absent(b, FieldKind::Kinds, 0);
            }
            b = builder_kinds(b, ks);
            proof {
                lemma_step(b0, b, FieldValue::Kinds(ks@.to_multiset()), 0);
                acc = acc.push(FieldValue::Kinds(ks@.to_multiset()));
                e0 = (FIELD_HEADER + 8 * ks@.len()) as nat;
            }
        }
        assert(acc =~= kinds_part(m));
        assert(ranked(b, 1));
        if let Some(a) = &self.authors {
            let ghost b0 = b;
            proof {
                lemma_absent(b, FieldKind::Authors, 1);
            }
            b = builder_authors(b, a);
            proof {
                let v = FieldValue::Authors(a@.map_values(|x: [u8; 32]| x@).to_multiset());
                lemma_step(b0, b, v, 1);
                acc = acc.push(v);
                e0 = (e0 + FIELD_HEADER + 8 * a@.len()) as nat;
                d0 = (32 * a@.len()) as nat;
            }
        }
        assert(acc =~= kinds_part(m) + authors_part(m));
        assert(ranked(b, 2));
        assert(e0 + FIELD_HEADER * self.tags@.len() + 8 * tag_values(m.tags) + FIELD_HEADER * (
        opt_count(m.since) + opt_count(m.until) + opt_count(m.limit) + opt_count(m.search)) + 8 * (
        opt_count(m.since) + opt_count(m.until) + opt_count(m.limit) + opt_count(m.search))
            == m.elem_bytes()) by (nonlinear_arith)
            requires
                e0 == (if let Some(k) = m.kinds {
                    FIELD_HEADER + 8 * k.len()
                } else {
                    0
                }) + (if let Some(a) = m.authors {
                    FIELD_HEADER + 8 * a.len()
                } else {
                    0
                }),
                self.tags@.len() == m.tags.len(),
        ;
        let ghost pre = acc;
        assert(builder_model(b) == acc);
        assert(tags_part(m.tags.subrange(0, 0)) =~= Seq::<FieldValue>::empty());
        assert(pre + tags_part(m.tags.subrange(0, 0)) =~= pre);
        let mut i: usize = 0;
        while i < self.tags.len()
            invariant
                i <= self.tags@.len(),
                m == self@,
                m.fits(),
                tags_no_nul(m.tags),
                tags_ascii(m.tags),
                pre == kinds_part(m) + authors_part(m),
                builder_model(b) == pre + tags_part(m.tags.subrange(0, i as int)),
                ranked(b, 3),
                builder_fields(b).len() == pre.len() + i,
                d0 == (if let Some(a) = m.authors { 32 * a.len() } else { 0 }),
                e0 + FIELD_HEADER * m.tags.len() + 8 * tag_values(m.tags) <= m.elem_bytes(),
                builder_elem_used(b) == e0 + FIELD_HEADER * i + 8 * tag_values(
                    m.tags.subrange(0, i as int),
                ),
                builder_data_used(b) == d0 + tag_data(m.tags.subrange(0, i as int)),
            decreases self.tags@.len() - i,
        {
            let (key, values) = &self.tags[i];
            let ghost b0 = b;
            proof {
                assert(m.tags[i as int] == (*key, texts_view(*values)));
                assert(m.tags.subrange(0, i + 1).drop_last() =~= m.tags.subrange(0, i as int));
                lemma_tags_prefix(m.tags, i as int + 1);
                assert(tag_values(m.tags.subrange(0, i + 1)) == tag_values(
                    m.tags.subrange(0, i as int),
                ) + values@.len());
                assert(tag_data(m.tags.subrange(0, i + 1)) == tag_data(m.tags.subrange(0, i as int))
                    + texts_cost(texts_view(*values)));
                assert(values@.len() == texts_view(*values).len());
                assert forall|j: int| 0 <= j < values@.len() implies no_nul(
                    #[trigger] values@[j]@,
                ) by {
                    assert(m.tags[i as int].1[j] == values@[j]@);
                }
            }
            b = builder_tags(b, values, *key);
            proof {
                lemma_step(b0, b, tag_field((*key, texts_view(*values))), 3);
                assert(m.tags.subrange(0, i + 1) =~= m.tags.subrange(0, i as int).push(
                    m.tags[i as int],
                ));
                lemma_tags_part_push(m.tags.subrange(0, i as int), m.tags[i as int]);
                assert(tags_part(m.tags.subrange(0, i + 1)) == tags_part(
                    m.tags.subrange(0, i as int),
                ).push(tag_field((*key, texts_view(*values)))));
                assert(builder_model(b) =~= pre + tags_part(m.tags.subrange(0, i + 1)));
            }
            i = i + 1;
        }
        assert(m.tags.subrange(0, m.tags.len() as int) =~= m.tags);
        proof {
            acc = builder_model(b);
        }
        if let Some(v) = self.since {
            let ghost b0 = b;
            proof {
                lemma_absent(b, FieldKind::Since, 3);
            }
            b = builder_since(b, v);
            proof {
                lemma_step(b0, b, FieldValue::Since(v), 3);
                acc = acc.push(FieldValue::Since(v));
            }
        } else {
            proof {
                lemma_ranked_weaken(b, 3, 4);
            }
        }
        if let Some(v) = self.until {
            let ghost b0 = b;
            proof {
                lemma_absent(b, FieldKind::Until, 4);
            }
            b = builder_until(b, v);
            proof {
                lemma_step(b0, b, FieldValue::Until(v), 4);
                acc = acc.push(FieldValue::Until(v));
            }
        } else {
            proof {
                lemma_ranked_weaken(b, 4, 5);
            }
        }
        if let Some(v) = self.limit {
            let ghost b0 = b;
            proof {
                lemma_absent(b, FieldKind::Limit, 5);
            }
            b = builder_limit(b, v);
            proof {
                lemma_step(b0, b, FieldValue::Limit(v), 5);
                acc = acc.push(FieldValue::Limit(v));
            }
        } else {
            proof {
                lemma_ranked_weaken(b, 5, 6);
            }
        }
        if let Some(t) = &self.search {
            let ghost b0 = b;
            proof {
                lemma_absent(b, FieldKind::Search, 6);
            }
            b = builder_search(b, t.as_str());
            proof {
                lemma_step(b0, b, FieldValue::Search(t@), 6);
                acc = acc.push(FieldValue::Search(t@));
            }
        }
        proof {
            let tail = rest_part(m);
            assert(acc =~= pre + tags_part(m.tags) + tail);
            assert(draft_fields(m) =~= pre + tags_part(m.tags) + tail);
            lemma_draft_fields_len(m);
        }
        Ok(builder_build(&mut b))
    }
}

/// The order in which a draft's fields are built.
pub open spec fn rank(k: FieldKind) -> nat {
    match k {
        FieldKind::Kinds => 0,
        FieldKind::Authors => 1,
        FieldKind::Tag => 2,
        FieldKind::Since => 3,
        FieldKind::Until => 4,
        FieldKind::Limit => 5,
        FieldKind::Search => 6,
    }
}

/// Every field of `b` comes before rank `bound`.
pub open spec fn ranked(b: nostrdb::FilterBuilder, bound: nat) -> bool {
    forall|j: int| 0 <= j < builder_fields(b).len() ==> rank(#[trigger] builder_fields(b)[j]) < bound
}

proof fn lemma_absent(b: nostrdb::FilterBuilder, k: FieldKind, bound: nat)
    requires
        ranked(b, bound),
        rank(k) >= bound,
    ensures
        !builder_fields(b).contains(k),
{
    if builder_fields(b).contains(k) {
        let j = choose|j: int| 0 <= j < builder_fields(b).len() && builder_fields(b)[j] == k;
        assert(rank(builder_fields(b)[j]) < bound);
    }
}

proof fn lemma_step(b: nostrdb::FilterBuilder, r: nostrdb::FilterBuilder, v: FieldValue, bound: nat)
    requires
        builder_model(r) == builder_model(b).push(v),
        ranked(b, bound),
        bound <= rank(kind_of(v)) + 1,
    ensures
        ranked(r, rank(kind_of(v)) + 1),
        builder_fields(r).len() == builder_fields(b).len() + 1,
{
    lemma_fields_push(b, r, v);
    assert forall|j: int| 0 <= j < builder_fields(r).len() implies rank(
        #[trigger] builder_fields(r)[j],
    ) < rank(kind_of(v)) + 1 by {
        if j < builder_fields(b).len() {
            assert(builder_fields(r)[j] == builder_fields(b)[j]);
        }
    }
}

proof fn lemma_ranked_weaken(b: nostrdb::FilterBuilder, lo: nat, hi: nat)
    requires
        ranked(b, lo),
        lo <= hi,
    ensures
        ranked(b, hi),
{
}

pub open spec fn kinds_part(m: DraftModel) -> Seq<FieldValue> {
    match m.kinds {
        Some(k) => seq![FieldValue::Kinds(k.to_multiset())],
        None => Seq::empty(),
    }
}

pub open spec fn authors_part(m: DraftModel) -> Seq<FieldValue> {
    match m.authors {
        Some(a) => seq![FieldValue::Authors(a.to_multiset())],
        None => Seq::empty(),
    }
}

pub open spec fn tags_part(ts: Seq<(char, Seq<Seq<char>>)>) -> Seq<FieldValue> {
    Seq::new(ts.len(), |j: int| tag_field(ts[j]))
}

pub open spec fn tag_field(t: (char, Seq<Seq<char>>)) -> FieldValue {
    FieldValue::Tagged(t.0, t.1)
}

proof fn lemma_tags_part_push(tags: Seq<(char, Seq<Seq<char>>)>, t: (char, Seq<Seq<char>>))
    ensures
        tags_part(tags.push(t)) == tags_part(tags).push(tag_field(t)),
{
    assert(tags_part(tags.push(t)) =~= tags_part(tags).push(tag_field(t)));
}

pub open spec fn rest_part(m: DraftModel) -> Seq<FieldValue> {
    (match m.since {
        Some(x) => seq![FieldValue::Since(x)],
        None => Seq::empty(),
    }) + (match m.until {
        Some(x) => seq![FieldValue::Until(x)],
        None => Seq::empty(),
    }) + (match m.limit {
        Some(x) => seq![FieldValue::Limit(x)],
        None => Seq::empty(),
    }) + (match m.search {
        Some(t) => seq![FieldValue::Search(t)],
        None => Seq::empty(),
    })
}

proof fn lemma_draft_fields_len(m: DraftModel)
    ensures
        draft_fields(m).len() == m.fields(),
{
}

/// The fields of the engine filter a draft builds, in build order.
pub open spec fn draft_fields(m: DraftModel) -> Seq<FieldValue> {
    kinds_part(m) + authors_part(m) + tags_part(m.tags) + rest_part(m)
}

proof fn lemma_tags_prefix(tags: Seq<(char, Seq<Seq<char>>)>, n: int)
    requires
        0 <= n <= tags.len(),
    ensures
        tag_values(tags.subrange(0, n)) <= tag_values(tags),
        tag_data(tags.subrange(0, n)) <= tag_data(tags),
    decreases tags.len() - n,
{
    if n < tags.len() {
        lemma_tags_prefix(tags, n + 1);
        assert(tags.subrange(0, n + 1).drop_last() =~= tags.subrange(0, n));
    } else {
        assert(tags.subrange(0, n) =~= tags);
    }
}

/// The UTF-8 length of `s`, or `None` where it holds a zero byte.
fn text_cost_of(s: &str) -> (r: Option<usize>)
    ensures
        r is Some <==> no_nul(s@),
        r matches Some(c) ==> c + 1 == text_cost(s@),
{
    let b: &[u8] = s.as_bytes();
    let mut i: usize = 0;
    while i < b.len()
        invariant
            i <= b@.len(),
            b@ == vstd::utf8::encode_utf8(s@),
            forall|k: int| 0 <= k < i ==> b@[k] != 0u8,
        decreases b@.len() - i,
    {
        if b[i] == 0 {
            assert(b@[i as int] == 0u8);
            return None;
        }
        i = i + 1;
    }
    assert(!b@.contains(0u8));
    Some(b.len())
}

proof fn lemma_texts_cost_prefix(ss: Seq<Seq<char>>, n: int)
    requires
        0 <= n <= ss.len(),
    ensures
        texts_cost(ss.subrange(0, n)) <= texts_cost(ss),
    decreases ss.len() - n,
{
    if n < ss.len() {
        lemma_texts_cost_prefix(ss, n + 1);
        assert(ss.subrange(0, n + 1).drop_last() =~= ss.subrange(0, n));
    } else {
        assert(ss.subrange(0, n) =~= ss);
    }
}

} // verus!
