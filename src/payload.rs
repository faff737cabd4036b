//! Text payloads of fetched notes and profiles: compact JSON documents with
//! their keys in sorted order.
use vstd::prelude::*;
use vstd::string::StringSliceAdditionalSpecFns;

verus! {

/// An element of a note's tag: text, or a 32-byte id that the engine stores
/// packed and that the payload writes in lowercase hexadecimal.
pub enum TagElem {
    Text(String),
    Id([u8; 32]),
}

/// A fetched note, as plain values.
pub struct NoteRecord {
    pub id: [u8; 32],
    pub pubkey: [u8; 32],
    pub kind: u32,
    pub created_at: u64,
    pub content: String,
    pub sig: [u8; 64],
    pub tags: Vec<Vec<TagElem>>,
}

/// The named text fields of a profile, each optional.
pub struct ProfileFields {
    pub name: Option<String>,
    pub display_name: Option<String>,
    pub about: Option<String>,
    pub picture: Option<String>,
    pub banner: Option<String>,
    pub website: Option<String>,
    pub lud06: Option<String>,
    pub lud16: Option<String>,
    pub nip05: Option<String>,
}

/// The UTF-8 bytes of a piece of fixed text.
pub open spec fn lit(s: &str) -> Seq<u8> {
    s.spec_bytes()
}

/// The lowercase hexadecimal digit of a value below 16.
pub open spec fn hex_digit(v: u8) -> u8 {
    if v < 10 {
        (48 + v) as u8
    } else {
        (87 + v) as u8
    }
}

/// Two lowercase hexadecimal digits for each byte, high nibble first.
pub open spec fn hex_bytes(b: Seq<u8>) -> Seq<u8>
    decreases b.len(),
{
    if b.len() == 0 {
        Seq::empty()
    } else {
        hex_bytes(b.drop_last()) + seq![hex_digit(b.last() / 16), hex_digit(b.last() % 16)]
    }
}

/// The decimal digits of `n`, most significant first.
pub open spec fn dec_bytes(n: nat) -> Seq<u8>
    decreases n,
{
    if n < 10 {
        seq![(48 + n) as u8]
    } else {
        dec_bytes(n / 10) + seq![(48 + n % 10) as u8]
    }
}

/// How one byte of UTF-8 text stands inside a JSON string.
pub open spec fn escape_byte(b: u8) -> Seq<u8> {
    if b == 34 {
        seq![92u8, 34u8]
    } else if b == 92 {
        seq![92u8, 92u8]
    } else if b == 8 {
        seq![92u8, 98u8]
    } else if b == 12 {
        seq![92u8, 102u8]
    } else if b == 10 {
        seq![92u8, 110u8]
    } else if b == 13 {
        seq![92u8, 114u8]
    } else if b == 9 {
        seq![92u8, 116u8]
    } else if b < 32 {
        seq![92u8, 117u8, 48u8, 48u8, hex_digit(b / 16), hex_digit(b % 16)]
    } else {
        seq![b]
    }
}

pub open spec fn escaped(b: Seq<u8>) -> Seq<u8>
    decreases b.len(),
{
    if b.len() == 0 {
        Seq::empty()
    } else {
        escaped(b.drop_last()) + escape_byte(b.last())
    }
}

/// A JSON string holding the text `s`.
pub open spec fn quoted(s: Seq<char>) -> Seq<u8> {
    seq![34u8] + escaped(vstd::utf8::encode_utf8(s)) + seq![34u8]
}

/// The items one after another, separated by commas.
pub open spec fn joined(items: Seq<Seq<u8>>) -> Seq<u8>
    decreases items.len(),
{
    if items.len() == 0 {
        Seq::empty()
    } else if items.len() == 1 {
        items[0]
    } else {
        joined(items.drop_last()) + seq![44u8] + items.last()
    }
}

/// The JSON string of a tag element.
pub open spec fn elem_json(e: TagElem) -> Seq<u8> {
    match e {
        TagElem::Text(s) => quoted(s@),
        TagElem::Id(b) => seq![34u8] + hex_bytes(b@) + seq![34u8],
    }
}

/// A JSON array of the strings of a tag's elements.
pub open spec fn string_array(es: Seq<TagElem>) -> Seq<u8> {
    seq![91u8] + joined(es.map_values(|e: TagElem| elem_json(e))) + seq![93u8]
}

/// A JSON array of tags.
pub open spec fn tags_array(ts: Seq<Vec<TagElem>>) -> Seq<u8> {
    seq![91u8] + joined(ts.map_values(|t: Vec<TagElem>| string_array(t@))) + seq![93u8]
}

/// The document of a note.
pub open spec fn note_json(n: NoteRecord) -> Seq<u8> {
    lit("{\"content\":") + quoted(n.content@) + lit(",\"created_at\":") + dec_bytes(
        n.created_at as nat,
    ) + lit(",\"id\":\"") + hex_bytes(n.id@) + lit("\",\"kind\":") + dec_bytes(n.kind as nat)
        + lit(",\"pubkey\":\"") + hex_bytes(n.pubkey@) + lit("\",\"sig\":\"") + hex_bytes(n.sig@)
        + lit("\",\"tags\":") + tags_array(n.tags@) + lit("}")
}

/// An optional text field: its JSON string, or `null`.
pub open spec fn opt_field(f: Option<String>) -> Seq<u8> {
    match f {
        Some(s) => quoted(s@),
        None => lit("null"),
    }
}

/// The document of a profile record: the empty document where it holds no
/// profile.
pub open spec fn profile_json(p: Option<ProfileFields>) -> Seq<u8> {
    match p {
        None => lit("{}"),
        Some(f) => lit("{\"about\":") + opt_field(f.about) + lit(",\"banner\":") + opt_field(
            f.banner,
        ) + lit(",\"display_name\":") + opt_field(f.display_name) + lit(",\"lud06\":")
            + opt_field(f.lud06) + lit(",\"lud16\":") + opt_field(f.lud16) + lit(",\"name\":")
            + opt_field(f.name) + lit(",\"nip05\":") + opt_field(f.nip05) + lit(",\"picture\":")
            + opt_field(f.picture) + lit(",\"website\":") + opt_field(f.website) + lit("}"),
    }
}

/// Relies on hex::encode: two lowercase hexadecimal digits for each byte,
/// high nibble first.
#[verifier::external_body]
fn hex_encode(b: &[u8]) -> (r: Vec<u8>)
    ensures
        r@ == hex_bytes(b@),
{
    hex::encode(b).into_bytes()
}

/// Appends the bytes of a slice.
fn push_all(out: &mut Vec<u8>, b: &[u8])
    ensures
        final(out)@ == old(out)@ + b@,
{
    let ghost start = out@;
    let mut i: usize = 0;
    while i < b.len()
        invariant
            i <= b@.len(),
            out@ == start + b@.subrange(0, i as int),
        decreases b@.len() - i,
    {
        out.push(b[i]);
        assert(b@.subrange(0, i + 1) =~= b@.subrange(0, i as int).push(b@[i as int]));
        i = i + 1;
    }
    assert(b@.subrange(0, b@.len() as int) =~= b@);
}

/// Appends the UTF-8 bytes of a piece of fixed text.
fn push_lit(out: &mut Vec<u8>, s: &str)
    ensures
        final(out)@ == old(out)@ + lit(s),
{
    push_all(out, s.as_bytes());
}

fn hex_digit_of(v: u8) -> (r: u8)
    requires
        v < 16,
    ensures
        r == hex_digit(v),
{
    if v < 10 {
        48 + v
    } else {
        87 + v
    }
}

/// Appends the decimal digits of `n`.
fn push_decimal(out: &mut Vec<u8>, n: u64)
    ensures
        final(out)@ == old(out)@ + dec_bytes(n as nat),
    decreases n,
{
    let ghost start = out@;
    if n >= 10 {
        push_decimal(out, n / 10);
    }
    out.push((48 + n % 10) as u8);
    proof {
        if n >= 10 {
            assert(start + dec_bytes(n as nat) =~= start + dec_bytes((n / 10) as nat) + seq![
                (48 + n % 10) as u8,
            ]);
        } else {
            assert(start + dec_bytes(n as nat) =~= start.push((48 + n % 10) as u8));
        }
    }
}

/// Appends how byte `b` of UTF-8 text stands inside a JSON string.
fn push_escaped_byte(out: &mut Vec<u8>, b: u8)
    ensures
        final(out)@ == old(out)@ + escape_byte(b),
{
    let ghost start = out@;
    if b == 34 || b == 92 {
        out.push(92);
        out.push(b);
    } else if b == 8 {
        out.push(92);
        out.push(98);
    } else if b == 12 {
        out.push(92);
        out.push(102);
    } else if b == 10 {
        out.push(92);
        out.push(110);
    } else if b == 13 {
        out.push(92);
        out.push(114);
    } else if b == 9 {
        out.push(92);
        out.push(116);
    } else if b < 32 {
        out.push(92);
        out.push(117);
        out.push(48);
        out.push(48);
        out.push(hex_digit_of(b / 16));
        out.push(hex_digit_of(b % 16));
    } else {
        out.push(b);
    }
    assert(out@ =~= start + escape_byte(b));
}

/// Appends the JSON string that holds `s`.
fn push_quoted(out: &mut Vec<u8>, s: &str)
    ensures
        final(out)@ == old(out)@ + quoted(s@),
{
    let ghost start = out@;
    let b: &[u8] = s.as_bytes();
    out.push(34);
    let mut i: usize = 0;
    while i < b.len()
        invariant
            i <= b@.len(),
            b@ == vstd::utf8::encode_utf8(s@),
            out@ == start + seq![34u8] + escaped(b@.subrange(0, i as int)),
        decreases b@.len() - i,
    {
        push_escaped_byte(out, b[i]);
        assert(b@.subrange(0, i + 1).drop_last() =~= b@.subrange(0, i as int));
        i = i + 1;
    }
    assert(b@.subrange(0, b@.len() as int) =~= b@);
    out.push(34);
    assert(out@ =~= start + quoted(s@));
}

proof fn lemma_joined_push(items: Seq<Seq<u8>>, x: Seq<u8>)
    ensures
        items.len() == 0 ==> joined(items.push(x)) == x,
        items.len() > 0 ==> joined(items.push(x)) == joined(items) + seq![44u8] + x,
{
    assert(items.push(x).drop_last() =~= items);
    if items.len() == 0 {
        assert(items.push(x).len() == 1);
    }
}

fn push_elem(out: &mut Vec<u8>, e: &TagElem)
    ensures
        final(out)@ == old(out)@ + elem_json(*e),
{
    let ghost start = out@;
    match e {
        TagElem::Text(s) => push_quoted(out, s.as_str()),
        TagElem::Id(b) => {
            out.push(34);
            push_all(out, hex_encode(b.as_slice()).as_slice());
            out.push(34);
            assert(out@ =~= start + elem_json(*e));
        },
    }
}

/// Appends a JSON array of the elements `ss`.
fn push_string_array(out: &mut Vec<u8>, ss: &Vec<TagElem>)
    ensures
        final(out)@ == old(out)@ + string_array(ss@),
{
    let ghost start = out@;
    let ghost f = |e: TagElem| elem_json(e);
    out.push(91);
    let mut i: usize = 0;
    while i < ss.len()
        invariant
            i <= ss@.len(),
            f == (|e: TagElem| elem_json(e)),
            out@ == start + seq![91u8] + joined(ss@.subrange(0, i as int).map_values(f)),
        decreases ss@.len() - i,
    {
        let ghost done = ss@.subrange(0, i as int).map_values(f);
        let ghost before = out@;
        if i > 0 {
            out.push(44);
        }
        push_elem(out, &ss[i]);
        proof {
            assert(ss@.subrange(0, i + 1).map_values(f) =~= done.push(elem_json(ss@[i as int])));
            lemma_joined_push(done, elem_json(ss@[i as int]));
            if i > 0 {
                assert(out@ =~= before + seq![44u8] + elem_json(ss@[i as int]));
            } else {
                assert(out@ =~= before + elem_json(ss@[i as int]));
            }
        }
        i = i + 1;
    }
    assert(ss@.subrange(0, ss@.len() as int) =~= ss@);
    out.push(93);
    assert(out@ =~= start + string_array(ss@));
}

/// Appends a JSON array of the string arrays `ts`.
fn push_tags_array(out: &mut Vec<u8>, ts: &Vec<Vec<TagElem>>)
    ensures
        final(out)@ == old(out)@ + tags_array(ts@),
{
    let ghost start = out@;
    let ghost f = |t: Vec<TagElem>| string_array(t@);
    out.push(91);
    let mut i: usize = 0;
    while i < ts.len()
        invariant
            i <= ts@.len(),
            f == (|t: Vec<TagElem>| string_array(t@)),
            out@ == start + seq![91u8] + joined(ts@.subrange(0, i as int).map_values(f)),
        decreases ts@.len() - i,
    {
        let ghost done = ts@.subrange(0, i as int).map_values(f);
        let ghost before = out@;
        if i > 0 {
            out.push(44);
        }
        push_string_array(out, &ts[i]);
        proof {
            assert(ts@.subrange(0, i + 1).map_values(f) =~= done.push(string_array(ts@[i as int]@)));
            lemma_joined_push(done, string_array(ts@[i as int]@));
            if i > 0 {
                assert(out@ =~= before + seq![44u8] + string_array(ts@[i as int]@));
            } else {
                assert(out@ =~= before + string_array(ts@[i as int]@));
            }
        }
        i = i + 1;
    }
    assert(ts@.subrange(0, ts@.len() as int) =~= ts@);
    out.push(93);
    assert(out@ =~= start + tags_array(ts@));
}

/// The document of a note: its content, creation time, id, kind, pubkey,
/// signature and tags, with the byte fields in lowercase hexadecimal.
pub fn note_document(n: &NoteRecord) -> (r: Vec<u8>)
    ensures
        r@ == note_json(*n),
{
    let mut out: Vec<u8> = Vec::new();
    push_lit(&mut out, "{\"content\":");
    assert(out@ =~= lit("{\"content\":"));
    push_quoted(&mut out, n.content.as_str());
    push_lit(&mut out, ",\"created_at\":");
    push_decimal(&mut out, n.created_at);
    push_lit(&mut out, ",\"id\":\"");
    push_all(&mut out, hex_encode(n.id.as_slice()).as_slice());
    push_lit(&mut out, "\",\"kind\":");
    push_decimal(&mut out, n.kind as u64);
    push_lit(&mut out, ",\"pubkey\":\"");
    push_all(&mut out, hex_encode(n.pubkey.as_slice()).as_slice());
    push_lit(&mut out, "\",\"sig\":\"");
    push_all(&mut out, hex_encode(n.sig.as_slice()).as_slice());
    push_lit(&mut out, "\",\"tags\":");
    push_tags_array(&mut out, &n.tags);
    push_lit(&mut out, "}");
    out
}

fn push_opt_field(out: &mut Vec<u8>, f: &Option<String>)
    ensures
        final(out)@ == old(out)@ + opt_field(*f),
{
    match f {
        Some(s) => push_quoted(out, s.as_str()),
        None => push_lit(out, "null"),
    }
}

/// The document of a profile record: each named field as a string or `null`,
/// or the empty document where the record holds no profile.
pub fn profile_document(p: &Option<ProfileFields>) -> (r: Vec<u8>)
    ensures
        r@ == profile_json(*p),
{
    let mut out: Vec<u8> = Vec::new();
    match p {
        None => {
            push_lit(&mut out, "{}");
            assert(out@ =~= lit("{}"));
        },
        Some(f) => {
            push_lit(&mut out, "{\"about\":");
            assert(out@ =~= lit("{\"about\":"));
            push_opt_field(&mut out, &f.about);
            push_lit(&mut out, ",\"banner\":");
            push_opt_field(&mut out, &f.banner);
            push_lit(&mut out, ",\"display_name\":");
            push_opt_field(&mut out, &f.display_name);
            push_lit(&mut out, ",\"lud06\":");
            push_opt_field(&mut out, &f.lud06);
            push_lit(&mut out, ",\"lud16\":");
            push_opt_field(&mut out, &f.lud16);
            push_lit(&mut out, ",\"name\":");
            push_opt_field(&mut out, &f.name);
            push_lit(&mut out, ",\"nip05\":");
            push_opt_field(&mut out, &f.nip05);
            push_lit(&mut out, ",\"picture\":");
            push_opt_field(&mut out, &f.picture);
            push_lit(&mut out, ",\"website\":");
            push_opt_field(&mut out, &f.website);
            push_lit(&mut out, "}");
        },
    }
    out
}

} // verus!
