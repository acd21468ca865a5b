//! Which row a document write addresses.

use vstd::prelude::*;

use crate::documents::{DocumentRow, UnifiedMemory};
use crate::outside::sha256_digest;
use crate::text::{same_text, trim};

verus! {

/// The row that a document write addresses.
///
/// A row is named by its namespace and key, which every write carries, and by
/// its document id, which a caller may ask for. The two can name different rows.
#[derive(Debug)]
#[allow(inconsistent_fields)]
pub enum DocumentIdentity {
    /// A row with this namespace and key exists. Its id wins over any other.
    Existing { document_id: String, created_at: i64 },
    /// No row has this key, but the requested id names a row of the same
    /// namespace under another key: the same document, to be re-keyed.
    StaleKey { document_id: String, created_at: i64 },
    /// A new row, under the requested id where that is free. Without an id the
    /// write has to mint one.
    New { document_id: Option<String> },
}

/// A write's identity, as texts.
#[allow(inconsistent_fields)]
pub ghost enum IdentityView {
    Existing { document_id: Seq<char>, created_at: i64 },
    StaleKey { document_id: Seq<char>, created_at: i64 },
    New { document_id: Option<Seq<char>> },
}

impl View for DocumentIdentity {
    type V = IdentityView;

    open spec fn view(&self) -> IdentityView {
        match *self {
            DocumentIdentity::Existing { document_id, created_at } => IdentityView::Existing {
                document_id: document_id@,
                created_at,
            },
            DocumentIdentity::StaleKey { document_id, created_at } => IdentityView::StaleKey {
                document_id: document_id@,
                created_at,
            },
            DocumentIdentity::New { document_id } => IdentityView::New {
                document_id: crate::text::opt_text(document_id),
            },
        }
    }
}

/// The id that a caller asks for: trimmed, and a blank one is no request.
pub open spec fn wanted_id(requested: Option<Seq<char>>) -> Option<Seq<char>> {
    match requested {
        Some(id) if crate::text::trimmed(id).len() > 0 => Some(crate::text::trimmed(id)),
        _ => None,
    }
}

/// The row that a write of a namespace and key addresses.
pub open spec fn identity(
    docs: Seq<crate::documents::RowView>,
    namespace: Seq<char>,
    key: Seq<char>,
    requested: Option<Seq<char>>,
) -> IdentityView {
    let held = crate::documents::by_key(docs, namespace, key);
    if held < docs.len() {
        IdentityView::Existing {
            document_id: docs[held].document_id,
            created_at: docs[held].created_at,
        }
    } else {
        match wanted_id(requested) {
            None => IdentityView::New { document_id: None },
            Some(id) => {
                let owner = crate::documents::owner_of(docs, id);
                if owner == docs.len() {
                    IdentityView::New { document_id: Some(id) }
                } else if docs[owner].namespace == namespace {
                    IdentityView::StaleKey { document_id: id, created_at: docs[owner].created_at }
                } else {
                    IdentityView::New { document_id: None }
                }
            },
        }
    }
}

/// What a document id is derived from: the namespace, a zero byte, the key.
pub open spec fn id_preimage(namespace: Seq<char>, key: Seq<char>) -> Seq<u8> {
    vstd::utf8::encode_utf8(namespace) + seq![0u8] + vstd::utf8::encode_utf8(key)
}

/// One hexadecimal digit, in lower case.
pub open spec fn hex_digit(n: int) -> char {
    if n < 10 {
        (48 + n) as char
    } else {
        (87 + n) as char
    }
}

/// Whether a character is a hexadecimal digit in lower case.
pub open spec fn is_hex_digit(c: char) -> bool {
    '0' <= c <= '9' || 'a' <= c <= 'f'
}

/// Bytes in hexadecimal, two digits each.
pub open spec fn hex(bytes: Seq<u8>) -> Seq<char>
    decreases bytes.len(),
{
    if bytes.len() == 0 {
        Seq::empty()
    } else {
        hex(bytes.drop_last()).push(hex_digit(bytes.last() as int / 16)).push(
            hex_digit(bytes.last() as int % 16),
        )
    }
}

/// The document id derived from a namespace and key: the first 32 hexadecimal
/// digits of the digest.
pub open spec fn derived_id(namespace: Seq<char>, key: Seq<char>) -> Seq<char> {
    hex(crate::outside::sha256(id_preimage(namespace, key)).take(16))
}

proof fn lemma_hex(bytes: Seq<u8>)
    ensures
        hex(bytes).len() == 2 * bytes.len(),
        forall|i: int| 0 <= i < hex(bytes).len() ==> is_hex_digit(#[trigger] hex(bytes)[i]),
    decreases bytes.len(),
{
    if bytes.len() > 0 {
        lemma_hex(bytes.drop_last());
        let byte = bytes.last() as int;
        assert(is_hex_digit(hex_digit(byte / 16)));
        assert(is_hex_digit(hex_digit(byte % 16)));
    }
}

fn hex_text(digit: u8) -> (r: &'static str)
    requires
        digit < 16,
    ensures
        r@ == seq![hex_digit(digit as int)],
{
    proof {
        reveal_strlit("0");
        reveal_strlit("1");
        reveal_strlit("2");
        reveal_strlit("3");
        reveal_strlit("4");
        reveal_strlit("5");
        reveal_strlit("6");
        reveal_strlit("7");
        reveal_strlit("8");
        reveal_strlit("9");
        reveal_strlit("a");
        reveal_strlit("b");
        reveal_strlit("c");
        reveal_strlit("d");
        reveal_strlit("e");
        reveal_strlit("f");
    }
    match digit {
        0 => "0",
        1 => "1",
        2 => "2",
        3 => "3",
        4 => "4",
        5 => "5",
        6 => "6",
        7 => "7",
        8 => "8",
        9 => "9",
        10 => "a",
        11 => "b",
        12 => "c",
        13 => "d",
        14 => "e",
        _ => "f",
    }
}

/// The hexadecimal digits of the first 16 bytes of a digest.
pub fn short_hex(digest: &Vec<u8>) -> (r: String)
    requires
        digest.len() >= 16,
    ensures
        r@ == hex(digest@.take(16)),
{
    let mut text = String::new();
    let mut i: usize = 0;
    while i < 16
        invariant
            i <= 16,
            digest.len() >= 16,
            text@ == hex(digest@.take(i as int)),
        decreases 16 - i,
    {
        let byte: u8 = digest[i];
        text.append(hex_text(byte / 16));
        text.append(hex_text(byte % 16));
        proof {
            let before = digest@.take(i as int);
            let after = digest@.take(i as int + 1);
            assert(after.drop_last() =~= before);
            assert(text@ =~= hex(before).push(hex_digit(byte as int / 16)).push(
                hex_digit(byte as int % 16),
            ));
        }
        i = i + 1;
    }
    text
}

fn append_bytes(bytes: &mut Vec<u8>, more: &[u8])
    ensures
        final(bytes)@ == old(bytes)@ + more@,
{
    let mut i: usize = 0;
    assert(more@.take(0) =~= Seq::empty());
    assert(bytes@ + more@.take(0) =~= bytes@);
    while i < more.len()
        invariant
            i <= more.len(),
            bytes@ =~= old(bytes)@ + more@.take(i as int),
        decreases more.len() - i,
    {
        bytes.push(more[i]);
        i = i + 1;
        assert(more@.take(i as int) =~= more@.take(i as int - 1).push(more@[i as int - 1]));
    }
    assert(more@.take(i as int) =~= more@);
}

impl UnifiedMemory {
    /// The document id that a namespace and key are given where none is
    /// requested. It depends on them alone, so that two first writes of one key
    /// agree on it.
    pub fn derive_document_id(namespace: &str, key: &str) -> (r: String)
        ensures
            r@ == derived_id(namespace@, key@),
            r@.len() == 32,
            forall|i: int| 0 <= i < r@.len() ==> is_hex_digit(#[trigger] r@[i]),
    {
        let mut preimage: Vec<u8> = Vec::new();
        append_bytes(&mut preimage, namespace.as_bytes());
        preimage.push(0);
        append_bytes(&mut preimage, key.as_bytes());
        assert(preimage@ =~= id_preimage(namespace@, key@));
        let digest = sha256_digest(&preimage);
        proof {
            lemma_hex(digest@.take(16));
        }
        short_hex(&digest)
    }

    /// Resolves the row that a write of a namespace and key addresses.
    pub fn resolve_document_identity(
        &self,
        namespace: &str,
        key: &str,
        requested_id: Option<&str>,
    ) -> (r: DocumentIdentity)
        ensures
            r@ == identity(
                self@.docs,
                namespace@,
                key@,
                match requested_id {
                    Some(id) => Some(id@),
                    None => None,
                },
            ),
    {
        if let Some(i) = self.find_key(namespace, key) {
            let row: &DocumentRow = &self.docs[i];
            return DocumentIdentity::Existing {
                document_id: row.document_id.clone(),
                created_at: row.created_at,
            };
        }
        let requested_id = match requested_id {
            Some(id) => trim(id),
            None => {
                return DocumentIdentity::New { document_id: None };
            },
        };
        if requested_id.is_empty() {
            return DocumentIdentity::New { document_id: None };
        }
        match self.find_owner(requested_id) {
            None => DocumentIdentity::New { document_id: Some(requested_id.to_owned()) },
            Some(i) => {
                let row: &DocumentRow = &self.docs[i];
                if same_text(row.namespace.as_str(), namespace) {
                    DocumentIdentity::StaleKey {
                        document_id: requested_id.to_owned(),
                        created_at: row.created_at,
                    }
                } else {
                    DocumentIdentity::New { document_id: None }
                }
            },
        }
    }
}

/// A blank requested id is no request.
pub proof fn law_blank_request_is_none(
    docs: Seq<crate::documents::RowView>,
    namespace: Seq<char>,
    key: Seq<char>,
    requested: Seq<char>,
)
    requires
        crate::text::is_blank(requested),
    ensures
        identity(docs, namespace, key, Some(requested)) == identity(docs, namespace, key, None),
{
}

proof fn lemma_character_has_no_zero(c: char)
    requires
        c as int != 0,
    ensures
        forall|i: int|
            0 <= i < vstd::utf8::encode_scalar(c as u32).len()
                ==> #[trigger] vstd::utf8::encode_scalar(c as u32)[i] != 0,
{
    let n = c as u32;
    assert(n != 0);
    assert(0 < n <= 0x7f ==> (n & 0x7f) as u8 != 0) by (bit_vector);
    assert((0xc0u8 | ((n >> 6) & 0x1f) as u8) != 0) by (bit_vector);
    assert((0xe0u8 | ((n >> 12) & 0x0f) as u8) != 0) by (bit_vector);
    assert((0xf0u8 | ((n >> 18) & 0x7) as u8) != 0) by (bit_vector);
    assert((0x80u8 | (n & 0x3f) as u8) != 0) by (bit_vector);
    assert((0x80u8 | ((n >> 6) & 0x3f) as u8) != 0) by (bit_vector);
    assert((0x80u8 | ((n >> 12) & 0x3f) as u8) != 0) by (bit_vector);
}

proof fn lemma_encoding_has_no_zero(text: Seq<char>)
    requires
        forall|i: int| 0 <= i < text.len() ==> text[i] as int != 0,
    ensures
        forall|i: int|
            0 <= i < vstd::utf8::encode_utf8(text).len() ==> #[trigger] vstd::utf8::encode_utf8(
                text,
            )[i] != 0,
    decreases text.len(),
{
    if text.len() > 0 {
        let rest = text.drop_first();
        assert(text[0] as int != 0);
        assert forall|i: int| 0 <= i < rest.len() implies rest[i] as int != 0 by {
            assert(rest[i] == text[i + 1]);
        }
        lemma_character_has_no_zero(text[0]);
        lemma_encoding_has_no_zero(rest);
        let head = vstd::utf8::encode_scalar(text[0] as u32);
        let whole = vstd::utf8::encode_utf8(text);
        assert forall|i: int| 0 <= i < whole.len() implies #[trigger] whole[i] != 0 by {
            if i < head.len() {
                assert(whole[i] == head[i]);
            } else {
                assert(whole[i] == vstd::utf8::encode_utf8(rest)[i - head.len()]);
            }
        }
    }
}

/// The zero byte separates the halves: what an id is derived from is the same for
/// two documents only where namespace and key are, as long as the namespaces hold
/// no zero character.
pub proof fn law_preimages_differ(
    namespace: Seq<char>,
    key: Seq<char>,
    other_namespace: Seq<char>,
    other_key: Seq<char>,
)
    requires
        forall|i: int| 0 <= i < namespace.len() ==> namespace[i] as int != 0,
        forall|i: int| 0 <= i < other_namespace.len() ==> other_namespace[i] as int != 0,
        id_preimage(namespace, key) == id_preimage(other_namespace, other_key),
    ensures
        namespace == other_namespace,
        key == other_key,
{
    let a = vstd::utf8::encode_utf8(namespace);
    let b = vstd::utf8::encode_utf8(other_namespace);
    let whole = id_preimage(namespace, key);
    lemma_encoding_has_no_zero(namespace);
    lemma_encoding_has_no_zero(other_namespace);
    assert(whole[a.len() as int] == 0);
    assert(whole[b.len() as int] == 0);
    if a.len() < b.len() {
        assert(whole[a.len() as int] == b[a.len() as int]);
    }
    if b.len() < a.len() {
        assert(whole[b.len() as int] == a[b.len() as int]);
    }
    assert(a =~= whole.take(a.len() as int));
    assert(b =~= whole.take(b.len() as int));
    assert(vstd::utf8::encode_utf8(key) =~= whole.skip(a.len() as int + 1));
    assert(vstd::utf8::encode_utf8(other_key) =~= whole.skip(b.len() as int + 1));
    vstd::utf8::encode_utf8_decode_utf8(namespace);
    vstd::utf8::encode_utf8_decode_utf8(other_namespace);
    vstd::utf8::encode_utf8_decode_utf8(key);
    vstd::utf8::encode_utf8_decode_utf8(other_key);
}

/// The value of a hexadecimal digit.
pub open spec fn hex_value(c: char) -> int {
    if '0' <= c <= '9' {
        c as int - '0' as int
    } else {
        c as int - 'a' as int + 10
    }
}

/// Hexadecimal digits spell the bytes, two for each, the higher one first.
pub proof fn law_hex_spells_the_bytes(bytes: Seq<u8>, i: int)
    requires
        0 <= i < bytes.len(),
    ensures
        hex(bytes).len() == 2 * bytes.len(),
        16 * hex_value(hex(bytes)[2 * i]) + hex_value(hex(bytes)[2 * i + 1]) == bytes[i],
        is_hex_digit(hex(bytes)[2 * i]) && is_hex_digit(hex(bytes)[2 * i + 1]),
    decreases bytes.len(),
{
    lemma_hex(bytes);
    let before = bytes.drop_last();
    lemma_hex(before);
    if i < before.len() {
        law_hex_spells_the_bytes(before, i);
        assert(hex(bytes)[2 * i] == hex(before)[2 * i]);
        assert(hex(bytes)[2 * i + 1] == hex(before)[2 * i + 1]);
    } else {
        let byte = bytes.last() as int;
        assert(hex_value(hex_digit(byte / 16)) == byte / 16);
        assert(hex_value(hex_digit(byte % 16)) == byte % 16);
    }
}

/// A derived id is made of the first half of the digest of the namespace, a zero byte and
/// the key, and of nothing else: the same namespace and key always have the same id.
pub proof fn law_derived_ids_spell_the_digest(namespace: Seq<char>, key: Seq<char>, i: int)
    requires
        0 <= i < 16,
    ensures
        crate::outside::sha256(id_preimage(namespace, key)).len() == 32 ==> derived_id(
            namespace,
            key,
        ).len() == 32 && 16 * hex_value(derived_id(namespace, key)[2 * i]) + hex_value(
            derived_id(namespace, key)[2 * i + 1],
        ) == crate::outside::sha256(id_preimage(namespace, key))[i],
        id_preimage(namespace, key).take(vstd::utf8::encode_utf8(namespace).len() as int)
            == vstd::utf8::encode_utf8(namespace),
        id_preimage(namespace, key)[vstd::utf8::encode_utf8(namespace).len() as int] == 0,
        id_preimage(namespace, key).skip(vstd::utf8::encode_utf8(namespace).len() as int + 1)
            == vstd::utf8::encode_utf8(key),
{
    let head = vstd::utf8::encode_utf8(namespace);
    let preimage = id_preimage(namespace, key);
    if crate::outside::sha256(preimage).len() == 32 {
        law_hex_spells_the_bytes(crate::outside::sha256(preimage).take(16), i);
    }
    assert(preimage.take(head.len() as int) =~= head);
    assert(preimage.skip(head.len() as int + 1) =~= vstd::utf8::encode_utf8(key));
}

/// The row that a write addresses: the row under its key, whatever id is asked for; else the
/// row with the id asked for, if it is in the namespace; else a new one, with the id asked
/// for where no other namespace has it. An id is asked for without the white space around
/// it.
pub proof fn law_writes_address_one_row(
    docs: Seq<crate::documents::RowView>,
    namespace: Seq<char>,
    key: Seq<char>,
    requested: Option<Seq<char>>,
)
    ensures
        match identity(docs, namespace, key, requested) {
            IdentityView::Existing { document_id, created_at } => exists|i: int|
                0 <= i < docs.len() && (#[trigger] docs[i]).namespace == namespace && docs[i].key
                    == key && docs[i].document_id == document_id && docs[i].created_at
                    == created_at,
            IdentityView::StaleKey { document_id, created_at } => {
                &&& requested is Some && document_id == crate::text::trimmed(requested->0)
                &&& exists|i: int|
                    0 <= i < docs.len() && (#[trigger] docs[i]).namespace == namespace
                        && docs[i].document_id == document_id && docs[i].created_at == created_at
                &&& forall|i: int|
                    0 <= i < docs.len() ==> !((#[trigger] docs[i]).namespace == namespace
                        && docs[i].key == key)
            },
            IdentityView::New { document_id } => {
                &&& forall|i: int|
                    0 <= i < docs.len() ==> !((#[trigger] docs[i]).namespace == namespace
                        && docs[i].key == key)
                &&& document_id is Some ==> requested is Some && document_id->0
                    == crate::text::trimmed(requested->0) && document_id->0.len() > 0 && forall|
                    i: int,
                |
                    0 <= i < docs.len() ==> (#[trigger] docs[i]).document_id != document_id->0
                &&& document_id is None && requested is Some && !crate::text::is_blank(
                    requested->0,
                ) ==> exists|i: int|
                    0 <= i < docs.len() && (#[trigger] docs[i]).document_id
                        == crate::text::trimmed(requested->0) && docs[i].namespace != namespace
            },
        },
{
    let by_key = |r: crate::documents::RowView| r.has_key(namespace, key);
    crate::rows::lemma_first_where(docs, by_key);
    let held = crate::documents::by_key(docs, namespace, key);
    if held < docs.len() {
        assert(by_key(docs[held]));
    } else {
        assert forall|i: int| 0 <= i < docs.len() implies !((#[trigger] docs[i]).namespace
            == namespace && docs[i].key == key) by {
            assert(!by_key(docs[i]));
        }
    }
    let wanted = wanted_id(requested);
    if wanted is Some {
        let by_id = |r: crate::documents::RowView| r.document_id == wanted->0;
        crate::rows::lemma_first_where(docs, by_id);
        let owner = crate::documents::owner_of(docs, wanted->0);
        if owner < docs.len() {
            assert(by_id(docs[owner]));
        } else {
            assert forall|i: int| 0 <= i < docs.len() implies (#[trigger] docs[i]).document_id
                != wanted->0 by {
                assert(!by_id(docs[i]));
            }
        }
    }
}

} // verus!
