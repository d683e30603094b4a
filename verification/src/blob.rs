//! The git blob object: `blob <content-length>\0<content>`, a header
//! naming the object type and the decimal content length, a null byte,
//! and the content itself. Parsing is verified against a specification
//! of the exact layout; content hashing is a collaborator.

use vstd::prelude::*;

use crate::json::{append_hex, hex_bytes};
use crate::nostr::{sha1_digest, sha1_of};

verus! {

/// Whether a byte is an ASCII decimal digit.
pub open spec fn is_dec_digit(b: u8) -> bool {
    48 <= b <= 57
}

/// The digits of a size literal: everything after an optional leading
/// `+` sign.
pub open spec fn digits_part(s: Seq<u8>) -> Seq<u8> {
    if s.len() > 0 && s[0] == 43 {
        s.skip(1)
    } else {
        s
    }
}

/// Whether a byte sequence is a decimal size literal: an optional `+`
/// sign, then at least one digit and nothing else.
pub open spec fn is_size_literal(s: Seq<u8>) -> bool {
    let d = digits_part(s);
    &&& d.len() > 0
    &&& forall|i: int| 0 <= i < d.len() ==> is_dec_digit(#[trigger] d[i])
}

/// The value of a digit sequence, most significant digit first.
pub open spec fn dec_value(d: Seq<u8>) -> int
    decreases d.len(),
{
    if d.len() == 0 {
        0
    } else {
        dec_value(d.take(d.len() - 1)) * 10 + (d.last() - 48)
    }
}

/// A longer digit prefix never has a smaller value.
proof fn lemma_dec_value_prefix(d: Seq<u8>, i: int)
    requires
        0 <= i <= d.len(),
        forall|j: int| 0 <= j < d.len() ==> is_dec_digit(#[trigger] d[j]),
    ensures
        dec_value(d.take(i)) <= dec_value(d),
    decreases d.len() - i,
{
    if i == d.len() {
        assert(d.take(i) =~= d);
    } else {
        lemma_dec_value_prefix(d, i + 1);
        let p = d.take(i + 1);
        assert(p.take(p.len() - 1) =~= d.take(i));
        assert(dec_value(d.take(i + 1)) == dec_value(d.take(i)) * 10 + (d[i] - 48));
        assert(dec_value(d.take(i)) >= 0) by {
            lemma_dec_value_nonneg(d.take(i));
        }
    }
}

/// A digit sequence's value is never negative.
proof fn lemma_dec_value_nonneg(d: Seq<u8>)
    requires
        forall|j: int| 0 <= j < d.len() ==> is_dec_digit(#[trigger] d[j]),
    ensures
        dec_value(d) >= 0,
    decreases d.len(),
{
    if d.len() == 0 {
    } else {
        let p = d.take(d.len() - 1);
        assert(forall|j: int| 0 <= j < p.len() ==> is_dec_digit(#[trigger] p[j]));
        lemma_dec_value_nonneg(p);
    }
}

/// The error a size parse reports: bytes that are no decimal literal,
/// or a value too large for this machine.
#[derive(Clone, Copy, Debug, PartialEq, Eq, Structural)]
pub enum ParseSizeError {
    NotANumber,
    TooLarge,
}

/// Parses the decimal size portion of a serialized git object: an
/// optional `+` sign, then decimal digits. Succeeds exactly on such
/// literals whose value fits the machine's word.
pub fn parse_size_from_bytes(bytes: &[u8]) -> (r: Result<usize, ParseSizeError>)
    ensures
        r is Ok <==> (is_size_literal(bytes@) && dec_value(digits_part(bytes@)) <= usize::MAX),
        r is Ok ==> r->Ok_0 == dec_value(digits_part(bytes@)),
        r is Err ==> r->Err_0 == (if is_size_literal(bytes@) {
            ParseSizeError::TooLarge
        } else {
            ParseSizeError::NotANumber
        }),
{
    let len = bytes.len();
    if len == 0 {
        return Err(ParseSizeError::NotANumber);
    }
    let start: usize = if bytes[0] == 43 {
        1
    } else {
        0
    };
    if start == len {
        return Err(ParseSizeError::NotANumber);
    }
    let ghost d = digits_part(bytes@);
    proof {
        assert(d =~= bytes@.subrange(start as int, len as int));
    }
    let mut i: usize = start;
    while i < len
        invariant
            start <= i <= len,
            len == bytes@.len(),
            start < len,
            d == digits_part(bytes@),
            d == bytes@.subrange(start as int, len as int),
            forall|j: int| 0 <= j < i - start ==> is_dec_digit(#[trigger] d[j]),
        decreases len - i,
    {
        let b = bytes[i];
        if b < 48 || b > 57 {
            proof {
                assert(d[i - start] == bytes@[i as int]);
                assert(!is_dec_digit(d[i - start]));
                assert(!is_size_literal(bytes@)) by {
                    assert(digits_part(bytes@)[i - start] == d[i - start]);
                }
            }
            return Err(ParseSizeError::NotANumber);
        }
        i += 1;
    }
    let mut acc: usize = 0;
    i = start;
    proof {
        assert(d.take(0) =~= Seq::<u8>::empty());
    }
    while i < len
        invariant
            start <= i <= len,
            len == bytes@.len(),
            start < len,
            d == digits_part(bytes@),
            d == bytes@.subrange(start as int, len as int),
            forall|j: int| 0 <= j < d.len() ==> is_dec_digit(#[trigger] d[j]),
            acc == dec_value(d.take(i - start)),
        decreases len - i,
    {
        let b = bytes[i];
        proof {
            assert(d[i - start] == bytes@[i as int]);
            assert(is_dec_digit(d[i - start]));
        }
        let digit = (b - 48) as usize;
        let next = match acc.checked_mul(10) {
            Some(m) => m.checked_add(digit),
            None => None,
        };
        proof {
            let p = d.take(i - start + 1);
            assert(p.take(p.len() - 1) =~= d.take(i - start));
            assert(p.last() == d[i - start]);
            assert(d[i - start] == bytes@[i as int]);
        }
        acc = match next {
            Some(v) => v,
            None => {
                proof {
                    assert(dec_value(d.take(i - start + 1)) > usize::MAX);
                    lemma_dec_value_prefix(d, i - start + 1);
                    assert(dec_value(digits_part(bytes@)) > usize::MAX);
                    assert(is_size_literal(bytes@)) by {
                        assert(forall|j: int|
                            0 <= j < digits_part(bytes@).len() ==> is_dec_digit(
                                #[trigger] digits_part(bytes@)[j],
                            ));
                    }
                }
                return Err(ParseSizeError::TooLarge);
            },
        };
        i += 1;
    }
    proof {
        assert(d.take(d.len() as int) =~= d);
    }
    Ok(acc)
}

/// The position of the first occurrence of a byte, when there is one.
pub fn find_byte(data: &[u8], needle: u8) -> (r: Option<usize>)
    ensures
        match r {
            Some(i) => {
                &&& i < data@.len()
                &&& data@[i as int] == needle
                &&& forall|j: int| 0 <= j < i ==> data@[j] != needle
            },
            None => forall|j: int| 0 <= j < data@.len() ==> data@[j] != needle,
        },
{
    let mut i: usize = 0;
    while i < data.len()
        invariant
            i <= data@.len(),
            forall|j: int| 0 <= j < i ==> data@[j] != needle,
        decreases data@.len() - i,
    {
        if data[i] == needle {
            return Some(i);
        }
        i += 1;
    }
    None
}

/// A SHA-1 object identifier: twenty bytes.
pub struct SHA1 {
    pub bytes: Vec<u8>,
}

impl View for SHA1 {
    type V = Seq<u8>;

    open spec fn view(&self) -> Seq<u8> {
        self.bytes@
    }
}

impl SHA1 {
    /// A well-formed identifier holds exactly twenty bytes.
    pub open spec fn wf(&self) -> bool {
        self@.len() == 20
    }

    /// Hashes a byte slice to its identifier.
    pub fn new(data: &[u8]) -> (r: SHA1)
        ensures
            r@ == sha1_of(data@),
            r.wf(),
    {
        SHA1 { bytes: sha1_digest(data) }
    }

    /// The lower-case hexadecimal rendering of the identifier.
    pub fn to_hex(&self) -> (r: Vec<u8>)
        ensures
            r@ == hex_bytes(self@),
    {
        let mut out: Vec<u8> = Vec::new();
        append_hex(&mut out, self.bytes.as_slice());
        out
    }
}

/// The git object types.
#[derive(Clone, Copy, Debug, PartialEq, Eq, Structural)]
pub enum ObjectType {
    Commit,
    Tree,
    Blob,
    Tag,
}

/// Whether `b` first occurs in `s` at position `i`.
pub open spec fn first_at(s: Seq<u8>, b: u8, i: int) -> bool {
    &&& 0 <= i < s.len()
    &&& s[i] == b
    &&& forall|j: int| 0 <= j < i ==> s[j] != b
}

/// The position of the first occurrence of `b` in `s`.
pub open spec fn first_pos(s: Seq<u8>, b: u8) -> int {
    choose|i: int| first_at(s, b, i)
}

/// First occurrences are unique.
proof fn lemma_first_at_unique(s: Seq<u8>, b: u8, i: int, j: int)
    requires
        first_at(s, b, i),
        first_at(s, b, j),
    ensures
        i == j,
{
    if i < j {
        assert(s[i] != b);
    } else if j < i {
        assert(s[j] != b);
    }
}

/// The ASCII bytes of the `blob` header keyword.
pub open spec fn blob_header() -> Seq<u8> {
    seq![98u8, 108u8, 111u8, 98u8]
}

/// Whether bytes are a well-formed serialized blob: a `blob` keyword up
/// to the first space, then a decimal length up to the first null byte,
/// then exactly that many content bytes.
pub open spec fn blob_wf_bytes(data: Seq<u8>) -> bool {
    exists|sp: int, nul: int|
        {
            &&& #[trigger] first_at(data, 32, sp)
            &&& #[trigger] first_at(data, 0, nul)
            &&& data.take(sp) == blob_header()
            &&& sp < nul
            &&& is_size_literal(data.subrange(sp + 1, nul))
            &&& dec_value(digits_part(data.subrange(sp + 1, nul))) == data.len() - nul - 1
        }
}

/// The content of a well-formed serialized blob: everything after the
/// first null byte.
pub open spec fn blob_content(data: Seq<u8>) -> Seq<u8> {
    data.skip(first_pos(data, 0) + 1)
}

/// A blob object: the contents of one file version, under a content
/// identifier. Two blobs are equal exactly when their identifiers are.
pub struct Blob {
    pub id: SHA1,
    pub size: usize,
    pub data: Vec<u8>,
}

/// Byte-for-byte equality of two byte slices.
pub fn bytes_eq(a: &[u8], b: &[u8]) -> (r: bool)
    ensures
        r == (a@ == b@),
{
    if a.len() != b.len() {
        return false;
    }
    let mut i: usize = 0;
    while i < a.len()
        invariant
            i <= a@.len(),
            a@.len() == b@.len(),
            forall|j: int| 0 <= j < i ==> a@[j] == b@[j],
        decreases a@.len() - i,
    {
        if a[i] != b[i] {
            return false;
        }
        i += 1;
    }
    proof {
        assert(a@ =~= b@);
    }
    true
}

impl PartialEq for Blob {
    /// A blob equals another exactly when their identifiers are equal.
    fn eq(&self, other: &Self) -> (r: bool) {
        bytes_eq(self.id.bytes.as_slice(), other.id.bytes.as_slice())
    }
}

impl vstd::std_specs::cmp::PartialEqSpecImpl for Blob {
    open spec fn obeys_eq_spec() -> bool {
        true
    }

    open spec fn eq_spec(&self, other: &Blob) -> bool {
        self.id@ == other.id@
    }
}

/// Copies the byte range `[from, to)` of a slice into a vector.
fn slice_range_vec(data: &[u8], from: usize, to: usize) -> (r: Vec<u8>)
    requires
        from <= to <= data@.len(),
    ensures
        r@ == data@.subrange(from as int, to as int),
{
    let mut out: Vec<u8> = Vec::new();
    let mut i: usize = from;
    proof {
        assert(out@ =~= data@.subrange(from as int, from as int));
    }
    while i < to
        invariant
            from <= i <= to <= data@.len(),
            out@ == data@.subrange(from as int, i as int),
        decreases to - i,
    {
        out.push(data[i]);
        proof {
            assert(data@.subrange(from as int, i + 1) =~= data@.subrange(from as int, i as int).push(
                data@[i as int],
            ));
        }
        i += 1;
    }
    out
}

impl Blob {
    /// Parses a serialized blob, hashing the whole input for its
    /// identifier.
    pub fn from_bytes(data: Vec<u8>) -> (r: Blob)
        requires
            blob_wf_bytes(data@),
        ensures
            r.id@ == sha1_of(data@),
            r.data@ == blob_content(data@),
            r.size == r.data@.len(),
    {
        let id = SHA1::new(data.as_slice());
        Blob::parse_with_id(data, id)
    }

    /// Parses a serialized blob under a given identifier.
    pub fn from_bytes_with_id(data: Vec<u8>, id: SHA1) -> (r: Blob)
        requires
            blob_wf_bytes(data@),
        ensures
            r.id@ == id@,
            r.data@ == blob_content(data@),
            r.size == r.data@.len(),
    {
        Blob::parse_with_id(data, id)
    }

    /// The shared parse: locate the header and the null byte, read the
    /// declared length, and take the content verbatim.
    fn parse_with_id(data: Vec<u8>, id: SHA1) -> (r: Blob)
        requires
            blob_wf_bytes(data@),
        ensures
            r.id@ == id@,
            r.data@ == blob_content(data@),
            r.size == r.data@.len(),
    {
        let ghost (g_sp, g_nul): (int, int) = choose|sp: int, nul: int|
            {
                &&& #[trigger] first_at(data@, 32, sp)
                &&& #[trigger] first_at(data@, 0, nul)
                &&& data@.take(sp) == blob_header()
                &&& sp < nul
                &&& is_size_literal(data@.subrange(sp + 1, nul))
                &&& dec_value(digits_part(data@.subrange(sp + 1, nul))) == data@.len() - nul - 1
            };
        let header_offset = match find_byte(data.as_slice(), 32) {
            Some(i) => i,
            None => {
                proof {
                    assert(data@[g_sp] == 32);
                }
                unreached()
            },
        };
        let size_offset = match find_byte(data.as_slice(), 0) {
            Some(i) => i,
            None => {
                proof {
                    assert(data@[g_nul] == 0);
                }
                unreached()
            },
        };
        proof {
            lemma_first_at_unique(data@, 32, header_offset as int, g_sp);
            lemma_first_at_unique(data@, 0, size_offset as int, g_nul);
            assert(first_pos(data@, 0) == g_nul) by {
                let w = first_pos(data@, 0);
                assert(first_at(data@, 0, w));
                lemma_first_at_unique(data@, 0, w, g_nul);
            }
        }
        let dlen = data.len();
        let size_bytes = slice_range_vec(data.as_slice(), header_offset + 1, size_offset);
        let size = match parse_size_from_bytes(size_bytes.as_slice()) {
            Ok(s) => s,
            Err(_) => unreached(),
        };
        proof {
            assert(size_offset < dlen);
        }
        let content = slice_range_vec(data.as_slice(), size_offset + 1, dlen);
        proof {
            assert(content@ =~= blob_content(data@));
        }
        Blob { id, size, data: content }
    }

    /// The object type of a blob.
    pub fn get_type(&self) -> (r: ObjectType)
        ensures
            r == ObjectType::Blob,
    {
        ObjectType::Blob
    }
}

} // verus!
