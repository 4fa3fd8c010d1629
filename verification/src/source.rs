//! Verified source bytes: descriptors that bind an identity and role to exact
//! bytes, and the document/map views that result records are checked against.
use crate::text::{is_lower_hex_byte, str_eq, utf8_of};
use vstd::prelude::*;
use vstd::utf8::*;

verus! {

/// The semantic role a source plays in an operation.
#[derive(Clone, Copy, Debug, PartialEq, Eq, Structural)]
pub enum SourceRole {
    Source,
    Before,
    After,
    Incoming,
    Current,
    Base,
    Ours,
    Theirs,
    Output,
}

/// Position of a role in the canonical role order (the declaration order).
pub open spec fn role_rank(role: SourceRole) -> int {
    match role {
        SourceRole::Source => 0,
        SourceRole::Before => 1,
        SourceRole::After => 2,
        SourceRole::Incoming => 3,
        SourceRole::Current => 4,
        SourceRole::Base => 5,
        SourceRole::Ours => 6,
        SourceRole::Theirs => 7,
        SourceRole::Output => 8,
    }
}

/// The wire name of a role.
pub open spec fn role_name_spec(role: SourceRole) -> Seq<char> {
    match role {
        SourceRole::Source => "source"@,
        SourceRole::Before => "before"@,
        SourceRole::After => "after"@,
        SourceRole::Incoming => "incoming"@,
        SourceRole::Current => "current"@,
        SourceRole::Base => "base"@,
        SourceRole::Ours => "ours"@,
        SourceRole::Theirs => "theirs"@,
        SourceRole::Output => "output"@,
    }
}

impl SourceRole {
    /// The role's rank in the canonical role order.
    pub fn rank(self) -> (r: u8)
        ensures
            r == role_rank(self),
    {
        match self {
            SourceRole::Source => 0,
            SourceRole::Before => 1,
            SourceRole::After => 2,
            SourceRole::Incoming => 3,
            SourceRole::Current => 4,
            SourceRole::Base => 5,
            SourceRole::Ours => 6,
            SourceRole::Theirs => 7,
            SourceRole::Output => 8,
        }
    }
}

/// The wire name of a role.
pub fn role_name(role: SourceRole) -> (r: &'static str)
    ensures
        r@ == role_name_spec(role),
{
    match role {
        SourceRole::Source => "source",
        SourceRole::Before => "before",
        SourceRole::After => "after",
        SourceRole::Incoming => "incoming",
        SourceRole::Current => "current",
        SourceRole::Base => "base",
        SourceRole::Ours => "ours",
        SourceRole::Theirs => "theirs",
        SourceRole::Output => "output",
    }
}

#[derive(Clone, Copy, Debug, PartialEq, Eq, Structural)]
pub enum SourceEncoding {
    Utf8,
    Binary,
}

/// Which line terminators occur in a source.
#[derive(Clone, Copy, Debug, PartialEq, Eq, Structural)]
pub enum LineEndings {
    Absent,
    Lf,
    Crlf,
    Cr,
    Mixed,
}

#[derive(Clone, Copy, Debug, PartialEq, Eq, Structural)]
pub enum SourceErrorCode {
    EmptySourceId,
    DuplicateSourceId,
    InvalidUtf8,
    DescriptorMismatch,
    LimitExceeded,
    UnknownSource,
    InvalidRange,
}

#[derive(Clone, Debug, PartialEq, Eq)]
pub struct SourceError {
    pub source_id: String,
    pub code: SourceErrorCode,
}

#[derive(Clone, Copy, Debug, PartialEq, Eq, Structural)]
pub struct ByteRange {
    pub start_byte: usize,
    pub end_byte: usize,
}

#[derive(Clone, Copy, Debug, PartialEq, Eq, Structural)]
pub struct SourcePoint {
    pub row: usize,
    pub column: usize,
}

/// Identity, role and exact-byte evidence of one source.
#[derive(Clone, Debug, PartialEq, Eq)]
pub struct SourceDescriptor {
    pub source_id: String,
    pub role: SourceRole,
    pub encoding: SourceEncoding,
    pub byte_length: u64,
    pub sha256: String,
    pub bom: bool,
    pub line_endings: LineEndings,
    pub final_newline: bool,
}

/// A descriptor together with the bytes it claims to describe.
#[derive(Clone, Debug, PartialEq, Eq)]
pub struct SourceInput {
    pub descriptor: SourceDescriptor,
    pub bytes: Vec<u8>,
}

// ---------------------------------------------------------------------------
// Byte evidence

pub uninterp spec fn sha256_digest(bytes: Seq<u8>) -> Seq<u8>;

/// `sha2::Sha256::digest`: the SHA-256 digest of `bytes`, 32 bytes long.
#[verifier::external_body]
fn sha256(bytes: &[u8]) -> (out: Vec<u8>)
    ensures
        out@ == sha256_digest(bytes@),
        out@.len() == 32,
{
    <sha2::Sha256 as sha2::Digest>::digest(bytes).to_vec()
}

/// `std::str::from_utf8`: succeeds exactly on well-formed UTF-8.
#[verifier::external_body]
fn utf8_valid(bytes: &[u8]) -> (r: bool)
    ensures
        r == valid_utf8(bytes@),
{
    std::str::from_utf8(bytes).is_ok()
}

/// `String::from_utf8_lossy`: on well-formed UTF-8 it keeps the bytes unchanged.
#[verifier::external_body]
pub(crate) fn string_from_utf8(bytes: &[u8]) -> (s: String)
    requires
        valid_utf8(bytes@),
    ensures
        utf8_of(s@) == bytes@,
{
    String::from_utf8_lossy(bytes).into_owned()
}

pub open spec fn hex_digit(n: u8) -> u8 {
    if n < 10 {
        (48 + n) as u8
    } else {
        (87 + n) as u8
    }
}

/// Lowercase hexadecimal text of a byte sequence, two digits per byte.
pub open spec fn lower_hex(bytes: Seq<u8>) -> Seq<u8>
    decreases bytes.len(),
{
    if bytes.len() == 0 {
        Seq::empty()
    } else {
        lower_hex(bytes.drop_last()) + seq![
            hex_digit(bytes.last() / 16),
            hex_digit(bytes.last() % 16),
        ]
    }
}

/// The lowercase hexadecimal SHA-256 digest of `bytes`.
pub open spec fn digest_hex(bytes: Seq<u8>) -> Seq<u8> {
    lower_hex(sha256_digest(bytes))
}

proof fn lemma_lower_hex_ascii(bytes: Seq<u8>)
    ensures
        lower_hex(bytes).len() == 2 * bytes.len(),
        forall|i: int|
            0 <= i < lower_hex(bytes).len() ==> #[trigger] is_lower_hex_byte(lower_hex(bytes)[i]),
    decreases bytes.len(),
{
    if bytes.len() > 0 {
        lemma_lower_hex_ascii(bytes.drop_last());
    }
}

fn hex_digit_exec(n: u8) -> (r: u8)
    requires
        n < 16,
    ensures
        r == hex_digit(n),
{
    if n < 10 {
        48 + n
    } else {
        87 + n
    }
}

/// Lowercase hexadecimal text of `bytes`, two digits per byte.
pub fn lower_hex_text(bytes: &[u8]) -> (s: String)
    ensures
        utf8_of(s@) == lower_hex(bytes@),
        utf8_of(s@).len() == 2 * bytes@.len(),
{
    let mut out: Vec<u8> = Vec::new();
    let mut i: usize = 0;
    while i < bytes.len()
        invariant
            i <= bytes@.len(),
            out@ == lower_hex(bytes@.take(i as int)),
        decreases bytes@.len() - i,
    {
        let b = bytes[i];
        out.push(hex_digit_exec(b / 16));
        out.push(hex_digit_exec(b % 16));
        proof {
            assert(bytes@.take(i + 1).drop_last() =~= bytes@.take(i as int));
        }
        i = i + 1;
    }
    proof {
        assert(bytes@.take(bytes@.len() as int) =~= bytes@);
        lemma_lower_hex_ascii(bytes@);
        assert(partial_valid_utf8(out@, 0)) by {
            assert(out@.subrange(0, 0) =~= Seq::<u8>::empty());
        }
        assert forall|k: int| 0 <= 0 <= k < out@.len() <= out@.len() implies #[trigger]
            is_leading_byte_width_1(out@[k]) by {
            assert(is_lower_hex_byte(lower_hex(bytes@)[k]));
        }
        partial_valid_utf8_extend_ascii_block(out@, 0, out@.len() as int);
        assert(out@.subrange(0, out@.len() as int) =~= out@);
    }
    string_from_utf8(out.as_slice())
}

/// The lowercase hexadecimal SHA-256 digest of `bytes`, as text.
pub fn sha256_hex(bytes: &[u8]) -> (s: String)
    ensures
        utf8_of(s@) == digest_hex(bytes@),
        utf8_of(s@).len() == 64,
{
    let digest = sha256(bytes);
    lower_hex_text(digest.as_slice())
}

pub open spec fn is_lf_at(b: Seq<u8>, i: int) -> bool {
    b[i] == 10 && !(i > 0 && b[i - 1] == 13)
}

pub open spec fn is_crlf_at(b: Seq<u8>, i: int) -> bool {
    b[i] == 10 && i > 0 && b[i - 1] == 13
}

pub open spec fn is_cr_at(b: Seq<u8>, i: int) -> bool {
    b[i] == 13 && !(i + 1 < b.len() && b[i + 1] == 10)
}

pub open spec fn has_lf(b: Seq<u8>) -> bool {
    exists|i: int| 0 <= i < b.len() && #[trigger] is_lf_at(b, i)
}

pub open spec fn has_crlf(b: Seq<u8>) -> bool {
    exists|i: int| 0 <= i < b.len() && #[trigger] is_crlf_at(b, i)
}

pub open spec fn has_cr(b: Seq<u8>) -> bool {
    exists|i: int| 0 <= i < b.len() && #[trigger] is_cr_at(b, i)
}

/// The line terminators that occur: none, exactly one kind, or several kinds.
pub open spec fn spec_line_endings(b: Seq<u8>) -> LineEndings {
    let lf = has_lf(b);
    let crlf = has_crlf(b);
    let cr = has_cr(b);
    if !lf && !crlf && !cr {
        LineEndings::Absent
    } else if lf && !crlf && !cr {
        LineEndings::Lf
    } else if !lf && crlf && !cr {
        LineEndings::Crlf
    } else if !lf && !crlf && cr {
        LineEndings::Cr
    } else {
        LineEndings::Mixed
    }
}

/// A UTF-8 source starts with the byte-order mark EF BB BF.
pub open spec fn spec_bom(encoding: SourceEncoding, b: Seq<u8>) -> bool {
    encoding == SourceEncoding::Utf8 && b.len() >= 3 && b[0] == 0xef && b[1] == 0xbb && b[2]
        == 0xbf
}

/// The last byte is a line terminator (LF or CR).
pub open spec fn spec_final_newline(b: Seq<u8>) -> bool {
    b.len() > 0 && (b.last() == 10 || b.last() == 13)
}

/// `d` is exactly the evidence of `bytes`.
pub open spec fn describes(d: SourceDescriptor, bytes: Seq<u8>) -> bool {
    &&& d.source_id@.len() > 0
    &&& d.byte_length == bytes.len()
    &&& utf8_of(d.sha256@) == digest_hex(bytes)
    &&& d.bom == spec_bom(d.encoding, bytes)
    &&& d.line_endings == spec_line_endings(bytes)
    &&& d.final_newline == spec_final_newline(bytes)
    &&& (d.encoding == SourceEncoding::Utf8 ==> valid_utf8(bytes))
}

fn line_endings_of(b: &[u8]) -> (r: LineEndings)
    ensures
        r == spec_line_endings(b@),
{
    let mut lf = false;
    let mut crlf = false;
    let mut cr = false;
    let mut i: usize = 0;
    while i < b.len()
        invariant
            i <= b@.len(),
            lf == exists|k: int| 0 <= k < i && #[trigger] is_lf_at(b@, k),
            crlf == exists|k: int| 0 <= k < i && #[trigger] is_crlf_at(b@, k),
            cr == exists|k: int| 0 <= k < i && #[trigger] is_cr_at(b@, k),
        decreases b@.len() - i,
    {
        if b[i] == 10 {
            if i > 0 && b[i - 1] == 13 {
                crlf = true;
                assert(is_crlf_at(b@, i as int));
            } else {
                lf = true;
                assert(is_lf_at(b@, i as int));
            }
        } else if b[i] == 13 {
            if !(i + 1 < b.len() && b[i + 1] == 10) {
                cr = true;
                assert(is_cr_at(b@, i as int));
            }
        }
        i = i + 1;
    }
    if !lf && !crlf && !cr {
        LineEndings::Absent
    } else if lf && !crlf && !cr {
        LineEndings::Lf
    } else if !lf && crlf && !cr {
        LineEndings::Crlf
    } else if !lf && !crlf && cr {
        LineEndings::Cr
    } else {
        LineEndings::Mixed
    }
}

fn bom_of(encoding: SourceEncoding, b: &[u8]) -> (r: bool)
    ensures
        r == spec_bom(encoding, b@),
{
    encoding == SourceEncoding::Utf8 && b.len() >= 3 && b[0] == 0xef && b[1] == 0xbb && b[2]
        == 0xbf
}

fn final_newline_of(b: &[u8]) -> (r: bool)
    ensures
        r == spec_final_newline(b@),
{
    b.len() > 0 && (b[b.len() - 1] == 10 || b[b.len() - 1] == 13)
}


fn source_error(source_id: &String, code: SourceErrorCode) -> (e: SourceError)
    ensures
        e.source_id@ == source_id@,
        e.code == code,
{
    SourceError { source_id: source_id.clone(), code }
}

/// Describe exact bytes: the descriptor that `describes` them.
/// Fails on an empty identity, and on UTF-8 input that is not well-formed.
pub fn source_input(
    source_id: String,
    role: SourceRole,
    encoding: SourceEncoding,
    bytes: Vec<u8>,
) -> (r: Result<SourceInput, SourceError>)
    ensures
        match r {
            Ok(input) => {
                &&& input.descriptor.source_id@ == source_id@
                &&& input.descriptor.role == role
                &&& input.descriptor.encoding == encoding
                &&& input.bytes@ == bytes@
                &&& describes(input.descriptor, bytes@)
            },
            Err(e) => {
                &&& e.source_id@ == source_id@
                &&& e.code == (if source_id@.len() == 0 {
                    SourceErrorCode::EmptySourceId
                } else {
                    SourceErrorCode::InvalidUtf8
                })
                &&& (source_id@.len() == 0 || (encoding == SourceEncoding::Utf8 && !valid_utf8(
                    bytes@,
                )))
            },
        },
        r.is_ok() <==> (source_id@.len() > 0 && (encoding == SourceEncoding::Utf8 ==> valid_utf8(
            bytes@,
        ))),
{
    if source_id.as_str().is_empty() {
        return Err(source_error(&source_id, SourceErrorCode::EmptySourceId));
    }
    if encoding == SourceEncoding::Utf8 && !utf8_valid(bytes.as_slice()) {
        return Err(source_error(&source_id, SourceErrorCode::InvalidUtf8));
    }
    let descriptor = SourceDescriptor {
        source_id,
        role,
        encoding,
        byte_length: bytes.len() as u64,
        sha256: sha256_hex(bytes.as_slice()),
        bom: bom_of(encoding, bytes.as_slice()),
        line_endings: line_endings_of(bytes.as_slice()),
        final_newline: final_newline_of(bytes.as_slice()),
    };
    Ok(SourceInput { descriptor, bytes })
}

/// Field-wise equality of two descriptors.
pub open spec fn same_descriptor(a: SourceDescriptor, b: SourceDescriptor) -> bool {
    &&& a.source_id@ == b.source_id@
    &&& a.role == b.role
    &&& a.encoding == b.encoding
    &&& a.byte_length == b.byte_length
    &&& a.sha256@ == b.sha256@
    &&& a.bom == b.bom
    &&& a.line_endings == b.line_endings
    &&& a.final_newline == b.final_newline
}

/// A field-wise copy of a descriptor.
pub fn copy_descriptor(d: &SourceDescriptor) -> (r: SourceDescriptor)
    ensures
        same_descriptor(*d, r),
{
    SourceDescriptor {
        source_id: d.source_id.clone(),
        role: d.role,
        encoding: d.encoding,
        byte_length: d.byte_length,
        sha256: d.sha256.clone(),
        bom: d.bom,
        line_endings: d.line_endings,
        final_newline: d.final_newline,
    }
}

/// Field-wise comparison of two descriptors.
pub(crate) fn descriptors_equal(a: &SourceDescriptor, b: &SourceDescriptor) -> (r: bool)
    ensures
        r == same_descriptor(*a, *b),
{
    str_eq(a.source_id.as_str(), b.source_id.as_str()) && a.role == b.role && a.encoding == b.encoding
        && a.byte_length == b.byte_length && str_eq(a.sha256.as_str(), b.sha256.as_str()) && a.bom == b.bom
        && a.line_endings == b.line_endings && a.final_newline == b.final_newline
}

/// Check `d` against `bytes`; `Ok` exactly when `d` describes them.
fn check_descriptor(d: &SourceDescriptor, bytes: &[u8]) -> (r: bool)
    ensures
        r == describes(*d, bytes@),
{
    if d.source_id.as_str().is_empty() || d.byte_length != bytes.len() as u64 {
        return false;
    }
    if d.encoding == SourceEncoding::Utf8 && !utf8_valid(bytes) {
        return false;
    }
    let digest = sha256_hex(bytes);
    let same_digest = str_eq(d.sha256.as_str(), digest.as_str());
    proof {
        broadcast use vstd::utf8::encode_utf8_decode_utf8;
        if utf8_of(d.sha256@) == digest_hex(bytes@) {
            assert(decode_utf8(utf8_of(d.sha256@)) == d.sha256@);
            assert(decode_utf8(utf8_of(digest@)) == digest@);
        }
    }
    same_digest && d.bom == bom_of(d.encoding, bytes) && d.line_endings == line_endings_of(bytes)
        && d.final_newline == final_newline_of(bytes)
}

/// A descriptor bound to the exact bytes it describes.
#[derive(Debug, PartialEq, Eq)]
pub struct SourceDocument {
    descriptor: SourceDescriptor,
    bytes: Vec<u8>,
}

impl SourceDocument {
    #[verifier::type_invariant]
    spec fn inv(self) -> bool {
        describes(self.descriptor, self.bytes@)
    }

    pub closed spec fn desc(self) -> SourceDescriptor {
        self.descriptor
    }

    pub closed spec fn data(self) -> Seq<u8> {
        self.bytes@
    }

    /// The document's descriptor, which describes its bytes.
    pub fn descriptor(&self) -> (d: &SourceDescriptor)
        ensures
            *d == self.desc(),
            describes(*d, self.data()),
    {
        proof {
            use_type_invariant(self);
        }
        &self.descriptor
    }

    /// The document's exact bytes.
    pub fn bytes(&self) -> (b: &[u8])
        ensures
            b@ == self.data(),
            describes(self.desc(), b@),
    {
        proof {
            use_type_invariant(self);
        }
        self.bytes.as_slice()
    }

    /// Bind an input to its bytes. The checks run in this order: identity,
    /// byte budget, UTF-8 well-formedness, descriptor evidence.
    pub fn validate(input: SourceInput, max_bytes: u64) -> (r: Result<SourceDocument, SourceError>)
        ensures
            document_error(input.descriptor, input.bytes@, max_bytes as int) is None <==> r.is_ok(),
            match r {
                Ok(doc) => doc.desc() == input.descriptor && doc.data() == input.bytes@,
                Err(e) => {
                    &&& document_error(input.descriptor, input.bytes@, max_bytes as int) == Some(
                        e.code,
                    )
                    &&& e.source_id@ == input.descriptor.source_id@
                },
            },
    {
        let code = first_document_error(&input.descriptor, input.bytes.as_slice(), max_bytes);
        match code {
            Some(c) => Err(source_error(&input.descriptor.source_id, c)),
            None => Ok(SourceDocument { descriptor: input.descriptor, bytes: input.bytes }),
        }
    }

    /// The bytes of `range`; fails unless `start <= end <= len`.
    pub fn slice(&self, range: ByteRange) -> (r: Result<&[u8], SourceError>)
        ensures
            r.is_ok() <==> valid_range(range, self.data().len()),
            match r {
                Ok(b) => b@ == self.data().subrange(range.start_byte as int, range.end_byte as int),
                Err(e) => e.code == SourceErrorCode::InvalidRange && e.source_id@
                    == self.desc().source_id@,
            },
    {
        if range.start_byte <= range.end_byte && range.end_byte <= self.bytes.len() {
            Ok(&self.bytes.as_slice()[range.start_byte..range.end_byte])
        } else {
            Err(source_error(&self.descriptor.source_id, SourceErrorCode::InvalidRange))
        }
    }

    /// Row and byte column of `offset`: rows count LF bytes before it, the
    /// column counts bytes since the last LF. Fails beyond the end.
    pub fn point(&self, offset: usize) -> (r: Result<SourcePoint, SourceError>)
        ensures
            r.is_ok() <==> offset <= self.data().len(),
            match r {
                Ok(p) => p.row == count_lf(self.data().take(offset as int)) && p.column == offset
                    - line_start(self.data().take(offset as int)),
                Err(e) => e.code == SourceErrorCode::InvalidRange && e.source_id@
                    == self.desc().source_id@,
            },
    {
        if offset > self.bytes.len() {
            return Err(source_error(&self.descriptor.source_id, SourceErrorCode::InvalidRange));
        }
        let mut row: usize = 0;
        let mut start: usize = 0;
        let mut i: usize = 0;
        while i < offset
            invariant
                offset <= self.bytes@.len(),
                i <= offset,
                row == count_lf(self.bytes@.take(i as int)),
                start == line_start(self.bytes@.take(i as int)),
                row <= i,
                start <= i,
            decreases offset - i,
        {
            proof {
                assert(self.bytes@.take(i + 1).drop_last() =~= self.bytes@.take(i as int));
            }
            if self.bytes[i] == 10 {
                row = row + 1;
                start = i + 1;
            }
            i = i + 1;
        }
        Ok(SourcePoint { row, column: offset - start })
    }

    /// Lowercase hexadecimal SHA-256 of the bytes of `range`.
    pub fn range_digest(&self, range: ByteRange) -> (r: Result<String, SourceError>)
        ensures
            r.is_ok() <==> valid_range(range, self.data().len()),
            match r {
                Ok(s) => utf8_of(s@) == digest_hex(
                    self.data().subrange(range.start_byte as int, range.end_byte as int),
                ),
                Err(e) => e.code == SourceErrorCode::InvalidRange && e.source_id@
                    == self.desc().source_id@,
            },
    {
        let bytes = self.slice(range)?;
        Ok(sha256_hex(bytes))
    }
}

pub open spec fn valid_range(range: ByteRange, len: nat) -> bool {
    range.start_byte <= range.end_byte && range.end_byte <= len
}

/// Number of LF bytes.
pub open spec fn count_lf(b: Seq<u8>) -> nat
    decreases b.len(),
{
    if b.len() == 0 {
        0
    } else {
        count_lf(b.drop_last()) + if b.last() == 10 {
            1nat
        } else {
            0nat
        }
    }
}

/// Offset just after the last LF byte, or 0 without one.
pub open spec fn line_start(b: Seq<u8>) -> nat
    decreases b.len(),
{
    if b.len() == 0 {
        0
    } else if b.last() == 10 {
        b.len()
    } else {
        line_start(b.drop_last())
    }
}

/// The first failing check on a document input, in check order.
pub open spec fn document_error(d: SourceDescriptor, bytes: Seq<u8>, budget: int) -> Option<
    SourceErrorCode,
> {
    if d.source_id@.len() == 0 {
        Some(SourceErrorCode::EmptySourceId)
    } else if bytes.len() > budget {
        Some(SourceErrorCode::LimitExceeded)
    } else if d.encoding == SourceEncoding::Utf8 && !valid_utf8(bytes) {
        Some(SourceErrorCode::InvalidUtf8)
    } else if !describes(d, bytes) {
        Some(SourceErrorCode::DescriptorMismatch)
    } else {
        None
    }
}

pub(crate) fn first_document_error(d: &SourceDescriptor, bytes: &[u8], budget: u64) -> (r: Option<
    SourceErrorCode,
>)
    ensures
        r == document_error(*d, bytes@, budget as int),
{
    if d.source_id.as_str().is_empty() {
        Some(SourceErrorCode::EmptySourceId)
    } else if bytes.len() as u64 > budget {
        Some(SourceErrorCode::LimitExceeded)
    } else if d.encoding == SourceEncoding::Utf8 && !utf8_valid(bytes) {
        Some(SourceErrorCode::InvalidUtf8)
    } else if !check_descriptor(d, bytes) {
        Some(SourceErrorCode::DescriptorMismatch)
    } else {
        None
    }
}


/// Total byte count of a sequence of inputs.
pub open spec fn bytes_total(inputs: Seq<SourceInput>) -> int
    decreases inputs.len(),
{
    if inputs.len() == 0 {
        0
    } else {
        bytes_total(inputs.drop_last()) + inputs.last().bytes@.len()
    }
}

/// The first failing check on input `i` of a map, in check order: identity,
/// uniqueness among earlier inputs, the budget left by earlier inputs, then
/// the document checks.
pub open spec fn input_error(inputs: Seq<SourceInput>, i: int, max_total: int) -> Option<
    SourceErrorCode,
> {
    let d = inputs[i].descriptor;
    if d.source_id@.len() == 0 {
        Some(SourceErrorCode::EmptySourceId)
    } else if exists|j: int| 0 <= j < i && #[trigger] inputs[j].descriptor.source_id@ == d.source_id@ {
        Some(SourceErrorCode::DuplicateSourceId)
    } else {
        document_error(d, inputs[i].bytes@, max_total - bytes_total(inputs.take(i)))
    }
}

/// Documents with pairwise distinct identities.
#[derive(Debug, PartialEq, Eq)]
pub struct SourceMap {
    documents: Vec<SourceDocument>,
}

pub open spec fn distinct_ids(docs: Seq<SourceDocument>) -> bool {
    forall|i: int, j: int|
        0 <= i < j < docs.len() ==> #[trigger] docs[i].desc().source_id@ != #[trigger] docs[j].desc().source_id@
}

impl SourceMap {
    #[verifier::type_invariant]
    spec fn inv(self) -> bool {
        distinct_ids(self.documents@)
    }

    pub closed spec fn docs(self) -> Seq<SourceDocument> {
        self.documents@
    }

    /// Bind every input, in order, under one shared byte budget. Fails on the
    /// first input that `input_error` rejects.
    pub fn validate(inputs: Vec<SourceInput>, max_total_bytes: u64) -> (r: Result<
        SourceMap,
        SourceError,
    >)
        ensures
            r.is_ok() <==> forall|i: int|
                0 <= i < inputs@.len() ==> #[trigger] input_error(
                    inputs@,
                    i,
                    max_total_bytes as int,
                ) is None,
            match r {
                Ok(m) => {
                    &&& m.docs().len() == inputs@.len()
                    &&& forall|i: int|
                        0 <= i < inputs@.len() ==> #[trigger] m.docs()[i].desc()
                            == inputs@[i].descriptor && m.docs()[i].data() == inputs@[i].bytes@
                    &&& distinct_ids(m.docs())
                },
                Err(e) => exists|i: int|
                    #![trigger input_error(inputs@, i, max_total_bytes as int)]
                    0 <= i < inputs@.len() && (forall|j: int|
                        0 <= j < i ==> #[trigger] input_error(inputs@, j, max_total_bytes as int)
                            is None) && input_error(inputs@, i, max_total_bytes as int) == Some(
                        e.code,
                    ) && e.source_id@ == inputs@[i].descriptor.source_id@,
            },
    {
        let ghost orig = inputs@;
        let mut docs: Vec<SourceDocument> = Vec::new();
        let mut used: u64 = 0;
        let mut rest = inputs;
        while rest.len() > 0
            invariant
                orig == inputs@,
                docs@.len() + rest@.len() == orig.len(),
                rest@ == orig.skip(docs@.len() as int),
                forall|k: int|
                    0 <= k < docs@.len() ==> #[trigger] docs@[k].desc() == orig[k].descriptor
                        && docs@[k].data() == orig[k].bytes@,
                forall|k: int|
                    0 <= k < docs@.len() ==> #[trigger] input_error(orig, k, max_total_bytes as int)
                        is None,
                used == bytes_total(orig.take(docs@.len() as int)),
                used <= max_total_bytes,
                distinct_ids(docs@),
            decreases rest@.len(),
        {
            let ghost i = docs@.len() as int;
            let input = rest.remove(0);
            assert(input == orig[i]);
            assert(orig.take(i + 1).drop_last() =~= orig.take(i));
            if input.descriptor.source_id.as_str().is_empty() {
                assert(input_error(orig, i, max_total_bytes as int) == Some(
                    SourceErrorCode::EmptySourceId,
                ));
                return Err(source_error(&input.descriptor.source_id, SourceErrorCode::EmptySourceId));
            }
            let mut k: usize = 0;
            while k < docs.len()
                invariant
                    k <= docs@.len(),
                    docs@.len() == i,
                    0 <= i < orig.len(),
                    orig == inputs@,
                    forall|m: int|
                        0 <= m < i ==> #[trigger] input_error(orig, m, max_total_bytes as int) is None,
                    input == orig[i],
                    forall|m: int|
                        0 <= m < docs@.len() ==> #[trigger] docs@[m].desc() == orig[m].descriptor,
                    forall|m: int|
                        0 <= m < k ==> orig[m].descriptor.source_id@ != input.descriptor.source_id@,
                decreases docs@.len() - k,
            {
                let same = str_eq(
                    docs[k].descriptor().source_id.as_str(),
                    input.descriptor.source_id.as_str(),
                );
                if same {
                    assert(orig[k as int].descriptor.source_id@ == orig[i].descriptor.source_id@);
                    assert(input_error(orig, i, max_total_bytes as int) == Some(
                        SourceErrorCode::DuplicateSourceId,
                    ));
                    return Err(
                        source_error(&input.descriptor.source_id, SourceErrorCode::DuplicateSourceId),
                    );
                }
                k = k + 1;
            }
            let code = first_document_error(
                &input.descriptor,
                input.bytes.as_slice(),
                max_total_bytes - used,
            );
            assert(!exists|j: int|
                0 <= j < i && #[trigger] orig[j].descriptor.source_id@
                    == orig[i].descriptor.source_id@);
            assert(input_error(orig, i, max_total_bytes as int) == code);
            if let Some(c) = code {
                return Err(source_error(&input.descriptor.source_id, c));
            }
            used = used + input.bytes.len() as u64;
            let doc = SourceDocument { descriptor: input.descriptor, bytes: input.bytes };
            docs.push(doc);
            assert(rest@ =~= orig.skip(docs@.len() as int));
        }
        Ok(SourceMap { documents: docs })
    }

    /// The document with identity `id`, if there is one.
    pub open spec fn lookup(self, id: Seq<char>) -> Option<SourceDocument> {
        if exists|i: int| 0 <= i < self.docs().len() && #[trigger] self.docs()[i].desc().source_id@ == id {
            Some(
                self.docs()[choose|i: int|
                    0 <= i < self.docs().len() && #[trigger] self.docs()[i].desc().source_id@ == id],
            )
        } else {
            None
        }
    }

    /// The document with identity `source_id`.
    pub fn get(&self, source_id: &str) -> (r: Result<&SourceDocument, SourceError>)
        ensures
            match r {
                Ok(d) => self.lookup(source_id@) == Some(*d),
                Err(e) => self.lookup(source_id@) is None && e.code == SourceErrorCode::UnknownSource
                    && e.source_id@ == source_id@,
            },
    {
        proof {
            use_type_invariant(self);
        }
        let mut i: usize = 0;
        while i < self.documents.len()
            invariant
                i <= self.documents@.len(),
                distinct_ids(self.documents@),
                forall|k: int|
                    0 <= k < i ==> #[trigger] self.documents@[k].desc().source_id@ != source_id@,
            decreases self.documents@.len() - i,
        {
            if str_eq(self.documents[i].descriptor().source_id.as_str(), source_id) {
                proof {
                    let j = choose|j: int|
                        0 <= j < self.docs().len() && #[trigger] self.docs()[j].desc().source_id@
                            == source_id@;
                    assert(self.docs()[i as int].desc().source_id@ == source_id@);
                    if j != i {
                        if j < i {
                            assert(self.documents@[j].desc().source_id@ != source_id@);
                        } else {
                            assert(self.documents@[i as int].desc().source_id@
                                != self.documents@[j].desc().source_id@);
                        }
                    }
                }
                return Ok(&self.documents[i]);
            }
            i = i + 1;
        }
        Err(SourceError { source_id: source_id.to_owned(), code: SourceErrorCode::UnknownSource })
    }

    /// Number of documents.
    pub fn len(&self) -> (n: usize)
        ensures
            n == self.docs().len(),
    {
        self.documents.len()
    }

    /// The documents in input order.
    pub fn documents(&self) -> (d: &[SourceDocument])
        ensures
            d@ == self.docs(),
            distinct_ids(d@),
    {
        proof {
            use_type_invariant(self);
        }
        self.documents.as_slice()
    }
}

// ---------------------------------------------------------------------------
// Laws

/// Describing exact bytes and then validating them succeeds under any budget
/// that covers them: the descriptor `source_input` computes is the evidence
/// validation checks.
pub proof fn law_described_input_validates(input: SourceInput, max_bytes: u64)
    requires
        input.descriptor.source_id@.len() > 0,
        input.descriptor.encoding == SourceEncoding::Utf8 ==> valid_utf8(input.bytes@),
        describes(input.descriptor, input.bytes@),
        input.bytes@.len() <= max_bytes,
    ensures
        document_error(input.descriptor, input.bytes@, max_bytes as int) is None,
{
}

/// A validated map gives back, for each input's identity, the document bound
/// to exactly that input's descriptor and bytes.
pub proof fn law_map_returns_each_input(m: SourceMap, inputs: Seq<SourceInput>, i: int)
    requires
        m.docs().len() == inputs.len(),
        forall|k: int|
            0 <= k < inputs.len() ==> #[trigger] m.docs()[k].desc() == inputs[k].descriptor
                && m.docs()[k].data() == inputs[k].bytes@,
        distinct_ids(m.docs()),
        0 <= i < inputs.len(),
    ensures
        m.lookup(inputs[i].descriptor.source_id@) matches Some(d) && d.desc() == inputs[i].descriptor
            && d.data() == inputs[i].bytes@,
{
    let id = inputs[i].descriptor.source_id@;
    assert(m.docs()[i].desc().source_id@ == id);
    let j = choose|j: int| 0 <= j < m.docs().len() && #[trigger] m.docs()[j].desc().source_id@ == id;
    if j != i {
        if j < i {
            assert(m.docs()[j].desc().source_id@ != m.docs()[i].desc().source_id@);
        } else {
            assert(m.docs()[i].desc().source_id@ != m.docs()[j].desc().source_id@);
        }
    }
}

} // verus!
