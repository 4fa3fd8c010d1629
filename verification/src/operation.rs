//! Request transport and normalization. Normalization verifies inputs, not
//! provider support; policies and selection constraints stay attached to the
//! validated request so that execution cannot silently drop them.
use crate::metadata::{Metadata, NativeExtension};
use crate::role_map::{rank_role, role_of_rank, RoleMap};
use crate::source::{
    describes, digest_hex, same_descriptor, source_input, spec_bom, spec_final_newline,
    spec_line_endings, LineEndings, SourceEncoding, SourceInput, SourceMap, SourceRole,
    role_rank, copy_descriptor,
};
use crate::text::{
    all_lower_hex, copy_bytes, copy_string, is_lower_hex_byte, lex_less, str_bytes, str_eq,
    str_less, utf8_of,
};
use crate::{kind_roles, kind_has_role, OperationKind, OPERATION_SCHEMA};
use vstd::prelude::*;
use vstd::utf8::valid_utf8;

verus! {

#[derive(Clone, Debug, PartialEq, Eq)]
pub struct MergeProviderSelection {
    pub provider_id: Option<String>,
    pub family: Option<String>,
    pub dialect: Option<String>,
    pub profile_id: Option<String>,
    pub required_capabilities: Vec<String>,
    pub extra: Metadata,
}

#[derive(Clone, Debug, PartialEq, Eq)]
pub struct OperationParserSelection {
    pub backend: Option<String>,
    pub preference: Vec<String>,
    pub required_capabilities: Vec<String>,
    pub profile_id: Option<String>,
    pub language_version: Option<String>,
    pub extra: Metadata,
}

#[derive(Clone, Debug, PartialEq, Eq)]
pub struct AnalyzePolicy {
    pub analysis_depth: Option<String>,
    pub comments: Option<bool>,
    pub tokens: Option<bool>,
    pub ownership: Option<bool>,
    pub native_extensions: Option<bool>,
    pub extra: Metadata,
}

#[derive(Clone, Debug, PartialEq, Eq)]
pub struct DiffPolicy {
    pub comparison_profile: Option<String>,
    pub equivalence: Option<Vec<String>>,
    pub source_preservation_evidence: Option<bool>,
    pub extra: Metadata,
}

#[derive(Clone, Debug, PartialEq, Eq)]
pub struct DirectionalMergePolicy {
    pub directional_merge: String,
    pub render_policy: String,
    pub fallback_policy: Option<String>,
    pub extra: Metadata,
}

/// A three-way merge policy; `labels` maps a label name to its text.
#[derive(Clone, Debug, PartialEq, Eq)]
pub struct ThreeWayMergePolicy {
    pub render_policy: String,
    pub fallback_policy: Option<String>,
    pub conflict_marker_size: Option<u64>,
    pub labels: Option<Vec<(String, String)>>,
    pub extra: Metadata,
}

/// The operation discriminator determines the policy type, not argument order.
#[derive(Clone, Debug, PartialEq, Eq)]
pub enum OperationPolicy {
    Analyze(AnalyzePolicy),
    Diff2(DiffPolicy),
    Merge2(DirectionalMergePolicy),
    Merge3(ThreeWayMergePolicy),
}

pub open spec fn policy_kind(p: OperationPolicy) -> OperationKind {
    match p {
        OperationPolicy::Analyze(_) => OperationKind::Analyze,
        OperationPolicy::Diff2(_) => OperationKind::Diff2,
        OperationPolicy::Merge2(_) => OperationKind::Merge2,
        OperationPolicy::Merge3(_) => OperationKind::Merge3,
    }
}

/// The requested fallback policy; absent means "none".
pub open spec fn fallback_spec(p: OperationPolicy) -> Seq<char> {
    match p {
        OperationPolicy::Merge2(m) => match m.fallback_policy {
            Some(f) => f@,
            None => "none"@,
        },
        OperationPolicy::Merge3(m) => match m.fallback_policy {
            Some(f) => f@,
            None => "none"@,
        },
        _ => "none"@,
    }
}

impl OperationPolicy {
    pub fn kind(&self) -> (k: OperationKind)
        ensures
            k == policy_kind(*self),
    {
        match self {
            OperationPolicy::Analyze(_) => OperationKind::Analyze,
            OperationPolicy::Diff2(_) => OperationKind::Diff2,
            OperationPolicy::Merge2(_) => OperationKind::Merge2,
            OperationPolicy::Merge3(_) => OperationKind::Merge3,
        }
    }

    /// This is a request, not permission to activate an unsupported fallback.
    pub fn fallback_policy(&self) -> (r: &str)
        ensures
            r@ == fallback_spec(*self),
    {
        match self {
            OperationPolicy::Merge2(policy) => match &policy.fallback_policy {
                Some(f) => f.as_str(),
                None => "none",
            },
            OperationPolicy::Merge3(policy) => match &policy.fallback_policy {
                Some(f) => f.as_str(),
                None => "none",
            },
            _ => "none",
        }
    }
}

/// Wire source: exactly one of UTF-8 content, bytes, or an explicitly resolved
/// reference. Optional layout evidence is verified when supplied.
#[derive(Clone, Debug, PartialEq, Eq)]
pub struct OperationSource {
    pub source_id: String,
    pub role: SourceRole,
    pub byte_length: u64,
    pub sha256: String,
    pub encoding: String,
    pub content: Option<String>,
    pub bytes: Option<Vec<u8>>,
    pub reference: Option<String>,
    pub bom: Option<bool>,
    pub line_endings: Option<LineEndings>,
    pub final_newline: Option<bool>,
    pub extra: Metadata,
}

#[derive(Clone, Debug, PartialEq, Eq)]
pub struct OperationRequest {
    pub schema: String,
    pub request_id: String,
    pub operation: OperationPolicy,
    pub provider_selection: MergeProviderSelection,
    pub parser_selection: OperationParserSelection,
    pub sources: RoleMap<OperationSource>,
    pub path_name: Option<String>,
    pub extensions: Vec<NativeExtension>,
    pub metadata: Metadata,
    pub extra: Metadata,
}

#[derive(Clone, Copy, Debug, PartialEq, Eq, Structural)]
pub enum OperationRequestErrorCode {
    UnsupportedSchema,
    InvalidIdentity,
    InvalidSelection,
    InvalidRoles,
    InvalidSource,
    SourceResolution,
    ResourceLimit,
}

#[derive(Clone, Debug, PartialEq, Eq)]
pub struct OperationRequestError {
    pub request_id: String,
    pub source_role: Option<SourceRole>,
    pub code: OperationRequestErrorCode,
    pub message: String,
}

/// The name of an error code, as its text shows it.
pub open spec fn request_code_name(c: OperationRequestErrorCode) -> Seq<char> {
    match c {
        OperationRequestErrorCode::UnsupportedSchema => "UnsupportedSchema"@,
        OperationRequestErrorCode::InvalidIdentity => "InvalidIdentity"@,
        OperationRequestErrorCode::InvalidSelection => "InvalidSelection"@,
        OperationRequestErrorCode::InvalidRoles => "InvalidRoles"@,
        OperationRequestErrorCode::InvalidSource => "InvalidSource"@,
        OperationRequestErrorCode::SourceResolution => "SourceResolution"@,
        OperationRequestErrorCode::ResourceLimit => "ResourceLimit"@,
    }
}

/// The text of a request error: its code, the request's identity in debug
/// form, and the message.
pub open spec fn request_error_text(code: OperationRequestErrorCode, request_id: Seq<char>, message: Seq<char>) -> Seq<
    char,
> {
    request_code_name(code) + " for "@ + crate::text::debug_text(request_id) + ": "@ + message
}

impl OperationRequestErrorCode {
    pub fn name(&self) -> (r: &'static str)
        ensures
            r@ == request_code_name(*self),
    {
        match self {
            OperationRequestErrorCode::UnsupportedSchema => "UnsupportedSchema",
            OperationRequestErrorCode::InvalidIdentity => "InvalidIdentity",
            OperationRequestErrorCode::InvalidSelection => "InvalidSelection",
            OperationRequestErrorCode::InvalidRoles => "InvalidRoles",
            OperationRequestErrorCode::InvalidSource => "InvalidSource",
            OperationRequestErrorCode::SourceResolution => "SourceResolution",
            OperationRequestErrorCode::ResourceLimit => "ResourceLimit",
        }
    }
}

impl OperationRequestError {
    /// The error as text: `<code> for <request id in debug form>: <message>`.
    pub fn to_string(&self) -> (r: String)
        ensures
            r@ == request_error_text(self.code, self.request_id@, self.message@),
    {
        let mut out = crate::text::owned(self.code.name());
        out.append(" for ");
        out.append(crate::text::debug_quoted(self.request_id.as_str()).as_str());
        out.append(": ");
        out.append(self.message.as_str());
        out
    }
}

// ---------------------------------------------------------------------------
// What validation checks, in check order.

pub open spec fn opt_empty(o: Option<String>) -> bool {
    match o {
        Some(s) => s@.len() == 0,
        None => false,
    }
}

pub open spec fn adjacent_ordered(v: Seq<String>, i: int) -> bool {
    lex_less(utf8_of(v[i]@), utf8_of(v[i + 1]@))
}

/// Capability lists are nonempty names in strictly increasing order.
pub open spec fn capabilities_valid(v: Seq<String>) -> bool {
    &&& forall|i: int| 0 <= i < v.len() ==> (#[trigger] v[i])@.len() > 0
    &&& forall|i: int| 0 <= i && i + 1 < v.len() ==> #[trigger] adjacent_ordered(v, i)
}

pub open spec fn selection_valid(p: MergeProviderSelection, q: OperationParserSelection) -> bool {
    &&& !(p.provider_id is None && p.family is None)
    &&& !opt_empty(p.provider_id)
    &&& !opt_empty(p.family)
    &&& !opt_empty(p.dialect)
    &&& !opt_empty(p.profile_id)
    &&& !opt_empty(q.backend)
    &&& !opt_empty(q.profile_id)
    &&& !opt_empty(q.language_version)
    &&& forall|i: int| 0 <= i < q.preference@.len() ==> (#[trigger] q.preference@[i])@.len() > 0
    &&& capabilities_valid(p.required_capabilities@)
    &&& capabilities_valid(q.required_capabilities@)
}

/// The sources are keyed by exactly the operation's roles.
pub open spec fn roles_exact(m: RoleMap<OperationSource>, kind: OperationKind) -> bool {
    forall|role: SourceRole| (#[trigger] m.spec_get(role) is Some) == kind_roles(kind).contains(role)
}

pub open spec fn req_roles(r: OperationRequest) -> Seq<SourceRole> {
    kind_roles(policy_kind(r.operation))
}

/// The source stored under the request's `i`-th role.
pub open spec fn source_at(r: OperationRequest, i: int) -> OperationSource {
    r.sources.spec_get(req_roles(r)[i])->0
}

/// Declared byte lengths of the sources before the `i`-th role.
pub open spec fn declared_before(r: OperationRequest, i: int) -> int
    decreases i,
{
    if i <= 0 {
        0
    } else {
        declared_before(r, i - 1) + source_at(r, i - 1).byte_length
    }
}

pub open spec fn count_present(s: OperationSource) -> int {
    (if s.content is Some {
        1int
    } else {
        0int
    }) + (if s.bytes is Some {
        1int
    } else {
        0int
    }) + (if s.reference is Some {
        1int
    } else {
        0int
    })
}

/// Exactly one content channel, a nonempty reference, a known encoding that
/// admits textual content, and a 64-digit lowercase hexadecimal digest.
pub open spec fn source_shape_ok(s: OperationSource) -> bool {
    &&& count_present(s) == 1
    &&& !opt_empty(s.reference)
    &&& (s.encoding@ == "utf-8"@ || s.encoding@ == "binary"@)
    &&& !(s.content is Some && s.encoding@ != "utf-8"@)
    &&& utf8_of(s.sha256@).len() == 64
    &&& all_lower_hex(utf8_of(s.sha256@))
}

/// The bytes a source carries inline, if any.
pub open spec fn inline_bytes(s: OperationSource) -> Option<Seq<u8>> {
    match s.content {
        Some(c) => Some(utf8_of(c@)),
        None => match s.bytes {
            Some(b) => Some(b@),
            None => None,
        },
    }
}

pub open spec fn id_seen_before(r: OperationRequest, i: int) -> bool {
    exists|j: int| 0 <= j < i && #[trigger] source_at(r, j).source_id@ == source_at(r, i).source_id@
}

/// The first failing descriptor check on the `i`-th source.
pub open spec fn descriptor_error(r: OperationRequest, max: int, i: int) -> Option<
    OperationRequestErrorCode,
> {
    let s = source_at(r, i);
    if s.role != req_roles(r)[i] {
        Some(OperationRequestErrorCode::InvalidRoles)
    } else if s.source_id@.len() == 0 || id_seen_before(r, i) {
        Some(OperationRequestErrorCode::InvalidSource)
    } else if !source_shape_ok(s) {
        Some(OperationRequestErrorCode::InvalidSource)
    } else if s.byte_length > max - declared_before(r, i) {
        Some(OperationRequestErrorCode::ResourceLimit)
    } else if inline_bytes(s) matches Some(b) && b.len() != s.byte_length {
        Some(OperationRequestErrorCode::InvalidSource)
    } else {
        None
    }
}

/// The first descriptor failure from the `i`-th source on, with its role.
pub open spec fn descriptor_scan(r: OperationRequest, max: int, i: int) -> Option<
    (OperationRequestErrorCode, Option<SourceRole>),
>
    decreases req_roles(r).len() - i,
{
    if i < 0 || i >= req_roles(r).len() {
        None
    } else if descriptor_error(r, max, i) is Some {
        Some((descriptor_error(r, max, i)->0, Some(req_roles(r)[i])))
    } else {
        descriptor_scan(r, max, i + 1)
    }
}

/// The message reported with the `i`-th source's descriptor failure.
pub open spec fn descriptor_message(r: OperationRequest, max: int, i: int) -> Seq<char> {
    let s = source_at(r, i);
    if s.role != req_roles(r)[i] {
        "source key and role differ"@
    } else if s.source_id@.len() == 0 || id_seen_before(r, i) {
        "empty or duplicate source ID"@
    } else if !source_shape_ok(s) {
        "invalid content, encoding, reference, or digest"@
    } else if s.byte_length > max - declared_before(r, i) {
        "source byte budget exceeded"@
    } else {
        "inline byte length differs from descriptor"@
    }
}

/// The message of the first descriptor failure from the `i`-th source on.
pub open spec fn descriptor_scan_message(r: OperationRequest, max: int, i: int) -> Seq<char>
    decreases req_roles(r).len() - i,
{
    if i < 0 || i >= req_roles(r).len() {
        Seq::empty()
    } else if descriptor_error(r, max, i) is Some {
        descriptor_message(r, max, i)
    } else {
        descriptor_scan_message(r, max, i + 1)
    }
}

/// The message reported with the failure `pre_error` names.
pub open spec fn pre_error_message(r: OperationRequest, max: int) -> Seq<char> {
    if r.schema@ != OPERATION_SCHEMA@ {
        "unsupported request schema"@
    } else if r.request_id@.len() == 0 {
        "request_id must not be empty"@
    } else if !selection_valid(r.provider_selection, r.parser_selection) {
        "invalid provider/parser selection"@
    } else if !roles_exact(r.sources, policy_kind(r.operation)) {
        "operation requires its exact source roles"@
    } else {
        descriptor_scan_message(r, max, 0)
    }
}

/// Every check made before any source is resolved, in check order.
pub open spec fn pre_error(r: OperationRequest, max: int) -> Option<
    (OperationRequestErrorCode, Option<SourceRole>),
> {
    if r.schema@ != OPERATION_SCHEMA@ {
        Some((OperationRequestErrorCode::UnsupportedSchema, None))
    } else if r.request_id@.len() == 0 {
        Some((OperationRequestErrorCode::InvalidIdentity, None))
    } else if !selection_valid(r.provider_selection, r.parser_selection) {
        Some((OperationRequestErrorCode::InvalidSelection, None))
    } else if !roles_exact(r.sources, policy_kind(r.operation)) {
        Some((OperationRequestErrorCode::InvalidRoles, None))
    } else {
        descriptor_scan(r, max, 0)
    }
}


// ---------------------------------------------------------------------------
// Executable checks

fn opt_is_empty(o: &Option<String>) -> (r: bool)
    ensures
        r == opt_empty(*o),
{
    match o {
        Some(v) => v.as_str().is_empty(),
        None => false,
    }
}

fn capabilities_ok(v: &Vec<String>) -> (r: bool)
    ensures
        r == capabilities_valid(v@),
{
    let mut i: usize = 0;
    while i < v.len()
        invariant
            i <= v@.len(),
            forall|k: int| 0 <= k < i ==> (#[trigger] v@[k])@.len() > 0,
            forall|k: int| 0 <= k < i && k + 1 < v@.len() ==> #[trigger] adjacent_ordered(v@, k),
        decreases v@.len() - i,
    {
        if v[i].as_str().is_empty() {
            return false;
        }
        if i + 1 < v.len() && !str_less(v[i].as_str(), v[i + 1].as_str()) {
            assert(!adjacent_ordered(v@, i as int));
            return false;
        }
        i = i + 1;
    }
    true
}

fn selection_ok(p: &MergeProviderSelection, q: &OperationParserSelection) -> (r: bool)
    ensures
        r == selection_valid(*p, *q),
{
    if p.provider_id.is_none() && p.family.is_none() {
        return false;
    }
    if opt_is_empty(&p.provider_id) || opt_is_empty(&p.family) || opt_is_empty(&p.dialect)
        || opt_is_empty(&p.profile_id) || opt_is_empty(&q.backend) || opt_is_empty(
        &q.profile_id,
    ) || opt_is_empty(&q.language_version) {
        return false;
    }
    let mut i: usize = 0;
    while i < q.preference.len()
        invariant
            i <= q.preference@.len(),
            forall|k: int| 0 <= k < i ==> (#[trigger] q.preference@[k])@.len() > 0,
        decreases q.preference@.len() - i,
    {
        if q.preference[i].as_str().is_empty() {
            return false;
        }
        i = i + 1;
    }
    capabilities_ok(&p.required_capabilities) && capabilities_ok(&q.required_capabilities)
}

fn roles_ok(m: &RoleMap<OperationSource>, kind: OperationKind) -> (r: bool)
    ensures
        r == roles_exact(*m, kind),
{
    let mut k: usize = 0;
    while k < 9
        invariant
            k <= 9,
            forall|j: int|
                0 <= j < k ==> (#[trigger] m.spec_get(rank_role(j)) is Some) == kind_roles(
                    kind,
                ).contains(rank_role(j)),
        decreases 9 - k,
    {
        let role = role_of_rank(k);
        if m.contains_key(role) != kind_has_role(kind, role) {
            return false;
        }
        k = k + 1;
    }
    assert forall|role: SourceRole| (#[trigger] m.spec_get(role) is Some) == kind_roles(
        kind,
    ).contains(role) by {
        crate::role_map::lemma_rank_role(role);
        assert(m.spec_get(rank_role(role_rank(role))) is Some == kind_roles(kind).contains(
            rank_role(role_rank(role)),
        ));
    }
    true
}

fn shape_ok(s: &OperationSource) -> (r: bool)
    ensures
        r == source_shape_ok(*s),
{
    let count: u8 = (if s.content.is_some() {
        1u8
    } else {
        0u8
    }) + (if s.bytes.is_some() {
        1u8
    } else {
        0u8
    }) + (if s.reference.is_some() {
        1u8
    } else {
        0u8
    });
    if count != 1 || opt_is_empty(&s.reference) {
        return false;
    }
    let utf8 = str_eq(s.encoding.as_str(), "utf-8");
    if !(utf8 || str_eq(s.encoding.as_str(), "binary")) {
        return false;
    }
    if s.content.is_some() && !utf8 {
        return false;
    }
    let digest = str_bytes(s.sha256.as_str());
    if digest.len() != 64 {
        return false;
    }
    let mut i: usize = 0;
    while i < digest.len()
        invariant
            i <= digest@.len(),
            forall|k: int| 0 <= k < i ==> is_lower_hex_byte(#[trigger] digest@[k]),
            digest@ == utf8_of(s.sha256@),
            digest@.len() == 64,
            count_present(*s) == 1,
            !opt_empty(s.reference),
            s.encoding@ == "utf-8"@ || s.encoding@ == "binary"@,
            !(s.content is Some && s.encoding@ != "utf-8"@),
        decreases digest@.len() - i,
    {
        let b = digest[i];
        if !((48 <= b && b <= 57) || (97 <= b && b <= 102)) {
            assert(!is_lower_hex_byte(digest@[i as int]));
            return false;
        }
        i = i + 1;
    }
    true
}

/// Length of the inline bytes, if any.
fn inline_len(s: &OperationSource) -> (r: Option<usize>)
    ensures
        match (r, inline_bytes(*s)) {
            (Some(n), Some(b)) => n == b.len(),
            (None, None) => true,
            _ => false,
        },
{
    match &s.content {
        Some(c) => Some(str_bytes(c.as_str()).len()),
        None => match &s.bytes {
            Some(b) => Some(b.len()),
            None => None,
        },
    }
}

proof fn lemma_role_present(r: OperationRequest, i: int)
    requires
        roles_exact(r.sources, policy_kind(r.operation)),
        0 <= i < req_roles(r).len(),
    ensures
        r.sources.spec_get(req_roles(r)[i]) is Some,
{
    assert(kind_roles(policy_kind(r.operation)).contains(req_roles(r)[i]));
}

impl OperationRequest {
    fn error(&self, code: OperationRequestErrorCode, source_role: Option<SourceRole>, message: String) -> (e:
        OperationRequestError)
        ensures
            e.request_id@ == self.request_id@,
            e.code == code,
            e.source_role == source_role,
            e.message@ == message@,
    {
        OperationRequestError { request_id: self.request_id.clone(), source_role, code, message }
    }

    fn source_for(&self, i: usize, roles: &Vec<SourceRole>) -> (s: &OperationSource)
        requires
            roles@ == req_roles(*self),
            roles_exact(self.sources, policy_kind(self.operation)),
            i < roles@.len(),
        ensures
            *s == source_at(*self, i as int),
    {
        proof {
            lemma_role_present(*self, i as int);
        }
        self.sources.get_present(roles[i])
    }

    /// The descriptor checks, over the sources in role order.
    fn descriptor_check(&self, max_total_bytes: u64) -> (r: Option<
        (OperationRequestErrorCode, Option<SourceRole>, &'static str),
    >)
        requires
            roles_exact(self.sources, policy_kind(self.operation)),
        ensures
            match r {
                Some((c, role, m)) => descriptor_scan(*self, max_total_bytes as int, 0) == Some(
                    (c, role),
                ) && m@ == descriptor_scan_message(*self, max_total_bytes as int, 0),
                None => descriptor_scan(*self, max_total_bytes as int, 0) is None,
            },
            r is None ==> declared_before(*self, req_roles(*self).len() as int)
                <= max_total_bytes,
    {
        let roles = self.operation.kind().source_roles();
        let mut remaining: u64 = max_total_bytes;
        let mut i: usize = 0;
        while i < roles.len()
            invariant
                roles@ == req_roles(*self),
                roles_exact(self.sources, policy_kind(self.operation)),
                i <= roles@.len(),
                remaining == max_total_bytes - declared_before(*self, i as int),
                descriptor_scan(*self, max_total_bytes as int, 0) == descriptor_scan(
                    *self,
                    max_total_bytes as int,
                    i as int,
                ),
                descriptor_scan_message(*self, max_total_bytes as int, 0) == descriptor_scan_message(
                    *self,
                    max_total_bytes as int,
                    i as int,
                ),
            decreases roles@.len() - i,
        {
            let role = roles[i];
            let source = self.source_for(i, &roles);
            if source.role != role {
                return Some(
                    (OperationRequestErrorCode::InvalidRoles, Some(role), "source key and role differ"),
                );
            }
            let mut duplicate = source.source_id.as_str().is_empty();
            let mut j: usize = 0;
            while j < i && !duplicate
                invariant
                    roles@ == req_roles(*self),
                    roles_exact(self.sources, policy_kind(self.operation)),
                    i < roles@.len(),
                    j <= i,
                    *source == source_at(*self, i as int),
                    duplicate ==> source.source_id@.len() == 0 || id_seen_before(*self, i as int),
                    !duplicate ==> source.source_id@.len() > 0 && forall|m: int|
                        0 <= m < j ==> #[trigger] source_at(*self, m).source_id@
                            != source.source_id@,
                decreases i - j,
            {
                let other = self.source_for(j, &roles);
                if other.source_id == source.source_id {
                    duplicate = true;
                    assert(source_at(*self, j as int).source_id@ == source_at(
                        *self,
                        i as int,
                    ).source_id@);
                }
                j = j + 1;
            }
            if duplicate {
                return Some(
                    (
                        OperationRequestErrorCode::InvalidSource,
                        Some(role),
                        "empty or duplicate source ID",
                    ),
                );
            }
            assert(!id_seen_before(*self, i as int));
            if !shape_ok(source) {
                return Some(
                    (
                        OperationRequestErrorCode::InvalidSource,
                        Some(role),
                        "invalid content, encoding, reference, or digest",
                    ),
                );
            }
            if source.byte_length > remaining {
                return Some(
                    (OperationRequestErrorCode::ResourceLimit, Some(role), "source byte budget exceeded"),
                );
            }
            remaining = remaining - source.byte_length;
            match inline_len(source) {
                Some(n) => {
                    if n as u64 != source.byte_length {
                        return Some(
                            (
                                OperationRequestErrorCode::InvalidSource,
                                Some(role),
                                "inline byte length differs from descriptor",
                            ),
                        );
                    }
                },
                None => {},
            }
            assert(descriptor_error(*self, max_total_bytes as int, i as int) is None);
            i = i + 1;
        }
        None
    }

    /// Every check made before any source is resolved.
    fn pre_check(&self, max_total_bytes: u64) -> (r: Option<
        (OperationRequestErrorCode, Option<SourceRole>, &'static str),
    >)
        ensures
            match r {
                Some((c, role, m)) => pre_error(*self, max_total_bytes as int) == Some((c, role))
                    && m@ == pre_error_message(*self, max_total_bytes as int),
                None => pre_error(*self, max_total_bytes as int) is None,
            },
            r is None ==> declared_before(*self, req_roles(*self).len() as int)
                <= max_total_bytes,
    {
        if !str_eq(self.schema.as_str(), OPERATION_SCHEMA) {
            return Some(
                (OperationRequestErrorCode::UnsupportedSchema, None, "unsupported request schema"),
            );
        }
        if self.request_id.as_str().is_empty() {
            return Some(
                (OperationRequestErrorCode::InvalidIdentity, None, "request_id must not be empty"),
            );
        }
        if !selection_ok(&self.provider_selection, &self.parser_selection) {
            return Some(
                (
                    OperationRequestErrorCode::InvalidSelection,
                    None,
                    "invalid provider/parser selection",
                ),
            );
        }
        if !roles_ok(&self.sources, self.operation.kind()) {
            return Some(
                (
                    OperationRequestErrorCode::InvalidRoles,
                    None,
                    "operation requires its exact source roles",
                ),
            );
        }
        self.descriptor_check(max_total_bytes)
    }
}


// ---------------------------------------------------------------------------
// Resolution and evidence

pub open spec fn wire_encoding(s: OperationSource) -> SourceEncoding {
    if s.encoding@ == "utf-8"@ {
        SourceEncoding::Utf8
    } else {
        SourceEncoding::Binary
    }
}

/// `b` are exactly the bytes the source's evidence declares.
pub open spec fn evidence_ok(s: OperationSource, b: Seq<u8>) -> bool {
    let e = wire_encoding(s);
    &&& (e == SourceEncoding::Utf8 ==> valid_utf8(b))
    &&& s.byte_length == b.len()
    &&& utf8_of(s.sha256@) == digest_hex(b)
    &&& (s.bom matches Some(v) ==> v == spec_bom(e, b))
    &&& (s.line_endings matches Some(v) ==> v == spec_line_endings(b))
    &&& (s.final_newline matches Some(v) ==> v == spec_final_newline(b))
}

/// Every source of the request carries its bytes inline.
pub open spec fn all_inline(r: OperationRequest) -> bool {
    forall|i: int| 0 <= i < req_roles(r).len() ==> #[trigger] inline_bytes(source_at(r, i)) is Some
}

/// The first inline source from the `i`-th on whose bytes contradict its evidence.
pub open spec fn evidence_scan(r: OperationRequest, i: int) -> Option<SourceRole>
    decreases req_roles(r).len() - i,
{
    if i < 0 || i >= req_roles(r).len() {
        None
    } else if !evidence_ok(source_at(r, i), inline_bytes(source_at(r, i))->0) {
        Some(req_roles(r)[i])
    } else {
        evidence_scan(r, i + 1)
    }
}

/// The input built for the `k`-th role of a request: its identity, role and
/// encoding, bytes its descriptor describes, and the request's evidence.
pub open spec fn input_matches(r: OperationRequest, roles: Seq<SourceRole>, k: int, input: SourceInput) -> bool {
    &&& input.descriptor.source_id@ == source_at(r, k).source_id@
    &&& input.descriptor.role == roles[k]
    &&& input.descriptor.encoding == wire_encoding(source_at(r, k))
    &&& describes(input.descriptor, input.bytes@)
    &&& evidence_ok(source_at(r, k), input.bytes@)
    &&& (inline_bytes(source_at(r, k)) matches Some(b) ==> input.bytes@ == b)
}

/// A verified document for source `s` in role `role`.
pub open spec fn document_matches(
    s: OperationSource,
    role: SourceRole,
    d: crate::source::SourceDocument,
) -> bool {
    &&& d.desc().source_id@ == s.source_id@
    &&& d.desc().role == role
    &&& d.desc().encoding == wire_encoding(s)
    &&& evidence_ok(s, d.data())
    &&& (inline_bytes(s) matches Some(b) ==> d.data() == b)
}

/// The map holds one verified document per role of the request, in role order.
pub open spec fn validated_sources(r: OperationRequest, m: SourceMap) -> bool {
    &&& m.docs().len() == req_roles(r).len()
    &&& forall|i: int|
        0 <= i < req_roles(r).len() ==> document_matches(
            source_at(r, i),
            req_roles(r)[i],
            #[trigger] m.docs()[i],
        )
}

/// Immutable verified bytes plus the complete request, including unknown fields.
#[derive(Debug)]
pub struct ValidatedOperationRequest {
    request: OperationRequest,
    sources: SourceMap,
}

impl ValidatedOperationRequest {
    #[verifier::type_invariant]
    spec fn inv(self) -> bool {
        &&& roles_exact(self.request.sources, policy_kind(self.request.operation))
        &&& validated_sources(self.request, self.sources)
    }

    pub closed spec fn spec_request(self) -> OperationRequest {
        self.request
    }

    pub closed spec fn spec_sources(self) -> SourceMap {
        self.sources
    }

    pub fn request(&self) -> (r: &OperationRequest)
        ensures
            *r == self.spec_request(),
            roles_exact(r.sources, policy_kind(r.operation)),
            validated_sources(*r, self.spec_sources()),
    {
        proof {
            use_type_invariant(self);
        }
        &self.request
    }

    pub fn sources(&self) -> (m: &SourceMap)
        ensures
            *m == self.spec_sources(),
            validated_sources(self.spec_request(), *m),
            roles_exact(self.spec_request().sources, policy_kind(self.spec_request().operation)),
    {
        proof {
            use_type_invariant(self);
        }
        &self.sources
    }
}

proof fn lemma_no_descriptor_error(r: OperationRequest, max: int, j: int, i: int)
    requires
        descriptor_scan(r, max, j) is None,
        0 <= j <= i < req_roles(r).len(),
    ensures
        descriptor_error(r, max, i) is None,
    decreases i - j,
{
    if j < i {
        lemma_no_descriptor_error(r, max, j + 1, i);
    }
}

proof fn lemma_declared_before_bound(r: OperationRequest, max: int, i: int)
    requires
        descriptor_scan(r, max, 0) is None,
        0 <= i <= req_roles(r).len(),
        max >= 0,
    ensures
        0 <= declared_before(r, i) <= max,
    decreases i,
{
    if i > 0 {
        lemma_declared_before_bound(r, max, i - 1);
        lemma_no_descriptor_error(r, max, 0, i - 1);
    }
}

fn evidence_matches(s: &OperationSource, input: &SourceInput) -> (r: bool)
    requires
        describes(input.descriptor, input.bytes@),
        input.descriptor.encoding == wire_encoding(*s),
    ensures
        r == evidence_ok(*s, input.bytes@),
{
    let d = &input.descriptor;
    proof {
        broadcast use vstd::utf8::encode_utf8_decode_utf8;
        if utf8_of(s.sha256@) == digest_hex(input.bytes@) {
            assert(vstd::utf8::decode_utf8(utf8_of(s.sha256@)) == s.sha256@);
            assert(vstd::utf8::decode_utf8(utf8_of(d.sha256@)) == d.sha256@);
        }
    }
    if d.byte_length != s.byte_length || d.sha256 != s.sha256 {
        return false;
    }
    let bom_ok = match s.bom {
        Some(v) => v == d.bom,
        None => true,
    };
    let endings_ok = match s.line_endings {
        Some(v) => v == d.line_endings,
        None => true,
    };
    let newline_ok = match s.final_newline {
        Some(v) => v == d.final_newline,
        None => true,
    };
    bom_ok && endings_ok && newline_ok
}



/// Why a source's bytes cannot be bound under the `remaining` budget, with
/// the message: more bytes than the budget leaves, bytes its encoding
/// rejects (or a source without identity), or bytes that contradict its
/// evidence.
pub open spec fn bind_failure(s: OperationSource, b: Seq<u8>, remaining: int) -> Option<
    (OperationRequestErrorCode, Seq<char>),
> {
    if b.len() > remaining {
        Some((OperationRequestErrorCode::ResourceLimit, "resolved source exceeds byte budget"@))
    } else if s.source_id@.len() == 0 || (wire_encoding(s) == SourceEncoding::Utf8 && !valid_utf8(b)) {
        Some((OperationRequestErrorCode::InvalidSource, "source bytes are not valid for their encoding"@))
    } else if !evidence_ok(s, b) {
        Some((OperationRequestErrorCode::InvalidSource, "source evidence does not match exact bytes"@))
    } else {
        None
    }
}

/// Bind the bytes of a source, inline or returned by a resolver, to the
/// source in `role`: the input they make, or the error code and message
/// `bind_failure` gives. The bytes are untrusted and checked against the
/// remaining byte budget and the source's evidence.
pub fn bind_source(source: &OperationSource, role: SourceRole, bytes: Vec<u8>, remaining: u64) -> (r: Result<
    SourceInput,
    (OperationRequestErrorCode, String),
>)
    ensures
        match bind_failure(*source, bytes@, remaining as int) {
            Some((code, message)) => r matches Err((c, m)) && c == code && m@ == message,
            None => r matches Ok(input) && {
                &&& input.descriptor.source_id@ == source.source_id@
                &&& input.descriptor.role == role
                &&& input.descriptor.encoding == wire_encoding(*source)
                &&& input.bytes@ == bytes@
                &&& describes(input.descriptor, input.bytes@)
            },
        },
{
    if bytes.len() as u64 > remaining {
        return Err((OperationRequestErrorCode::ResourceLimit, crate::text::owned("resolved source exceeds byte budget")));
    }
    let encoding = if str_eq(source.encoding.as_str(), "utf-8") {
        SourceEncoding::Utf8
    } else {
        SourceEncoding::Binary
    };
    let ghost b = bytes@;
    let input = match source_input(copy_string(&source.source_id), role, encoding, bytes) {
        Ok(v) => v,
        Err(_) => {
            return Err(
                (OperationRequestErrorCode::InvalidSource, crate::text::owned("source bytes are not valid for their encoding")),
            );
        },
    };
    if !evidence_matches(source, &input) {
        return Err((OperationRequestErrorCode::InvalidSource, crate::text::owned("source evidence does not match exact bytes")));
    }
    Ok(input)
}

/// What a request's failure at a source names: its code, the source's role
/// and the message.
pub open spec fn failure_at(o: Option<(OperationRequestErrorCode, Seq<char>)>, role: SourceRole) -> Option<
    (OperationRequestErrorCode, Option<SourceRole>, Seq<char>),
> {
    match o {
        Some((c, m)) => Some((c, Some(role), m)),
        None => None,
    }
}

/// The bytes bound for the `i`-th source: its inline bytes, or what the
/// resolver returned, `g`.
pub open spec fn source_bytes(r: OperationRequest, i: int, g: Result<Vec<u8>, String>) -> Option<Seq<u8>> {
    match inline_bytes(source_at(r, i)) {
        Some(b) => Some(b),
        None => match g {
            Ok(v) => Some(v@),
            Err(_) => None,
        },
    }
}

/// Binding the `i`-th source, where `g` is what `resolve` returned when
/// handed the source and its declared byte length (ignored for an inline
/// source): its failure, if any; the outer `None` where `g` is not such a
/// return of `resolve`.
pub open spec fn bind_step<F: Fn(&OperationSource, u64) -> Result<Vec<u8>, String>>(
    resolve: F,
    r: OperationRequest,
    max: int,
    i: int,
    g: Result<Vec<u8>, String>,
) -> Option<Option<(OperationRequestErrorCode, Option<SourceRole>, Seq<char>)>> {
    let s = source_at(r, i);
    let role = req_roles(r)[i];
    let remaining = max - declared_before(r, i);
    match inline_bytes(s) {
        Some(b) => Some(failure_at(bind_failure(s, b, remaining), role)),
        None => if !call_ensures(resolve, (&s, s.byte_length), g) {
            None
        } else {
            match g {
                Err(m) => Some(Some((OperationRequestErrorCode::SourceResolution, Some(role), m@))),
                Ok(v) => Some(failure_at(bind_failure(s, v@, remaining), role)),
            }
        },
    }
}

/// Binding the sources from the `i`-th on, in role order, given what
/// `resolve` returned for each reference: the first failure, if any; the
/// outer `None` where some `got[k]` reached is not a return of `resolve`.
pub open spec fn bind_run<F: Fn(&OperationSource, u64) -> Result<Vec<u8>, String>>(
    resolve: F,
    r: OperationRequest,
    max: int,
    i: int,
    got: Seq<Result<Vec<u8>, String>>,
) -> Option<Option<(OperationRequestErrorCode, Option<SourceRole>, Seq<char>)>>
    decreases req_roles(r).len() - i,
{
    if i < 0 || i >= req_roles(r).len() {
        Some(None)
    } else {
        match bind_step(resolve, r, max, i, got[i]) {
            None => None,
            Some(Some(e)) => Some(Some(e)),
            Some(None) => bind_run(resolve, r, max, i + 1, got),
        }
    }
}

proof fn lemma_bind_prefix<F: Fn(&OperationSource, u64) -> Result<Vec<u8>, String>>(
    resolve: F,
    r: OperationRequest,
    max: int,
    i: int,
    got: Seq<Result<Vec<u8>, String>>,
)
    requires
        0 <= i <= req_roles(r).len(),
        forall|k: int| 0 <= k < i ==> #[trigger] bind_step(resolve, r, max, k, got[k]) == Some(
            None::<(OperationRequestErrorCode, Option<SourceRole>, Seq<char>)>,
        ),
    ensures
        bind_run(resolve, r, max, 0, got) == bind_run(resolve, r, max, i, got),
    decreases i,
{
    if i > 0 {
        lemma_bind_prefix(resolve, r, max, i - 1, got);
        assert(bind_step(resolve, r, max, i - 1, got[i - 1]) == Some(
            None::<(OperationRequestErrorCode, Option<SourceRole>, Seq<char>)>,
        ));
    }
}

/// Binding the sources of a request from the `i`-th on when every source
/// reference is refused with `refusal`: the first failure in role order,
/// with its role and message. A source without inline bytes fails as
/// unresolved; inline bytes fail as `bind_failure` says under the budget the
/// earlier sources leave.
pub open spec fn refused_bind_scan(r: OperationRequest, max: int, i: int, refusal: Seq<char>) -> Option<
    (OperationRequestErrorCode, Option<SourceRole>, Seq<char>),
>
    decreases req_roles(r).len() - i,
{
    if i < 0 || i >= req_roles(r).len() {
        None
    } else {
        match inline_bytes(source_at(r, i)) {
            None => Some((OperationRequestErrorCode::SourceResolution, Some(req_roles(r)[i]), refusal)),
            Some(b) => match bind_failure(source_at(r, i), b, max - declared_before(r, i)) {
                Some((code, message)) => Some((code, Some(req_roles(r)[i]), message)),
                None => refused_bind_scan(r, max, i + 1, refusal),
            },
        }
    }
}

/// How validation of `r` under the `max` budget ends when every source
/// reference is refused with `refusal`: the first check made before
/// binding, then the first source that cannot be bound.
pub open spec fn refused_outcome(r: OperationRequest, max: int, refusal: Seq<char>) -> Option<
    (OperationRequestErrorCode, Option<SourceRole>, Seq<char>),
> {
    match pre_error(r, max) {
        Some((code, role)) => Some((code, role, pre_error_message(r, max))),
        None => refused_bind_scan(r, max, 0, refusal),
    }
}

/// Under a resolver that refuses every reference with `refusal`, binding
/// ends as `refused_bind_scan` says, and succeeds only where every source
/// from the `i`-th on is inline.
pub proof fn lemma_refused_bind<F: Fn(&OperationSource, u64) -> Result<Vec<u8>, String>>(
    resolve: F,
    r: OperationRequest,
    max: int,
    i: int,
    got: Seq<Result<Vec<u8>, String>>,
    refusal: Seq<char>,
)
    requires
        0 <= i,
        forall|s: &OperationSource, n: u64, out: Result<Vec<u8>, String>|
            #[trigger] call_ensures(resolve, (s, n), out) ==> (out matches Err(m) && m@ == refusal),
        bind_run(resolve, r, max, i, got) is Some,
    ensures
        bind_run(resolve, r, max, i, got) == Some(refused_bind_scan(r, max, i, refusal)),
        refused_bind_scan(r, max, i, refusal) is None ==> forall|j: int|
            i <= j < req_roles(r).len() ==> #[trigger] inline_bytes(source_at(r, j)) is Some,
    decreases req_roles(r).len() - i,
{
    if i < req_roles(r).len() {
        let s = source_at(r, i);
        if inline_bytes(s) is None {
            assert(call_ensures(resolve, (&s, s.byte_length), got[i]));
        } else if bind_failure(s, inline_bytes(s)->0, max - declared_before(r, i)) is None {
            lemma_refused_bind(resolve, r, max, i + 1, got, refusal);
        }
    }
}

/// The failure a request error stands for.
pub open spec fn request_outcome(r: Result<ValidatedOperationRequest, OperationRequestError>) -> Option<
    (OperationRequestErrorCode, Option<SourceRole>, Seq<char>),
> {
    match r {
        Ok(_) => None,
        Err(e) => Some((e.code, e.source_role, e.message@)),
    }
}

impl OperationRequest {
    /// Validate the whole request, then bind each source's bytes in role
    /// order. Inline content and bytes are used as given; a reference is
    /// handed to `resolve` with its declared byte length, and the bytes it
    /// returns are untrusted and checked like inline ones. No parser,
    /// provider, filesystem or network access happens here.
    #[verifier::spinoff_prover]
    #[verifier::rlimit(40)]
    pub fn validate(
        self,
        max_total_bytes: u64,
        resolve: impl Fn(&OperationSource, u64) -> Result<Vec<u8>, String>,
    ) -> (r: Result<ValidatedOperationRequest, OperationRequestError>)
        requires
            forall|s: &OperationSource, n: u64| #[trigger] resolve.requires((s, n)),
        ensures
            match pre_error(self, max_total_bytes as int) {
                Some((code, role)) => r matches Err(e) && e.code == code && e.source_role == role
                    && e.message@ == pre_error_message(self, max_total_bytes as int),
                None => true,
            },
            pre_error(self, max_total_bytes as int) is None && all_inline(self) ==> match evidence_scan(
                self,
                0,
            ) {
                Some(role) => r matches Err(e) && e.code == OperationRequestErrorCode::InvalidSource
                    && e.source_role == Some(role),
                None => r is Ok,
            },
            pre_error(self, max_total_bytes as int) is None ==> exists|got: Seq<Result<Vec<u8>, String>>|
                #![trigger bind_run(resolve, self, max_total_bytes as int, 0, got)]
                {
                    &&& got.len() == req_roles(self).len()
                    &&& bind_run(resolve, self, max_total_bytes as int, 0, got) == Some(request_outcome(r))
                    &&& r matches Ok(v) ==> forall|i: int|
                        0 <= i < req_roles(self).len() ==> Some(#[trigger] v.spec_sources().docs()[i].data())
                            == source_bytes(self, i, got[i])
                },
            match r {
                Ok(v) => {
                    &&& v.spec_request() == self
                    &&& pre_error(self, max_total_bytes as int) is None
                    &&& validated_sources(self, v.spec_sources())
                },
                Err(e) => {
                    &&& e.request_id@ == self.request_id@
                    &&& e.code == OperationRequestErrorCode::SourceResolution ==> {
                        &&& pre_error(self, max_total_bytes as int) is None
                        &&& exists|i: int|
                            0 <= i < req_roles(self).len() && e.source_role == Some(
                                req_roles(self)[i],
                            ) && #[trigger] inline_bytes(source_at(self, i)) is None
                    }
                },
            },
    {
        if let Some((code, role, message)) = self.pre_check(max_total_bytes) {
            proof {
                lemma_scan_code(self, max_total_bytes as int, 0);
            }
            return Err(self.error(code, role, crate::text::owned(message)));
        }
        let roles = self.operation.kind().source_roles();
        let mut inputs: Vec<SourceInput> = Vec::new();
        let mut remaining: u64 = max_total_bytes;
        let ghost mut got: Seq<Result<Vec<u8>, String>> = Seq::empty();
        let ghost max = max_total_bytes as int;
        let mut i: usize = 0;
        while i < roles.len()
            invariant
                forall|s: &OperationSource, n: u64| #[trigger] resolve.requires((s, n)),
                roles@ == req_roles(self),
                pre_error(self, max_total_bytes as int) is None,
                roles_exact(self.sources, policy_kind(self.operation)),
                max == max_total_bytes as int,
                i <= roles@.len(),
                inputs@.len() == i,
                got.len() == i,
                remaining == max_total_bytes - declared_before(self, i as int),
                forall|k: int| 0 <= k < i ==> input_matches(self, roles@, k, #[trigger] inputs@[k]),
                forall|k: int| 0 <= k < i ==> #[trigger] bind_step(resolve, self, max, k, got[k]) == Some(
                    None::<(OperationRequestErrorCode, Option<SourceRole>, Seq<char>)>,
                ),
                forall|k: int| 0 <= k < i ==> Some(#[trigger] inputs@[k].bytes@) == source_bytes(self, k, got[k]),
                all_inline(self) ==> evidence_scan(self, 0) == evidence_scan(self, i as int),
            decreases roles@.len() - i,
        {
            proof {
                lemma_no_descriptor_error(self, max_total_bytes as int, 0, i as int);
                lemma_declared_before_bound(self, max_total_bytes as int, i as int);
            }
            let role = roles[i];
            let source = self.source_for(i, &roles);
            let ghost mut g: Result<Vec<u8>, String> = arbitrary();
            let bytes = match &source.content {
                Some(c) => copy_bytes(str_bytes(c.as_str())),
                None => match &source.bytes {
                    Some(b) => copy_bytes(b.as_slice()),
                    None => {
                        let answer = resolve(source, source.byte_length);
                        proof {
                            g = answer;
                        }
                        match answer {
                            Ok(b) => b,
                            Err(message) => {
                                let e = self.error(OperationRequestErrorCode::SourceResolution, Some(role), message);
                                proof {
                                    let full = got.push(g) + Seq::new(
                                        (roles@.len() - i - 1) as nat,
                                        |k: int| arbitrary::<Result<Vec<u8>, String>>(),
                                    );
                                    assert forall|k: int| 0 <= k < i implies #[trigger] bind_step(
                                        resolve,
                                        self,
                                        max,
                                        k,
                                        full[k],
                                    ) == Some(None::<(OperationRequestErrorCode, Option<SourceRole>, Seq<char>)>) by {
                                        assert(full[k] == got[k]);
                                    }
                                    lemma_bind_prefix(resolve, self, max, i as int, full);
                                    assert(full[i as int] == g);
                                    assert(bind_run(resolve, self, max, 0, full) == Some(
                                        request_outcome(Err::<ValidatedOperationRequest, OperationRequestError>(e)),
                                    ));
                                }
                                return Err(e);
                            },
                        }
                    },
                },
            };
            proof {
                assert(source_bytes(self, i as int, g) == Some(bytes@));
            }
            let input = match bind_source(source, role, bytes, remaining) {
                Ok(v) => v,
                Err((code, message)) => {
                    let e = self.error(code, Some(role), message);
                    proof {
                        let full = got.push(g) + Seq::new(
                            (roles@.len() - i - 1) as nat,
                            |k: int| arbitrary::<Result<Vec<u8>, String>>(),
                        );
                        assert forall|k: int| 0 <= k < i implies #[trigger] bind_step(resolve, self, max, k, full[k])
                            == Some(None::<(OperationRequestErrorCode, Option<SourceRole>, Seq<char>)>) by {
                            assert(full[k] == got[k]);
                        }
                        lemma_bind_prefix(resolve, self, max, i as int, full);
                        assert(full[i as int] == g);
                        assert(bind_run(resolve, self, max, 0, full) == Some(
                            request_outcome(Err::<ValidatedOperationRequest, OperationRequestError>(e)),
                        ));
                    }
                    return Err(e);
                },
            };
            remaining = remaining - input.descriptor.byte_length;
            let ghost before = inputs@;
            let ghost got_before = got;
            proof {
                assert(input_matches(self, roles@, i as int, input));
                got = got.push(g);
                assert(bind_step(resolve, self, max, i as int, got[i as int]) == Some(
                    None::<(OperationRequestErrorCode, Option<SourceRole>, Seq<char>)>,
                ));
            }
            inputs.push(input);
            proof {
                assert forall|k: int| 0 <= k < i + 1 implies input_matches(self, roles@, k, #[trigger] inputs@[k]) by {
                    if k < i {
                        assert(inputs@[k] == before[k]);
                    }
                }
                assert forall|k: int| 0 <= k < i + 1 implies #[trigger] bind_step(resolve, self, max, k, got[k]) == Some(
                    None::<(OperationRequestErrorCode, Option<SourceRole>, Seq<char>)>,
                ) by {
                    if k < i {
                        assert(got[k] == got_before[k]);
                    }
                }
                assert forall|k: int| 0 <= k < i + 1 implies Some(#[trigger] inputs@[k].bytes@) == source_bytes(
                    self,
                    k,
                    got[k],
                ) by {
                    if k < i {
                        assert(inputs@[k] == before[k]);
                        assert(got[k] == got_before[k]);
                    }
                }
            }
            i = i + 1;
        }
        proof {
            let orig = inputs@;
            assert forall|k: int| 0 <= k < orig.len() implies #[trigger] crate::source::input_error(
                orig,
                k,
                max_total_bytes as int,
            ) is None by {
                lemma_no_descriptor_error(self, max_total_bytes as int, 0, k);
                assert forall|m: int| 0 <= m < orig.len() implies #[trigger] orig[m].bytes@.len()
                    == source_at(self, m).byte_length by {
                    assert(orig[m].descriptor.source_id@ == source_at(self, m).source_id@);
                }
                lemma_bytes_total_declared(self, orig, k);
                assert(!id_seen_before(self, k));
                if exists|j: int|
                    0 <= j < k && #[trigger] orig[j].descriptor.source_id@
                        == orig[k].descriptor.source_id@ {
                    let j = choose|j: int|
                        0 <= j < k && #[trigger] orig[j].descriptor.source_id@
                            == orig[k].descriptor.source_id@;
                    assert(source_at(self, j).source_id@ == source_at(self, k).source_id@);
                }
            }
        }
        let ghost all = inputs@;
        let sources = match SourceMap::validate(inputs, max_total_bytes) {
            Ok(m) => m,
            Err(_) => vstd::pervasive::unreached(),
        };
        proof {
            assert forall|k: int| 0 <= k < req_roles(self).len() implies document_matches(
                source_at(self, k),
                req_roles(self)[k],
                #[trigger] sources.docs()[k],
            ) by {
                assert(input_matches(self, roles@, k, all[k]));
                assert(sources.docs()[k].desc() == all[k].descriptor);
            }
            assert(validated_sources(self, sources));
            lemma_bind_prefix(resolve, self, max, i as int, got);
            assert forall|k: int| 0 <= k < req_roles(self).len() implies Some(#[trigger] sources.docs()[k].data())
                == source_bytes(self, k, got[k]) by {
                assert(Some(all[k].bytes@) == source_bytes(self, k, got[k]));
            }
        }
        let validated = ValidatedOperationRequest { request: self, sources };
        Ok(validated)
    }
}

proof fn lemma_scan_code(r: OperationRequest, max: int, i: int)
    ensures
        descriptor_scan(r, max, i) matches Some((c, _)) ==> c
            != OperationRequestErrorCode::SourceResolution,
    decreases req_roles(r).len() - i,
{
    if 0 <= i < req_roles(r).len() && descriptor_error(r, max, i) is None {
        lemma_scan_code(r, max, i + 1);
    }
}

proof fn lemma_bytes_total_declared(r: OperationRequest, inputs: Seq<SourceInput>, k: int)
    requires
        0 <= k <= inputs.len(),
        forall|m: int|
            0 <= m < inputs.len() ==> #[trigger] inputs[m].bytes@.len() == source_at(
                r,
                m,
            ).byte_length,
    ensures
        crate::source::bytes_total(inputs.take(k)) == declared_before(r, k),
    decreases k,
{
    if k > 0 {
        lemma_bytes_total_declared(r, inputs, k - 1);
        assert(inputs.take(k).drop_last() =~= inputs.take(k - 1));
    }
}


// ---------------------------------------------------------------------------
// Batches

/// The declared bytes of all of a request's sources.
pub open spec fn declared_total(r: OperationRequest) -> int {
    declared_before(r, req_roles(r).len() as int)
}

/// Declared bytes of the requests before the `i`-th.
pub open spec fn spent_before(reqs: Seq<OperationRequest>, i: int) -> int
    decreases i,
{
    if i <= 0 {
        0
    } else {
        spent_before(reqs, i - 1) + declared_total(reqs[i - 1])
    }
}

pub open spec fn batch_id_bad(reqs: Seq<OperationRequest>, i: int) -> bool {
    reqs[i].request_id@.len() == 0 || exists|j: int|
        0 <= j < i && #[trigger] reqs[j].request_id@ == reqs[i].request_id@
}

/// The first request from the `i`-th on with an empty or repeated identity.
pub open spec fn batch_id_scan(reqs: Seq<OperationRequest>, i: int) -> Option<int>
    decreases reqs.len() - i,
{
    if i < 0 || i >= reqs.len() {
        None
    } else if batch_id_bad(reqs, i) {
        Some(i)
    } else {
        batch_id_scan(reqs, i + 1)
    }
}

/// The outcome of validating a request whose sources are all inline.
pub open spec fn inline_outcome(r: OperationRequest, max: int) -> Option<
    (OperationRequestErrorCode, Option<SourceRole>),
> {
    match pre_error(r, max) {
        Some(e) => Some(e),
        None => match evidence_scan(r, 0) {
            Some(role) => Some((OperationRequestErrorCode::InvalidSource, Some(role))),
            None => None,
        },
    }
}

/// For a batch of inline requests: the first request from the `i`-th on
/// that fails under the budget its predecessors leave, with its error.
pub open spec fn batch_scan(reqs: Seq<OperationRequest>, max: int, i: int) -> Option<
    (int, OperationRequestErrorCode, Option<SourceRole>),
>
    decreases reqs.len() - i,
{
    if i < 0 || i >= reqs.len() {
        None
    } else if inline_outcome(reqs[i], max - spent_before(reqs, i)) is Some {
        let (c, role) = inline_outcome(reqs[i], max - spent_before(reqs, i))->0;
        Some((i, c, role))
    } else {
        batch_scan(reqs, max, i + 1)
    }
}

/// Binding holds the same under a resolver whose returns are all returns
/// of `resolve`.
proof fn lemma_bind_run_through<
    F: Fn(&OperationSource, u64) -> Result<Vec<u8>, String>,
    G: Fn(&OperationSource, u64) -> Result<Vec<u8>, String>,
>(forward: G, resolve: F, r: OperationRequest, max: int, i: int, got: Seq<Result<Vec<u8>, String>>)
    requires
        forall|s: &OperationSource, n: u64, out: Result<Vec<u8>, String>|
            #[trigger] call_ensures(forward, (s, n), out) ==> call_ensures(resolve, (s, n), out),
        bind_run(forward, r, max, i, got) is Some,
    ensures
        bind_run(resolve, r, max, i, got) == bind_run(forward, r, max, i, got),
    decreases req_roles(r).len() - i,
{
    if 0 <= i < req_roles(r).len() {
        let s = source_at(r, i);
        if inline_bytes(s) is None {
            assert(call_ensures(forward, (&s, s.byte_length), got[i]));
        }
        if bind_step(forward, r, max, i, got[i]) == Some(
            None::<(OperationRequestErrorCode, Option<SourceRole>, Seq<char>)>,
        ) {
            lemma_bind_run_through(forward, resolve, r, max, i + 1, got);
        }
    }
}

/// Validating the requests of a batch from the `k`-th on, each under the
/// budget its predecessors leave, given what `resolve` returned for each
/// request's references (`gots[k]`): the index, code, role and message of
/// the first failure; the outer `None` where some return reached is not a
/// return of `resolve`.
pub open spec fn batch_run<F: Fn(&OperationSource, u64) -> Result<Vec<u8>, String>>(
    resolve: F,
    reqs: Seq<OperationRequest>,
    max: int,
    k: int,
    gots: Seq<Seq<Result<Vec<u8>, String>>>,
) -> Option<Option<(int, OperationRequestErrorCode, Option<SourceRole>, Seq<char>)>>
    decreases reqs.len() - k,
{
    if k < 0 || k >= reqs.len() {
        Some(None)
    } else {
        let budget = max - spent_before(reqs, k);
        match pre_error(reqs[k], budget) {
            Some((c, role)) => Some(Some((k, c, role, pre_error_message(reqs[k], budget)))),
            None => match bind_run(resolve, reqs[k], budget, 0, gots[k]) {
                None => None,
                Some(Some((c, role, m))) => Some(Some((k, c, role, m))),
                Some(None) => batch_run(resolve, reqs, max, k + 1, gots),
            },
        }
    }
}

/// A batch result is the outcome `o` names.
pub open spec fn batch_result_is(
    r: Result<Vec<ValidatedOperationRequest>, OperationRequestError>,
    reqs: Seq<OperationRequest>,
    o: Option<(int, OperationRequestErrorCode, Option<SourceRole>, Seq<char>)>,
) -> bool {
    match (o, r) {
        (None, Ok(_)) => true,
        (Some((k, c, role, m)), Err(e)) => {
            &&& 0 <= k < reqs.len()
            &&& e.request_id@ == reqs[k].request_id@
            &&& e.code == c
            &&& e.source_role == role
            &&& e.message@ == m
        },
        _ => false,
    }
}

/// The `k`-th request validated under the budget its predecessors leave,
/// with `got` what `resolve` returned for its references.
pub open spec fn batch_passed<F: Fn(&OperationSource, u64) -> Result<Vec<u8>, String>>(
    resolve: F,
    reqs: Seq<OperationRequest>,
    max: int,
    k: int,
    got: Seq<Result<Vec<u8>, String>>,
) -> bool {
    &&& pre_error(reqs[k], max - spent_before(reqs, k)) is None
    &&& bind_run(resolve, reqs[k], max - spent_before(reqs, k), 0, got) == Some(
        None::<(OperationRequestErrorCode, Option<SourceRole>, Seq<char>)>,
    )
}

proof fn lemma_batch_prefix<F: Fn(&OperationSource, u64) -> Result<Vec<u8>, String>>(
    resolve: F,
    reqs: Seq<OperationRequest>,
    max: int,
    k: int,
    gots: Seq<Seq<Result<Vec<u8>, String>>>,
)
    requires
        0 <= k <= reqs.len(),
        forall|j: int| 0 <= j < k ==> #[trigger] batch_passed(resolve, reqs, max, j, gots[j]),
    ensures
        batch_run(resolve, reqs, max, 0, gots) == batch_run(resolve, reqs, max, k, gots),
    decreases k,
{
    if k > 0 {
        lemma_batch_prefix(resolve, reqs, max, k - 1, gots);
        assert(batch_passed(resolve, reqs, max, k - 1, gots[k - 1]));
    }
}

/// Normalize a complete batch in caller order. Identities must be unique
/// within the batch, and the byte limit covers the entire batch. A failure
/// returns no partial batch.
pub fn validate_operation_batch(
    requests: Vec<OperationRequest>,
    max_requests: usize,
    max_total_bytes: u64,
    resolve: impl Fn(&OperationSource, u64) -> Result<Vec<u8>, String>,
) -> (r: Result<Vec<ValidatedOperationRequest>, OperationRequestError>)
    requires
        forall|s: &OperationSource, n: u64| #[trigger] resolve.requires((s, n)),
    ensures
        requests@.len() > max_requests ==> (r matches Err(e) && e.code
            == OperationRequestErrorCode::ResourceLimit && e.source_role is None
            && e.request_id@ == requests@[max_requests as int].request_id@),
        requests@.len() <= max_requests ==> match batch_id_scan(requests@, 0) {
            Some(i) => r matches Err(e) && e.code == OperationRequestErrorCode::InvalidIdentity
                && e.source_role is None && e.request_id@ == requests@[i].request_id@,
            None => true,
        },
        requests@.len() <= max_requests && batch_id_scan(requests@, 0) is None && (forall|i: int|
            0 <= i < requests@.len() ==> all_inline(#[trigger] requests@[i])) ==> match batch_scan(
            requests@,
            max_total_bytes as int,
            0,
        ) {
            Some((i, c, role)) => r matches Err(e) && e.code == c && e.source_role == role
                && e.request_id@ == requests@[i].request_id@,
            None => r is Ok,
        },
        requests@.len() <= max_requests && batch_id_scan(requests@, 0) is None ==> exists|
            gots: Seq<Seq<Result<Vec<u8>, String>>>,
        |
            #![trigger batch_run(resolve, requests@, max_total_bytes as int, 0, gots)]
            {
                &&& gots.len() == requests@.len()
                &&& batch_run(resolve, requests@, max_total_bytes as int, 0, gots) matches Some(o)
                    && batch_result_is(r, requests@, o)
                &&& r matches Ok(v) ==> forall|k: int, i: int|
                    0 <= k < requests@.len() && 0 <= i < req_roles(requests@[k]).len() ==> Some(
                        #[trigger] v@[k].spec_sources().docs()[i].data(),
                    ) == source_bytes(requests@[k], i, gots[k][i])
            },
        r matches Ok(v) ==> {
            &&& v@.len() == requests@.len()
            &&& forall|i: int|
                0 <= i < v@.len() ==> (#[trigger] v@[i]).spec_request() == requests@[i]
                    && validated_sources(requests@[i], v@[i].spec_sources())
        },
{
    if requests.len() > max_requests {
        let e = requests[max_requests].error(
            OperationRequestErrorCode::ResourceLimit,
            None,
            crate::text::owned("request count limit exceeded"),
        );
        return Err(e);
    }
    let mut i: usize = 0;
    while i < requests.len()
        invariant
            i <= requests@.len(),
            requests@.len() <= max_requests,
            batch_id_scan(requests@, 0) == batch_id_scan(requests@, i as int),
        decreases requests@.len() - i,
    {
        let mut bad = requests[i].request_id.as_str().is_empty();
        let mut j: usize = 0;
        while j < i && !bad
            invariant
                j <= i < requests@.len(),
                bad ==> batch_id_bad(requests@, i as int),
                !bad ==> requests@[i as int].request_id@.len() > 0 && forall|m: int|
                    0 <= m < j ==> #[trigger] requests@[m].request_id@
                        != requests@[i as int].request_id@,
            decreases i - j,
        {
            if requests[j].request_id == requests[i].request_id {
                bad = true;
            }
            j = j + 1;
        }
        if bad {
            return Err(
                requests[i].error(
                    OperationRequestErrorCode::InvalidIdentity,
                    None,
                    crate::text::owned("empty or duplicate batch request ID"),
                ),
            );
        }
        i = i + 1;
    }
    let ghost orig = requests@;
    let ghost max = max_total_bytes as int;
    let ghost mut gots: Seq<Seq<Result<Vec<u8>, String>>> = Seq::empty();
    let mut remaining: u64 = max_total_bytes;
    let mut results: Vec<ValidatedOperationRequest> = Vec::new();
    let mut rest = requests;
    while rest.len() > 0
        invariant
            forall|s: &OperationSource, n: u64| #[trigger] resolve.requires((s, n)),
            orig == requests@,
            max == max_total_bytes as int,
            gots.len() == results@.len(),
            forall|j: int| 0 <= j < results@.len() ==> #[trigger] batch_passed(resolve, orig, max, j, gots[j]),
            forall|j: int, i: int|
                0 <= j < results@.len() && 0 <= i < req_roles(orig[j]).len() ==> Some(
                    #[trigger] results@[j].spec_sources().docs()[i].data(),
                ) == source_bytes(orig[j], i, gots[j][i]),
            orig.len() <= max_requests,
            batch_id_scan(orig, 0) is None,
            results@.len() + rest@.len() == orig.len(),
            rest@ == orig.skip(results@.len() as int),
            remaining == max_total_bytes - spent_before(orig, results@.len() as int),
            forall|k: int|
                0 <= k < results@.len() ==> (#[trigger] results@[k]).spec_request() == orig[k]
                    && validated_sources(orig[k], results@[k].spec_sources()),
            (forall|k: int| 0 <= k < orig.len() ==> all_inline(#[trigger] orig[k])) ==> batch_scan(
                orig,
                max_total_bytes as int,
                0,
            ) == batch_scan(orig, max_total_bytes as int, results@.len() as int),
        decreases rest@.len(),
    {
        let ghost k = results@.len() as int;
        let request = rest.remove(0);
        assert(request == orig[k]);
        let resolver = &resolve;
        let forward = |s: &OperationSource, n: u64| -> (out: Result<Vec<u8>, String>)
            requires
                resolver.requires((s, n)),
            ensures
                resolver.ensures((s, n), out),
            { resolver(s, n) };
        assert(remaining == max - spent_before(orig, k));
        let ghost pre = pre_error(request, remaining as int);
        let outcome = request.validate(remaining, forward);
        proof {
            assert forall|s: &OperationSource, n: u64, out: Result<Vec<u8>, String>|
                #[trigger] call_ensures(forward, (s, n), out) implies call_ensures(resolve, (s, n), out) by {}
        }
        let validated = match outcome {
            Ok(v) => v,
            Err(e) => {
                proof {
                    let got = if pre is None {
                        choose|got: Seq<Result<Vec<u8>, String>>|
                            #![trigger bind_run(forward, orig[k], remaining as int, 0, got)]
                            {
                                &&& got.len() == req_roles(orig[k]).len()
                                &&& bind_run(forward, orig[k], remaining as int, 0, got) == Some(
                                    request_outcome(Err::<ValidatedOperationRequest, OperationRequestError>(e)),
                                )
                            }
                    } else {
                        Seq::empty()
                    };
                    if pre is None {
                        lemma_bind_run_through(forward, resolve, orig[k], remaining as int, 0, got);
                    }
                    let full = gots.push(got) + Seq::new(
                        (orig.len() - k - 1) as nat,
                        |j: int| Seq::<Result<Vec<u8>, String>>::empty(),
                    );
                    assert forall|j: int| 0 <= j < k implies #[trigger] batch_passed(resolve, orig, max, j, full[j]) by {
                        assert(full[j] == gots[j]);
                    }
                    lemma_batch_prefix(resolve, orig, max, k, full);
                    assert(full[k] == got);
                    assert(batch_run(resolve, orig, max, 0, full) matches Some(o) && batch_result_is(
                        Err::<Vec<ValidatedOperationRequest>, OperationRequestError>(e),
                        orig,
                        o,
                    ));
                }
                return Err(e);
            },
        };
        proof {
            let got = choose|got: Seq<Result<Vec<u8>, String>>|
                #![trigger bind_run(forward, orig[k], remaining as int, 0, got)]
                {
                    &&& got.len() == req_roles(orig[k]).len()
                    &&& bind_run(forward, orig[k], remaining as int, 0, got) == Some(
                        request_outcome(Ok::<ValidatedOperationRequest, OperationRequestError>(validated)),
                    )
                    &&& forall|i: int|
                        0 <= i < req_roles(orig[k]).len() ==> Some(#[trigger] validated.spec_sources().docs()[i].data())
                            == source_bytes(orig[k], i, got[i])
                };
            lemma_bind_run_through(forward, resolve, orig[k], remaining as int, 0, got);
            let before = gots;
            gots = gots.push(got);
            assert(batch_passed(resolve, orig, max, k, gots[k]));
            assert forall|j: int| 0 <= j < k + 1 implies #[trigger] batch_passed(resolve, orig, max, j, gots[j]) by {
                if j < k {
                    assert(gots[j] == before[j]);
                }
            }
        }
        let total = declared_sum(validated.request(), remaining);
        remaining = remaining - total;
        let ghost results_before = results@;
        results.push(validated);
        proof {
            assert forall|j: int, i: int|
                0 <= j < results@.len() && 0 <= i < req_roles(orig[j]).len() implies Some(
                    #[trigger] results@[j].spec_sources().docs()[i].data(),
                ) == source_bytes(orig[j], i, gots[j][i]) by {
                if j < k {
                    assert(results@[j] == results_before[j]);
                }
            }
        }
        assert(rest@ =~= orig.skip(results@.len() as int));
    }
    proof {
        lemma_batch_prefix(resolve, orig, max, orig.len() as int, gots);
        assert(batch_run(resolve, orig, max, 0, gots) == Some(
            None::<(int, OperationRequestErrorCode, Option<SourceRole>, Seq<char>)>,
        ));
    }
    Ok(results)
}

/// The declared bytes of a validated request's sources.
pub(crate) fn declared_sum(r: &OperationRequest, budget: u64) -> (n: u64)
    requires
        roles_exact(r.sources, policy_kind(r.operation)),
        pre_error(*r, budget as int) is None,
    ensures
        n == declared_total(*r),
        n <= budget,
{
    let roles = r.operation.kind().source_roles();
    proof {
        lemma_declared_before_bound(*r, budget as int, roles@.len() as int);
    }
    let mut total: u64 = 0;
    let mut i: usize = 0;
    while i < roles.len()
        invariant
            roles@ == req_roles(*r),
            roles_exact(r.sources, policy_kind(r.operation)),
            pre_error(*r, budget as int) is None,
            i <= roles@.len(),
            total == declared_before(*r, i as int),
            declared_before(*r, roles@.len() as int) <= budget,
        decreases roles@.len() - i,
    {
        proof {
            lemma_declared_before_bound(*r, budget as int, i + 1);
        }
        total = total + r.source_for(i, &roles).byte_length;
        i = i + 1;
    }
    total
}

} // verus!
