//! The static operation profile catalog and the native entry-point scope.
//! Listing a profile never loads or probes a parser, and is no registry
//! negotiation.
use crate::operation_result::{opt_view, string_views};
use crate::text::{copy_strings, owned, str_eq};
use crate::OperationKind;
use vstd::prelude::*;

verus! {

pub const PARSE_RESULT_SCHEMA: &'static str = "structuredmerge.parse-result/v1";

pub const CATALOG_SCHEMA: &'static str = "structuredmerge.operation-profile-catalog/v1";

pub const YAML_MAPPING: &'static str = "kernel.yaml.native_mapping.v1";

pub const PYTHON_DECLARATIONS: &'static str = "kernel.python.native_declarations.v1";

pub const JSON_NESTED: &'static str = "kernel.json.nested.v1";

pub const GIT_JSON: &'static str = "kernel.git.json.v1";

pub const BASH_OWNERS: &'static str = "kernel.bash.owners.v1";

pub const GO_OWNERS: &'static str = "kernel.go.owners.v1";

pub const RUST_OWNERS: &'static str = "kernel.rust.owners.v1";

pub const TYPESCRIPT_OWNERS: &'static str = "kernel.typescript.owners.v1";

pub const PYTHON_EXTENSION: &'static str = "structuredmerge.extension/python-libcst/v1";

pub const YAML_EXTENSION: &'static str = "structuredmerge.extension/yaml-psych/v1";

pub const PYTHON_SCOPE_ASSIGNMENTS: &'static str = "single-name top-level assignments";

pub const PYTHON_SCOPE_OWNERS: &'static str = "undecorated top-level functions and classes as whole owners";

pub const PYTHON_LIMIT_SYNTAX: &'static str =
    "no imports, decorated declarations, chained or destructuring assignments";

pub const PYTHON_LIMIT_SEMANTICS: &'static str =
    "no nested-body merge or full Python semantic equivalence claim";

pub const UNOWNED_LAYOUT_LIMIT: &'static str = "changed unowned layout fails closed";

pub const YAML_SCOPE_MAPPING: &'static str =
    "top-level block mapping with unique conservative string keys";

pub const YAML_SCOPE_VALUES: &'static str = "nested values as whole owners";

pub const YAML_LIMIT_SYNTAX: &'static str = "no aliases, anchors, tags, complex or ambiguous keys";

pub const YAML_LIMIT_NESTED: &'static str = "no nested-value merge";

pub const BASH_SCOPE: &'static str =
    "top-level functions, variable assignments and literal test_expect_success calls";

pub const BASH_LIMITS: &'static str =
    "whole owners only; dynamic titles, duplicate identities and unsupported top-level constructs fail closed";

pub const GIT_SCOPE: &'static str = "JSON-family three-way merges with Git review framing";

pub const GIT_LIMITS: &'static str =
    "merge3 only; conflict review output is not a partially resolved merge";

pub const GO_SCOPE: &'static str = "top-level function declarations as whole owners";

pub const GO_LIMITS: &'static str =
    "no import reconciliation or nested-body merge; membership plus existing-owner edits conflict";

pub const JSON_SCOPE: &'static str = "nested object members; arrays and scalar values as whole owners";

pub const JSON_LIMITS: &'static str =
    "duplicate identities and unsupported syntax fail closed; exact source/layout constraints remain operation-specific";

pub const RUST_SCOPE: &'static str =
    "top-level const, enum, function, module, static, struct, trait, type and union declarations";

pub const RUST_LIMITS: &'static str =
    "no impl blocks, macro semantics or nested-body merge; membership plus existing-owner edits conflict";

pub const TYPESCRIPT_SCOPE: &'static str =
    "named top-level declarations and supported single-owner wrappers; TSX uses its own grammar";

pub const TYPESCRIPT_LIMITS: &'static str =
    "no nested-body merge or compiler semantics; duplicate, multi-owner and unsupported nested wrappers fail closed";

pub const DECLARED_OPERATIONS_LIMIT: &'static str =
    "declared operations still require supported policies, valid source-bound parser facts and operation-specific syntax";

pub const MERGE2_LIMIT: &'static str =
    "merge2 is current-preferred template-into-current; unsupported ownership/layout plans fail closed";

/// Which optional channels a parse asks for.
#[derive(Clone, Copy, Debug, PartialEq, Eq, Structural)]
pub struct ParseOptions {
    pub comments: bool,
    pub tokens: bool,
    pub diagnostics: bool,
    pub native_extensions: bool,
}

impl Default for ParseOptions {
    /// No optional channel.
    fn default() -> (o: ParseOptions)
        ensures
            !o.comments && !o.tokens && !o.diagnostics && !o.native_extensions,
    {
        ParseOptions { comments: false, tokens: false, diagnostics: false, native_extensions: false }
    }
}

/// The parse options a profile uses for an operation: JSON analysis keeps
/// comments, diagnostics and extensions; other JSON operations ask for
/// nothing optional; native owner profiles keep layout as bytes and need only
/// the extension channel.
pub open spec fn parse_options_for(id: Seq<char>, operation: OperationKind) -> ParseOptions {
    if id == JSON_NESTED@ || id == GIT_JSON@ {
        if operation == OperationKind::Analyze {
            ParseOptions { comments: true, tokens: false, diagnostics: true, native_extensions: true }
        } else {
            ParseOptions { comments: false, tokens: false, diagnostics: false, native_extensions: false }
        }
    } else {
        ParseOptions { comments: false, tokens: false, diagnostics: false, native_extensions: true }
    }
}

pub fn operation_parse_options(id: &str, operation: OperationKind) -> (o: ParseOptions)
    ensures
        o == parse_options_for(id@, operation),
{
    if str_eq(id, JSON_NESTED) || str_eq(id, GIT_JSON) {
        if operation == OperationKind::Analyze {
            ParseOptions { comments: true, tokens: false, diagnostics: true, native_extensions: true }
        } else {
            ParseOptions::default()
        }
    } else {
        ParseOptions { comments: false, tokens: false, diagnostics: false, native_extensions: true }
    }
}

pub open spec fn all_operations() -> Seq<OperationKind> {
    seq![OperationKind::Analyze, OperationKind::Diff2, OperationKind::Merge2, OperationKind::Merge3]
}

/// The operations a profile implements, in operation order; none for an
/// unknown profile.
pub open spec fn profile_ops(id: Seq<char>) -> Seq<OperationKind> {
    if id == YAML_MAPPING@ {
        seq![OperationKind::Analyze, OperationKind::Diff2, OperationKind::Merge3]
    } else if id == GIT_JSON@ {
        seq![OperationKind::Merge3]
    } else if id == JSON_NESTED@ || id == PYTHON_DECLARATIONS@ || id == BASH_OWNERS@ || id == GO_OWNERS@
        || id == RUST_OWNERS@ || id == TYPESCRIPT_OWNERS@ {
        all_operations()
    } else {
        seq![]
    }
}

pub fn profile_operations(id: &str) -> (r: Vec<OperationKind>)
    ensures
        r@ == profile_ops(id@),
{
    if str_eq(id, YAML_MAPPING) {
        vec![OperationKind::Analyze, OperationKind::Diff2, OperationKind::Merge3]
    } else if str_eq(id, GIT_JSON) {
        vec![OperationKind::Merge3]
    } else if str_eq(id, JSON_NESTED) || str_eq(id, PYTHON_DECLARATIONS) || str_eq(id, BASH_OWNERS)
        || str_eq(id, GO_OWNERS) || str_eq(id, RUST_OWNERS) || str_eq(id, TYPESCRIPT_OWNERS) {
        vec![OperationKind::Analyze, OperationKind::Diff2, OperationKind::Merge2, OperationKind::Merge3]
    } else {
        Vec::new()
    }
}

/// The parser language a native family and explicit dialect select: a
/// family's own name when no dialect or its own name is given, TSX for the
/// TypeScript `tsx` dialect, and nothing for any other dialect.
pub open spec fn native_language_spec(family: Seq<char>, dialect: Option<Seq<char>>) -> Option<Seq<char>> {
    if family == "typescript"@ && (dialect is None || dialect == Some("typescript"@)) {
        Some("typescript"@)
    } else if family == "typescript"@ && dialect == Some("tsx"@) {
        Some("tsx"@)
    } else if dialect is None {
        Some(family)
    } else if (family == "bash"@ || family == "go"@ || family == "rust"@) && dialect == Some(family) {
        Some(family)
    } else {
        None
    }
}

pub open spec fn opt_str_view(o: Option<&str>) -> Option<Seq<char>> {
    match o {
        Some(s) => Some(s@),
        None => None,
    }
}

pub fn native_language<'a>(family: &'a str, dialect: Option<&str>) -> (r: Option<&'a str>)
    ensures
        opt_str_view(r) == native_language_spec(family@, opt_str_view(dialect)),
{
    let ts = str_eq(family, "typescript");
    match dialect {
        None => {
            if ts {
                Some("typescript")
            } else {
                Some(family)
            }
        },
        Some(d) => {
            if ts && str_eq(d, "typescript") {
                Some("typescript")
            } else if ts && str_eq(d, "tsx") {
                Some("tsx")
            } else if (str_eq(family, "bash") || str_eq(family, "go") || str_eq(family, "rust")) && str_eq(
                d,
                family,
            ) {
                Some(family)
            } else {
                None
            }
        },
    }
}

/// The parser language of a profile: JSON and JSONC/JSON5 dialects for the
/// JSON family, the native language otherwise.
pub open spec fn profile_parser_language_spec(family: Seq<char>, dialect: Option<Seq<char>>) -> Option<
    Seq<char>,
> {
    if family == "json"@ {
        if dialect is None || dialect == Some("json"@) {
            Some("json"@)
        } else if dialect == Some("jsonc"@) || dialect == Some("json5"@) {
            Some("json5"@)
        } else {
            None
        }
    } else {
        native_language_spec(family, dialect)
    }
}

pub fn profile_parser_language<'a>(family: &'a str, dialect: Option<&str>) -> (r: Option<&'a str>)
    ensures
        opt_str_view(r) == profile_parser_language_spec(family@, opt_str_view(dialect)),
{
    if str_eq(family, "json") {
        match dialect {
            None => Some("json"),
            Some(d) => {
                if str_eq(d, "json") {
                    Some("json")
                } else if str_eq(d, "jsonc") || str_eq(d, "json5") {
                    Some("json5")
                } else {
                    None
                }
            },
        }
    } else {
        native_language(family, dialect)
    }
}

/// Static implemented profile scope, not a successful parser or merge
/// observation.
#[derive(Clone, Debug, PartialEq, Eq)]
pub struct OperationProfileDeclaration {
    pub id: String,
    pub provider_id: String,
    pub family: String,
    /// Explicit dialect selectors accepted in addition to an absent selector.
    pub explicit_dialects: Vec<String>,
    pub operations: Vec<OperationKind>,
    pub semantic_runtime: String,
    pub parser_contract: String,
    pub required_native_extension: Option<String>,
    /// `None` means not probed; listing a declaration never loads a parser.
    pub parser_available: Option<bool>,
    pub syntax_scope: Vec<String>,
    pub limitations: Vec<String>,
    pub experimental: bool,
    pub approved_as_default: bool,
}

#[derive(Clone, Debug, PartialEq, Eq)]
pub struct OperationProfileCatalog {
    pub schema: String,
    pub profiles: Vec<OperationProfileDeclaration>,
}

#[derive(Clone, Debug, PartialEq, Eq)]
pub struct NativeMergeProfile {
    pub id: String,
    pub family: String,
    pub operation: String,
    pub entry_point: String,
    pub analysis_crate: String,
    pub merge_crate: String,
    pub semantic_runtime: String,
    pub parse_contract: String,
    pub native_extension: String,
    pub syntax_scope: Vec<String>,
    pub limitations: Vec<String>,
    pub experimental: bool,
    pub approved_as_default: bool,
}

/// A native three-way entry point of the Rust runtime, experimental and not
/// approved as a default.
pub open spec fn native_profile_is(
    p: NativeMergeProfile,
    id: Seq<char>,
    family: Seq<char>,
    entry_point: Seq<char>,
    analysis_crate: Seq<char>,
    extension: Seq<char>,
    scope: Seq<Seq<char>>,
    limitations: Seq<Seq<char>>,
) -> bool {
    &&& p.id@ == id
    &&& p.family@ == family
    &&& p.operation@ == "merge3"@
    &&& p.entry_point@ == entry_point
    &&& p.analysis_crate@ == analysis_crate
    &&& p.merge_crate@ == "ast-merge"@
    &&& p.semantic_runtime@ == "rust"@
    &&& p.parse_contract@ == PARSE_RESULT_SCHEMA@
    &&& p.native_extension@ == extension
    &&& string_views(p.syntax_scope@) == scope
    &&& string_views(p.limitations@) == limitations
    &&& p.experimental
    &&& !p.approved_as_default
}

pub open spec fn python_scope() -> Seq<Seq<char>> {
    seq![PYTHON_SCOPE_ASSIGNMENTS@, PYTHON_SCOPE_OWNERS@]
}

pub open spec fn python_limitations() -> Seq<Seq<char>> {
    seq![PYTHON_LIMIT_SYNTAX@, PYTHON_LIMIT_SEMANTICS@, UNOWNED_LAYOUT_LIMIT@]
}

pub open spec fn yaml_scope() -> Seq<Seq<char>> {
    seq![YAML_SCOPE_MAPPING@, YAML_SCOPE_VALUES@]
}

pub open spec fn yaml_limitations() -> Seq<Seq<char>> {
    seq![YAML_LIMIT_SYNTAX@, YAML_LIMIT_NESTED@, UNOWNED_LAYOUT_LIMIT@]
}

pub open spec fn is_python_native(p: NativeMergeProfile) -> bool {
    native_profile_is(
        p,
        PYTHON_DECLARATIONS@,
        "python"@,
        "merge_python_declarations"@,
        "python-merge"@,
        PYTHON_EXTENSION@,
        python_scope(),
        python_limitations(),
    )
}

pub open spec fn is_yaml_native(p: NativeMergeProfile) -> bool {
    native_profile_is(
        p,
        YAML_MAPPING@,
        "yaml"@,
        "merge_yaml_mapping"@,
        "yaml-merge"@,
        YAML_EXTENSION@,
        yaml_scope(),
        yaml_limitations(),
    )
}

fn strings2(a: &str, b: &str) -> (v: Vec<String>)
    ensures
        string_views(v@) == seq![a@, b@],
{
    let v = vec![owned(a), owned(b)];
    assert(string_views(v@) =~= seq![a@, b@]);
    v
}

fn strings3(a: &str, b: &str, c: &str) -> (v: Vec<String>)
    ensures
        string_views(v@) == seq![a@, b@, c@],
{
    let v = vec![owned(a), owned(b), owned(c)];
    assert(string_views(v@) =~= seq![a@, b@, c@]);
    v
}

fn native_profile(
    id: &str,
    family: &str,
    entry_point: &str,
    analysis_crate: &str,
    extension: &str,
    syntax_scope: Vec<String>,
    limitations: Vec<String>,
) -> (p: NativeMergeProfile)
    ensures
        native_profile_is(
            p,
            id@,
            family@,
            entry_point@,
            analysis_crate@,
            extension@,
            string_views(syntax_scope@),
            string_views(limitations@),
        ),
{
    NativeMergeProfile {
        id: owned(id),
        family: owned(family),
        operation: owned("merge3"),
        entry_point: owned(entry_point),
        analysis_crate: owned(analysis_crate),
        merge_crate: owned("ast-merge"),
        semantic_runtime: owned("rust"),
        parse_contract: owned(PARSE_RESULT_SCHEMA),
        native_extension: owned(extension),
        syntax_scope,
        limitations,
        experimental: true,
        approved_as_default: false,
    }
}

/// The explicit native entry points. Listing them does not load or probe
/// parsers; a declared profile may be unavailable in a host until a
/// compatible parser is registered and negotiated.
pub fn native_merge_profiles() -> (r: Vec<NativeMergeProfile>)
    ensures
        r@.len() == 2,
        is_python_native(r@[0]),
        is_yaml_native(r@[1]),
{
    let python = native_profile(
        PYTHON_DECLARATIONS,
        "python",
        "merge_python_declarations",
        "python-merge",
        PYTHON_EXTENSION,
        strings2(PYTHON_SCOPE_ASSIGNMENTS, PYTHON_SCOPE_OWNERS),
        strings3(PYTHON_LIMIT_SYNTAX, PYTHON_LIMIT_SEMANTICS, UNOWNED_LAYOUT_LIMIT),
    );
    let yaml = native_profile(
        YAML_MAPPING,
        "yaml",
        "merge_yaml_mapping",
        "yaml-merge",
        YAML_EXTENSION,
        strings2(YAML_SCOPE_MAPPING, YAML_SCOPE_VALUES),
        strings3(YAML_LIMIT_SYNTAX, YAML_LIMIT_NESTED, UNOWNED_LAYOUT_LIMIT),
    );
    vec![python, yaml]
}

/// A declaration's limitations: its own, the line every declared operation
/// carries, and the merge2 line when the profile implements merge2.
pub open spec fn with_operation_limits(id: Seq<char>, own: Seq<Seq<char>>) -> Seq<Seq<char>> {
    let l = own.push(DECLARED_OPERATIONS_LIMIT@);
    if profile_ops(id).contains(OperationKind::Merge2) {
        l.push(MERGE2_LIMIT@)
    } else {
        l
    }
}

/// An experimental Rust-runtime declaration of the profile's operations,
/// not probed, not approved as a default.
pub open spec fn declaration_is(
    d: OperationProfileDeclaration,
    id: Seq<char>,
    provider: Seq<char>,
    family: Seq<char>,
    dialects: Seq<Seq<char>>,
    extension: Option<Seq<char>>,
    scope: Seq<Seq<char>>,
    own_limitations: Seq<Seq<char>>,
) -> bool {
    &&& d.id@ == id
    &&& d.provider_id@ == provider
    &&& d.family@ == family
    &&& string_views(d.explicit_dialects@) == dialects
    &&& d.operations@ == profile_ops(id)
    &&& d.semantic_runtime@ == "rust"@
    &&& d.parser_contract@ == PARSE_RESULT_SCHEMA@
    &&& opt_view(d.required_native_extension) == extension
    &&& d.parser_available is None
    &&& string_views(d.syntax_scope@) == scope
    &&& string_views(d.limitations@) == with_operation_limits(id, own_limitations)
    &&& d.experimental
    &&& !d.approved_as_default
}

/// The first native profile with identity `id`.
pub open spec fn native_for(natives: Seq<NativeMergeProfile>, id: Seq<char>) -> Option<NativeMergeProfile>
    decreases natives.len(),
{
    if natives.len() == 0 {
        None
    } else if natives[0].id@ == id {
        Some(natives[0])
    } else {
        native_for(natives.drop_first(), id)
    }
}

fn find_native<'a>(natives: &'a Vec<NativeMergeProfile>, id: &str) -> (r: Option<&'a NativeMergeProfile>)
    ensures
        match (r, native_for(natives@, id@)) {
            (Some(a), Some(b)) => *a == b,
            (None, None) => true,
            _ => false,
        },
{
    assert(natives@.skip(0) =~= natives@);
    let mut k: usize = 0;
    while k < natives.len()
        invariant
            k <= natives@.len(),
            native_for(natives@, id@) == native_for(natives@.skip(k as int), id@),
        decreases natives@.len() - k,
    {
        assert(natives@.skip(k as int).drop_first() =~= natives@.skip(k + 1));
        if str_eq(natives[k].id.as_str(), id) {
            return Some(&natives[k]);
        }
        k = k + 1;
    }
    None
}

fn has_operation(ops: &Vec<OperationKind>, op: OperationKind) -> (r: bool)
    ensures
        r == ops@.contains(op),
{
    let mut k: usize = 0;
    while k < ops.len()
        invariant
            k <= ops@.len(),
            forall|j: int| 0 <= j < k ==> ops@[j] != op,
        decreases ops@.len() - k,
    {
        if ops[k] == op {
            return true;
        }
        k = k + 1;
    }
    false
}

proof fn lemma_native_lookup(natives: Seq<NativeMergeProfile>, id: Seq<char>)
    requires
        natives.len() == 2,
        natives[0].id@ == PYTHON_DECLARATIONS@,
        natives[1].id@ == YAML_MAPPING@,
    ensures
        id == PYTHON_DECLARATIONS@ ==> native_for(natives, id) == Some(natives[0]),
        id != PYTHON_DECLARATIONS@ && id == YAML_MAPPING@ ==> native_for(natives, id) == Some(natives[1]),
        id != PYTHON_DECLARATIONS@ && id != YAML_MAPPING@ ==> native_for(natives, id) is None,
{
    assert(natives.drop_first()[0] == natives[1]);
    assert(natives.drop_first().drop_first() =~= Seq::<NativeMergeProfile>::empty());
    reveal_with_fuel(native_for, 3);
}

/// One declaration: the native profile with the same identity, if any,
/// supplies the extension, scope and limitations.
fn declare(
    id: &str,
    provider: &str,
    family: &str,
    dialects: Vec<String>,
    scope: &str,
    limits: &str,
    natives: &Vec<NativeMergeProfile>,
) -> (d: OperationProfileDeclaration)
    ensures
        match native_for(natives@, id@) {
            Some(n) => declaration_is(
                d,
                id@,
                provider@,
                family@,
                string_views(dialects@),
                Some(n.native_extension@),
                string_views(n.syntax_scope@),
                string_views(n.limitations@),
            ),
            None => declaration_is(
                d,
                id@,
                provider@,
                family@,
                string_views(dialects@),
                None,
                seq![scope@],
                seq![limits@],
            ),
        },
{
    let native = find_native(natives, id);
    let (extension, syntax_scope, mut limitations) = match native {
        Some(n) => (Some(n.native_extension.clone()), copy_strings(&n.syntax_scope), copy_strings(&n.limitations)),
        None => (None, vec![owned(scope)], vec![owned(limits)]),
    };
    proof {
        assert(string_views(syntax_scope@) =~= match native_for(natives@, id@) {
            Some(n) => string_views(n.syntax_scope@),
            None => seq![scope@],
        });
        assert(string_views(limitations@) =~= match native_for(natives@, id@) {
            Some(n) => string_views(n.limitations@),
            None => seq![limits@],
        });
    }
    let ghost own = string_views(limitations@);
    limitations.push(owned(DECLARED_OPERATIONS_LIMIT));
    let operations = profile_operations(id);
    if has_operation(&operations, OperationKind::Merge2) {
        limitations.push(owned(MERGE2_LIMIT));
    }
    assert(string_views(limitations@) =~= with_operation_limits(id@, own));
    OperationProfileDeclaration {
        id: owned(id),
        provider_id: owned(provider),
        family: owned(family),
        explicit_dialects: dialects,
        operations,
        semantic_runtime: owned("rust"),
        parser_contract: owned(PARSE_RESULT_SCHEMA),
        required_native_extension: extension,
        parser_available: None,
        syntax_scope,
        limitations,
        experimental: true,
        approved_as_default: false,
    }
}

fn strings1(a: &str) -> (v: Vec<String>)
    ensures
        string_views(v@) == seq![a@],
{
    let v = vec![owned(a)];
    assert(string_views(v@) =~= seq![a@]);
    v
}

fn no_strings() -> (v: Vec<String>)
    ensures
        string_views(v@) == Seq::<Seq<char>>::empty(),
{
    let v: Vec<String> = Vec::new();
    assert(string_views(v@) =~= Seq::<Seq<char>>::empty());
    v
}

/// The operation profile catalog: the declarations in identity order.
pub open spec fn is_operation_profile_catalog(c: OperationProfileCatalog) -> bool {
    &&& c.schema@ == CATALOG_SCHEMA@
    &&& c.profiles@.len() == 8
    &&& declaration_is(c.profiles@[0], BASH_OWNERS@, "kernel.bash"@, "bash"@, seq!["bash"@], None,
        seq![BASH_SCOPE@], seq![BASH_LIMITS@])
    &&& declaration_is(c.profiles@[1], GIT_JSON@, "kernel.git.json"@, "json"@, seq!["json"@, "jsonc"@, "json5"@],
        None, seq![GIT_SCOPE@], seq![GIT_LIMITS@])
    &&& declaration_is(c.profiles@[2], GO_OWNERS@, "kernel.go"@, "go"@, seq!["go"@], None, seq![GO_SCOPE@],
        seq![GO_LIMITS@])
    &&& declaration_is(c.profiles@[3], JSON_NESTED@, "kernel.json"@, "json"@, seq!["json"@, "jsonc"@, "json5"@],
        None, seq![JSON_SCOPE@], seq![JSON_LIMITS@])
    &&& declaration_is(c.profiles@[4], PYTHON_DECLARATIONS@, "kernel.python"@, "python"@, seq![],
        Some(PYTHON_EXTENSION@), python_scope(), python_limitations())
    &&& declaration_is(c.profiles@[5], RUST_OWNERS@, "kernel.rust"@, "rust"@, seq!["rust"@], None,
        seq![RUST_SCOPE@], seq![RUST_LIMITS@])
    &&& declaration_is(c.profiles@[6], TYPESCRIPT_OWNERS@, "kernel.typescript"@, "typescript"@,
        seq!["typescript"@, "tsx"@], None, seq![TYPESCRIPT_SCOPE@], seq![TYPESCRIPT_LIMITS@])
    &&& declaration_is(c.profiles@[7], YAML_MAPPING@, "kernel.yaml"@, "yaml"@, seq![], Some(YAML_EXTENSION@),
        yaml_scope(), yaml_limitations())
}

/// The declarations `execute_operation` serves, in identity order, distinct
/// from the two explicit native entry points. Every request still undergoes
/// its syntax, policy and parse checks.
pub fn operation_profile_catalog() -> (c: OperationProfileCatalog)
    ensures
        is_operation_profile_catalog(c),
{
    let natives = native_merge_profiles();
    proof {
        reveal_strlit("kernel.yaml.native_mapping.v1");
        reveal_strlit("kernel.python.native_declarations.v1");
        reveal_strlit("kernel.json.nested.v1");
        reveal_strlit("kernel.git.json.v1");
        reveal_strlit("kernel.bash.owners.v1");
        reveal_strlit("kernel.go.owners.v1");
        reveal_strlit("kernel.rust.owners.v1");
        reveal_strlit("kernel.typescript.owners.v1");
        assert(BASH_OWNERS@.len() == 21 && GIT_JSON@.len() == 18 && GO_OWNERS@.len() == 19);
        assert(JSON_NESTED@.len() == 21 && RUST_OWNERS@.len() == 21 && TYPESCRIPT_OWNERS@.len() == 27);
        assert(PYTHON_DECLARATIONS@.len() == 36 && YAML_MAPPING@.len() == 29);
        lemma_native_lookup(natives@, BASH_OWNERS@);
        lemma_native_lookup(natives@, GIT_JSON@);
        lemma_native_lookup(natives@, GO_OWNERS@);
        lemma_native_lookup(natives@, JSON_NESTED@);
        lemma_native_lookup(natives@, PYTHON_DECLARATIONS@);
        lemma_native_lookup(natives@, RUST_OWNERS@);
        lemma_native_lookup(natives@, TYPESCRIPT_OWNERS@);
        lemma_native_lookup(natives@, YAML_MAPPING@);
    }
    let mut profiles: Vec<OperationProfileDeclaration> = Vec::new();
    profiles.push(declare(BASH_OWNERS, "kernel.bash", "bash", strings1("bash"), BASH_SCOPE, BASH_LIMITS, &natives));
    profiles.push(declare(GIT_JSON, "kernel.git.json", "json", strings3("json", "jsonc", "json5"), GIT_SCOPE,
        GIT_LIMITS, &natives));
    profiles.push(declare(GO_OWNERS, "kernel.go", "go", strings1("go"), GO_SCOPE, GO_LIMITS, &natives));
    profiles.push(declare(JSON_NESTED, "kernel.json", "json", strings3("json", "jsonc", "json5"), JSON_SCOPE,
        JSON_LIMITS, &natives));
    profiles.push(declare(PYTHON_DECLARATIONS, "kernel.python", "python", no_strings(), "", "", &natives));
    profiles.push(declare(RUST_OWNERS, "kernel.rust", "rust", strings1("rust"), RUST_SCOPE, RUST_LIMITS,
        &natives));
    profiles.push(declare(TYPESCRIPT_OWNERS, "kernel.typescript", "typescript", strings2("typescript", "tsx"),
        TYPESCRIPT_SCOPE, TYPESCRIPT_LIMITS, &natives));
    profiles.push(declare(YAML_MAPPING, "kernel.yaml", "yaml", no_strings(), "", "", &natives));
    OperationProfileCatalog { schema: owned(CATALOG_SCHEMA), profiles }
}

} // verus!
