//! Source-free capability observations: for each query, whether its profile
//! declares the operation and dialect, and the parser selection request whose
//! report says whether a parser is eligible. An observation is never a
//! source-specific merge approval.
use crate::host::{CoreError, SelectionReport};
use crate::operation_result::{opt_view, string_views};
use crate::profiles::{
    is_operation_profile_catalog, operation_profile_catalog, parse_options_for, profile_parser_language,
    profile_parser_language_spec, OperationProfileCatalog, OperationProfileDeclaration, ParseOptions,
    operation_parse_options, native_language_spec, BASH_OWNERS, GIT_JSON, GO_OWNERS, JSON_NESTED,
    PYTHON_DECLARATIONS, RUST_OWNERS, TYPESCRIPT_OWNERS, YAML_MAPPING,
};
use crate::text::{copy_opt_string, copy_string, copy_strings, owned, str_eq};
use crate::{OperationKind, ParserSelection};
use vstd::prelude::*;

verus! {

pub const CAPABILITY_MANIFEST_SCHEMA: &'static str = "structuredmerge.typed-capability-manifest/v1";

/// A source-free parser selection request.
#[derive(Clone, Debug, PartialEq, Eq)]
pub struct ParserSelectionRequest {
    pub language: String,
    pub dialect: Option<String>,
    pub selection: ParserSelection,
    pub options: ParseOptions,
}

#[derive(Clone, Debug, PartialEq, Eq)]
pub struct CapabilityQuery {
    pub profile_id: String,
    pub operation: OperationKind,
    pub dialect: Option<String>,
    pub parser_selection: ParserSelection,
}

#[derive(Clone, Debug, PartialEq, Eq)]
pub struct CapabilityObservation {
    pub query: CapabilityQuery,
    pub operation_declared: bool,
    pub dialect_declared: bool,
    /// Absent when the profile does not declare this operation and dialect.
    pub parser_request: Option<ParserSelectionRequest>,
    pub parser_report: Option<SelectionReport>,
    /// Eligibility under the recorded parser requirements, not merge support.
    pub parser_eligible: Option<bool>,
    pub approved_as_default: bool,
}

/// The profile declarations, the parser inventory (as JSON text) and one
/// observation per query.
#[derive(Clone, Debug, PartialEq, Eq)]
pub struct CapabilityManifest {
    pub schema: String,
    pub kernel_version: String,
    pub profiles: OperationProfileCatalog,
    pub parsers: String,
    pub observations: Vec<CapabilityObservation>,
}

pub open spec fn selection_same(a: ParserSelection, b: ParserSelection) -> bool {
    &&& opt_view(a.backend_id) == opt_view(b.backend_id)
    &&& string_views(a.preference@) == string_views(b.preference@)
    &&& string_views(a.required_capabilities@) == string_views(b.required_capabilities@)
}

pub open spec fn query_same(a: CapabilityQuery, b: CapabilityQuery) -> bool {
    &&& a.profile_id@ == b.profile_id@
    &&& a.operation == b.operation
    &&& opt_view(a.dialect) == opt_view(b.dialect)
    &&& selection_same(a.parser_selection, b.parser_selection)
}

/// The first declaration with identity `id`.
pub open spec fn first_declaration(ps: Seq<OperationProfileDeclaration>, id: Seq<char>) -> Option<
    OperationProfileDeclaration,
>
    decreases ps.len(),
{
    if ps.len() == 0 {
        None
    } else if ps[0].id@ == id {
        Some(ps[0])
    } else {
        first_declaration(ps.drop_first(), id)
    }
}

/// Every declaration selects a parser language without a dialect and with
/// each dialect it declares.
pub open spec fn dialects_select_language(ps: Seq<OperationProfileDeclaration>) -> bool {
    forall|i: int| 0 <= i < ps.len() ==> declaration_selects_language(#[trigger] ps[i])
}

pub open spec fn dialect_declared_spec(q: CapabilityQuery, p: OperationProfileDeclaration) -> bool {
    match q.dialect {
        None => true,
        Some(d) => string_views(p.explicit_dialects@).contains(d@),
    }
}

/// The observation a query gets from its profile before any parser report:
/// the operation and dialect declarations, and, when both are declared, a
/// request for the profile's parser language with the query's parser
/// selection, no dialect selector and the profile's parse options.
pub open spec fn planned(o: CapabilityObservation, q: CapabilityQuery, p: OperationProfileDeclaration) -> bool {
    &&& query_same(o.query, q)
    &&& o.operation_declared == p.operations@.contains(q.operation)
    &&& o.dialect_declared == dialect_declared_spec(q, p)
    &&& match o.parser_request {
        Some(r) => {
            &&& o.operation_declared && o.dialect_declared
            &&& profile_parser_language_spec(p.family@, opt_view(q.dialect)) == Some(r.language@)
            &&& r.dialect is None
            &&& selection_same(r.selection, q.parser_selection)
            &&& r.options == parse_options_for(p.id@, q.operation)
        },
        None => !(o.operation_declared && o.dialect_declared),
    }
    &&& o.parser_report is None
    &&& o.parser_eligible is None
    &&& o.approved_as_default == p.approved_as_default
}

pub open spec fn all_known(qs: Seq<CapabilityQuery>, ps: Seq<OperationProfileDeclaration>) -> bool {
    forall|i: int| 0 <= i < qs.len() ==> first_declaration(ps, (#[trigger] qs[i]).profile_id@) is Some
}

pub open spec fn error_is(e: CoreError, code: Seq<char>, message: Seq<char>) -> bool {
    e.code@ == code && e.message@ == message
}

proof fn lemma_first_declaration(ps: Seq<OperationProfileDeclaration>, id: Seq<char>, k: int)
    requires
        0 <= k <= ps.len(),
        forall|j: int| 0 <= j < k ==> (#[trigger] ps[j]).id@ != id,
    ensures
        k < ps.len() && ps[k].id@ == id ==> first_declaration(ps, id) == Some(ps[k]),
        k == ps.len() ==> first_declaration(ps, id) is None,
    decreases k,
{
    if k > 0 {
        let rest = ps.drop_first();
        assert forall|j: int| 0 <= j < k - 1 implies (#[trigger] rest[j]).id@ != id by {
            assert(rest[j] == ps[j + 1]);
        }
        lemma_first_declaration(rest, id, k - 1);
        assert(ps[0].id@ != id);
        if k < ps.len() {
            assert(rest[k - 1] == ps[k]);
        }
    }
}

/// The index of the first declaration with identity `id`, if any.
fn find_declaration(ps: &Vec<OperationProfileDeclaration>, id: &String) -> (r: Option<usize>)
    ensures
        match r {
            Some(k) => k < ps@.len() && first_declaration(ps@, id@) == Some(ps@[k as int]),
            None => first_declaration(ps@, id@) is None,
        },
{
    let mut k: usize = 0;
    while k < ps.len()
        invariant
            k <= ps@.len(),
            forall|j: int| 0 <= j < k ==> (#[trigger] ps@[j]).id@ != id@,
        decreases ps@.len() - k,
    {
        if str_eq(ps[k].id.as_str(), id.as_str()) {
            proof {
                lemma_first_declaration(ps@, id@, k as int);
            }
            return Some(k);
        }
        k = k + 1;
    }
    proof {
        lemma_first_declaration(ps@, id@, k as int);
    }
    None
}

fn copy_selection(s: &ParserSelection) -> (r: ParserSelection)
    ensures
        selection_same(r, *s),
{
    let preference = copy_strings(&s.preference);
    let required_capabilities = copy_strings(&s.required_capabilities);
    assert(string_views(preference@) =~= string_views(s.preference@));
    assert(string_views(required_capabilities@) =~= string_views(s.required_capabilities@));
    ParserSelection { backend_id: copy_opt_string(&s.backend_id), preference, required_capabilities }
}

fn copy_query(q: &CapabilityQuery) -> (r: CapabilityQuery)
    ensures
        query_same(r, *q),
{
    CapabilityQuery {
        profile_id: copy_string(&q.profile_id),
        operation: q.operation,
        dialect: copy_opt_string(&q.dialect),
        parser_selection: copy_selection(&q.parser_selection),
    }
}

fn has_kind(ops: &Vec<OperationKind>, kind: OperationKind) -> (b: bool)
    ensures
        b == ops@.contains(kind),
{
    let mut i: usize = 0;
    while i < ops.len()
        invariant
            i <= ops@.len(),
            forall|j: int| 0 <= j < i ==> ops@[j] != kind,
        decreases ops@.len() - i,
    {
        if ops[i] == kind {
            return true;
        }
        i = i + 1;
    }
    false
}

fn has_string(v: &Vec<String>, s: &String) -> (b: bool)
    ensures
        b == string_views(v@).contains(s@),
{
    let mut i: usize = 0;
    while i < v.len()
        invariant
            i <= v@.len(),
            forall|j: int| 0 <= j < i ==> v@[j]@ != s@,
        decreases v@.len() - i,
    {
        if str_eq(v[i].as_str(), s.as_str()) {
            assert(string_views(v@)[i as int] == s@);
            return true;
        }
        i = i + 1;
    }
    proof {
        if string_views(v@).contains(s@) {
            let j = choose|j: int| 0 <= j < string_views(v@).len() && string_views(v@)[j] == s@;
            assert(v@[j]@ == s@);
        }
    }
    false
}

fn plan_one(q: &CapabilityQuery, p: &OperationProfileDeclaration) -> (o: CapabilityObservation)
    requires
        declaration_selects_language(*p),
    ensures
        planned(o, *q, *p),
{
    let operation_declared = has_kind(&p.operations, q.operation);
    let dialect_declared = match &q.dialect {
        None => true,
        Some(d) => has_string(&p.explicit_dialects, d),
    };
    let parser_request = if operation_declared && dialect_declared {
        let dialect: Option<&str> = match &q.dialect {
            Some(d) => Some(d.as_str()),
            None => None,
        };
        proof {
            if let Some(d) = &q.dialect {
                let k = choose|k: int|
                    0 <= k < string_views(p.explicit_dialects@).len() && string_views(p.explicit_dialects@)[k]
                        == d@;
                assert(p.explicit_dialects@[k]@ == d@);
            }
        }
        let language = match profile_parser_language(p.family.as_str(), dialect) {
            Some(l) => l,
            None => {
                proof {
                    assert(false);
                }
                ""
            },
        };
        Some(
            ParserSelectionRequest {
                language: owned(language),
                dialect: None,
                selection: copy_selection(&q.parser_selection),
                options: operation_parse_options(p.id.as_str(), q.operation),
            },
        )
    } else {
        None
    };
    CapabilityObservation {
        query: copy_query(q),
        operation_declared,
        dialect_declared,
        parser_request,
        parser_report: None,
        parser_eligible: None,
        approved_as_default: p.approved_as_default,
    }
}

/// Plan one observation per query against `catalog`, or refuse the whole
/// batch: a batch larger than `max_batch_items` first, then a batch naming a
/// profile the catalog does not declare. Each query is observed against the
/// first declaration with its profile identity.
pub fn plan_capability_observations(
    queries: &Vec<CapabilityQuery>,
    catalog: &OperationProfileCatalog,
    max_batch_items: usize,
) -> (r: Result<Vec<CapabilityObservation>, CoreError>)
    requires
        dialects_select_language(catalog.profiles@),
    ensures
        queries@.len() > max_batch_items ==> (r matches Err(e) && error_is(
            e,
            "resource.limit"@,
            "capability queries exceed max_batch_items"@,
        )),
        queries@.len() <= max_batch_items && !all_known(queries@, catalog.profiles@) ==> (r matches Err(e)
            && error_is(e, "capability.unknown_profile"@, "capability query names an unknown operation profile"@)),
        queries@.len() <= max_batch_items && all_known(queries@, catalog.profiles@) ==> (r matches Ok(obs) && {
            &&& obs@.len() == queries@.len()
            &&& forall|i: int|
                0 <= i < queries@.len() ==> planned(
                    #[trigger] obs@[i],
                    queries@[i],
                    first_declaration(catalog.profiles@, queries@[i].profile_id@)->0,
                )
        }),
{
    if queries.len() > max_batch_items {
        return Err(
            CoreError {
                code: owned("resource.limit"),
                message: owned("capability queries exceed max_batch_items"),
            },
        );
    }
    let ps = &catalog.profiles;
    let mut i: usize = 0;
    while i < queries.len()
        invariant
            i <= queries@.len(),
            queries@.len() <= max_batch_items,
            ps == &catalog.profiles,
            forall|k: int| 0 <= k < i ==> first_declaration(ps@, (#[trigger] queries@[k]).profile_id@) is Some,
        decreases queries@.len() - i,
    {
        if find_declaration(ps, &queries[i].profile_id).is_none() {
            proof {
                assert(first_declaration(ps@, queries@[i as int].profile_id@) is None);
            }
            return Err(
                CoreError {
                    code: owned("capability.unknown_profile"),
                    message: owned("capability query names an unknown operation profile"),
                },
            );
        }
        i = i + 1;
    }
    let mut obs: Vec<CapabilityObservation> = Vec::new();
    let mut i: usize = 0;
    while i < queries.len()
        invariant
            i <= queries@.len(),
            obs@.len() == i,
            all_known(queries@, ps@),
            queries@.len() <= max_batch_items,
            dialects_select_language(ps@),
            ps == &catalog.profiles,
            forall|k: int|
                0 <= k < i ==> planned(
                    #[trigger] obs@[k],
                    queries@[k],
                    first_declaration(ps@, queries@[k].profile_id@)->0,
                ),
        decreases queries@.len() - i,
    {
        let k = match find_declaration(ps, &queries[i].profile_id) {
            Some(k) => k,
            None => {
                proof {
                    assert(first_declaration(ps@, queries@[i as int].profile_id@) is Some);
                }
                return Err(
                    CoreError {
                        code: owned("capability.unknown_profile"),
                        message: owned("capability query names an unknown operation profile"),
                    },
                );
            },
        };
        let p = &ps[k];
        proof {
            assert(ps@[k as int] == *p);
        }
        let o = plan_one(&queries[i], p);
        obs.push(o);
        i = i + 1;
    }
    Ok(obs)
}

/// Every profile the catalog declares selects a parser language, both with no
/// dialect and with each dialect it declares; a declared query therefore
/// always has a parser request.
pub proof fn law_declared_dialects_select_a_parser_language(c: OperationProfileCatalog)
    requires
        is_operation_profile_catalog(c),
    ensures
        dialects_select_language(c.profiles@),
{
    reveal_strlit("json");
    reveal_strlit("jsonc");
    reveal_strlit("json5");
    reveal_strlit("bash");
    reveal_strlit("go");
    reveal_strlit("rust");
    reveal_strlit("python");
    reveal_strlit("yaml");
    reveal_strlit("typescript");
    reveal_strlit("tsx");
    let ps = c.profiles@;
    lemma_declaration_languages(ps[0], seq!["bash"@]);
    lemma_declaration_languages(ps[1], seq!["json"@, "jsonc"@, "json5"@]);
    lemma_declaration_languages(ps[2], seq!["go"@]);
    lemma_declaration_languages(ps[3], seq!["json"@, "jsonc"@, "json5"@]);
    lemma_declaration_languages(ps[4], seq![]);
    lemma_declaration_languages(ps[5], seq!["rust"@]);
    let ts: Seq<Seq<char>> = seq!["typescript"@, "tsx"@];
    assert(ps[6].family@ == "typescript"@);
    assert forall|k: int| 0 <= k < ts.len() implies profile_parser_language_spec(
        ps[6].family@,
        Some(#[trigger] ts[k]),
    ) is Some by {
        reveal_strlit("typescript");
        reveal_strlit("tsx");
        reveal_strlit("json");
        assert(ps[6].family@ == "typescript"@);
        assert("typescript"@.len() == 10 && "json"@.len() == 4);
        assert("typescript"@ != "json"@);
        if k == 0 {
            assert(ts[k] == "typescript"@);
            assert(native_language_spec("typescript"@, Some("typescript"@)) == Some("typescript"@));
            assert(profile_parser_language_spec("typescript"@, Some("typescript"@)) == Some("typescript"@));
        } else {
            assert(ts[k] == "tsx"@);
            assert(native_language_spec("typescript"@, Some("tsx"@)) == Some("tsx"@));
            assert(profile_parser_language_spec("typescript"@, Some("tsx"@)) == Some("tsx"@));
        }
    }
    lemma_declaration_languages(ps[6], ts);
    lemma_declaration_languages(ps[7], seq![]);
    assert forall|i: int| 0 <= i < ps.len() implies declaration_selects_language(#[trigger] ps[i]) by {
        assert(i == 0 || i == 1 || i == 2 || i == 3 || i == 4 || i == 5 || i == 6 || i == 7);
    }
}

/// A declaration selects a parser language with no dialect and with each
/// dialect it declares.
pub open spec fn declaration_selects_language(d: OperationProfileDeclaration) -> bool {
    &&& profile_parser_language_spec(d.family@, None) is Some
    &&& forall|j: int|
        0 <= j < d.explicit_dialects@.len() ==> profile_parser_language_spec(
            d.family@,
            Some(#[trigger] d.explicit_dialects@[j]@),
        ) is Some
}

proof fn lemma_declaration_languages(d: OperationProfileDeclaration, dialects: Seq<Seq<char>>)
    requires
        string_views(d.explicit_dialects@) == dialects,
        profile_parser_language_spec(d.family@, None) is Some,
        forall|k: int| 0 <= k < dialects.len() ==> profile_parser_language_spec(d.family@, Some(#[trigger] dialects[k])) is Some,
    ensures
        declaration_selects_language(d),
{
    assert forall|j: int| 0 <= j < d.explicit_dialects@.len() implies profile_parser_language_spec(
        d.family@,
        Some(#[trigger] d.explicit_dialects@[j]@),
    ) is Some by {
        assert(string_views(d.explicit_dialects@).len() == d.explicit_dialects@.len());
        assert(dialects[j] == d.explicit_dialects@[j]@);
    }
}

/// The profile identities the operation profile catalog declares, in
/// catalog order.
pub open spec fn catalog_profile_ids() -> Seq<Seq<char>> {
    seq![
        BASH_OWNERS@,
        GIT_JSON@,
        GO_OWNERS@,
        JSON_NESTED@,
        PYTHON_DECLARATIONS@,
        RUST_OWNERS@,
        TYPESCRIPT_OWNERS@,
        YAML_MAPPING@,
    ]
}

/// Every query names a profile the operation profile catalog declares.
pub open spec fn queries_in_catalog(qs: Seq<CapabilityQuery>) -> bool {
    forall|i: int| 0 <= i < qs.len() ==> catalog_profile_ids().contains(#[trigger] qs[i].profile_id@)
}

proof fn lemma_first_declaration_found(ps: Seq<OperationProfileDeclaration>, id: Seq<char>)
    ensures
        first_declaration(ps, id) is Some <==> exists|k: int| 0 <= k < ps.len() && (#[trigger] ps[k]).id@ == id,
    decreases ps.len(),
{
    if ps.len() > 0 {
        lemma_first_declaration_found(ps.drop_first(), id);
        if exists|k: int| 0 <= k < ps.len() && (#[trigger] ps[k]).id@ == id {
            let k = choose|k: int| 0 <= k < ps.len() && (#[trigger] ps[k]).id@ == id;
            if k > 0 {
                assert(ps.drop_first()[k - 1] == ps[k]);
            }
        }
        if exists|k: int| 0 <= k < ps.drop_first().len() && (#[trigger] ps.drop_first()[k]).id@ == id {
            let k = choose|k: int| 0 <= k < ps.drop_first().len() && (#[trigger] ps.drop_first()[k]).id@ == id;
            assert(ps[k + 1] == ps.drop_first()[k]);
        }
    }
}

/// Against the operation profile catalog, a query's profile is declared
/// exactly when its identity is one of the catalog's.
proof fn lemma_catalog_declares(c: OperationProfileCatalog, qs: Seq<CapabilityQuery>)
    requires
        is_operation_profile_catalog(c),
    ensures
        all_known(qs, c.profiles@) <==> queries_in_catalog(qs),
{
    let ps = c.profiles@;
    let ids = catalog_profile_ids();
    assert forall|k: int| 0 <= k < 8 implies (#[trigger] ps[k]).id@ == ids[k] by {
        assert(k == 0 || k == 1 || k == 2 || k == 3 || k == 4 || k == 5 || k == 6 || k == 7);
    }
    assert forall|id: Seq<char>| first_declaration(ps, id) is Some <==> #[trigger] ids.contains(id) by {
        lemma_first_declaration_found(ps, id);
        if ids.contains(id) {
            let k = choose|k: int| 0 <= k < ids.len() && ids[k] == id;
            assert(ps[k].id@ == id);
        }
        if exists|k: int| 0 <= k < ps.len() && (#[trigger] ps[k]).id@ == id {
            let k = choose|k: int| 0 <= k < ps.len() && (#[trigger] ps[k]).id@ == id;
            assert(ids[k] == id);
        }
    }
    if all_known(qs, ps) {
        assert forall|i: int| 0 <= i < qs.len() implies ids.contains(#[trigger] qs[i].profile_id@) by {
            assert(first_declaration(ps, qs[i].profile_id@) is Some);
        }
    }
    if queries_in_catalog(qs) {
        assert forall|i: int| 0 <= i < qs.len() implies first_declaration(ps, (#[trigger] qs[i]).profile_id@) is Some by {
            assert(ids.contains(qs[i].profile_id@));
        }
    }
}

/// Plan the observations of `queries` against the operation profile
/// catalog, which the result carries for the manifest. A batch within
/// `max_batch_items` is planned exactly when every query names a profile
/// the catalog declares; an empty batch yields the whole catalog and no
/// observation.
pub fn capability_plan(queries: &Vec<CapabilityQuery>, max_batch_items: usize) -> (r: Result<
    (OperationProfileCatalog, Vec<CapabilityObservation>),
    CoreError,
>)
    ensures
        queries@.len() > max_batch_items ==> (r matches Err(e) && error_is(
            e,
            "resource.limit"@,
            "capability queries exceed max_batch_items"@,
        )),
        queries@.len() <= max_batch_items ==> (r is Ok <==> queries_in_catalog(queries@)),
        match r {
            Ok((c, obs)) => {
                &&& is_operation_profile_catalog(c)
                &&& all_known(queries@, c.profiles@)
                &&& obs@.len() == queries@.len()
                &&& forall|i: int|
                    0 <= i < queries@.len() ==> planned(
                        #[trigger] obs@[i],
                        queries@[i],
                        first_declaration(c.profiles@, queries@[i].profile_id@)->0,
                    )
            },
            Err(e) => queries@.len() > max_batch_items || error_is(
                e,
                "capability.unknown_profile"@,
                "capability query names an unknown operation profile"@,
            ),
        },
{
    let catalog = operation_profile_catalog();
    proof {
        law_declared_dialects_select_a_parser_language(catalog);
        lemma_catalog_declares(catalog, queries@);
    }
    match plan_capability_observations(queries, &catalog, max_batch_items) {
        Ok(obs) => Ok((catalog, obs)),
        Err(e) => Err(e),
    }
}

impl CapabilityObservation {
    /// Record the parser service's report on this observation's request:
    /// the parser is eligible exactly when the report selected a backend.
    pub fn with_parser_report(self, report: SelectionReport) -> (o: CapabilityObservation)
        requires
            self.parser_request is Some,
        ensures
            o.query == self.query,
            o.operation_declared == self.operation_declared,
            o.dialect_declared == self.dialect_declared,
            o.parser_request == self.parser_request,
            o.parser_report == Some(report),
            o.parser_eligible == Some(report.selected_backend is Some),
            o.approved_as_default == self.approved_as_default,
    {
        let eligible = report.selected_backend.is_some();
        CapabilityObservation { parser_report: Some(report), parser_eligible: Some(eligible), ..self }
    }
}

/// The manifest of declarations, parser inventory and observations.
pub fn capability_manifest_of(
    kernel_version: String,
    profiles: OperationProfileCatalog,
    parsers: String,
    observations: Vec<CapabilityObservation>,
) -> (m: CapabilityManifest)
    ensures
        m.schema@ == CAPABILITY_MANIFEST_SCHEMA@,
        m.kernel_version == kernel_version,
        m.profiles == profiles,
        m.parsers == parsers,
        m.observations == observations,
{
    CapabilityManifest { schema: owned(CAPABILITY_MANIFEST_SCHEMA), kernel_version, profiles, parsers, observations }
}

} // verus!
