//! The top-level pass over a parsed document: normalizes every named
//! schema into a [`Scheme`], turns every path item into a [`Route`] with
//! its endpoints, and builds the route trie.
//!
//! Failures at the top level (a document without a schema section) abort
//! the run; failures inside one endpoint (an unsupported parameter
//! reference, a body without content) are recovered locally and degrade
//! that endpoint, so the run still produces output for everything else.

use vstd::prelude::*;

use crate::normalize::{normalize_schema_or_ref, normalize_sor_spec};
use crate::routes::{paths_of, trie_spec, RouteTrieBuilder};
use crate::schema::{BodyOrRef, Document, Operation, ParamLocation, ParamOrRef, PathItem};
use crate::types::{
    clone_opt_string, frag_view, iast_nullable, iast_view, opt_str_view, Endpoint, IastV,
    IntermediateFormat, Method, Param, Route, Scheme, IAST,
};

verus! {

/// A top-level failure.
#[derive(Debug, PartialEq, Eq)]
pub enum Error {
    /// The document has no schema section: there is nothing to generate.
    NoComponents,
    /// A schema, request or response could not be handled in a
    /// structurally fatal way.
    ParseError(String),
}

// ===========================================================================
// Parameters
// ===========================================================================

/// Whether a parameter list holds a `$ref` entry (not supported there).
pub open spec fn has_param_ref(ps: Seq<ParamOrRef>) -> bool {
    exists|k: int| 0 <= k < ps.len() && ps[k] is Ref
}

/// The kept parameters: path parameters are filtered out, the rest keep
/// name, description and required mark.
pub open spec fn params_match(input: Seq<ParamOrRef>, out: Seq<Param>) -> bool
    decreases input,
{
    if input.len() == 0 {
        out.len() == 0
    } else {
        match input.last() {
            ParamOrRef::Param { name, location, description, required } => {
                if location is Path {
                    params_match(input.drop_last(), out)
                } else {
                    &&& out.len() > 0
                    &&& out.last().name@ == name@
                    &&& opt_str_view(out.last().description) == opt_str_view(description)
                    &&& out.last().required == required
                    &&& params_match(input.drop_last(), out.drop_last())
                }
            },
            ParamOrRef::Ref(_) => false,
        }
    }
}

/// Keeps the query/header parameters of an operation; a parameter given by
/// reference is a structural failure whose message names the first such
/// reference path.
pub fn parse_params(params: &Vec<ParamOrRef>) -> (r: Result<Vec<Param>, Error>)
    ensures
        match r {
            Result::Ok(out) => !has_param_ref(params@) && params_match(params@, out@),
            Result::Err(e) => {
                &&& has_param_ref(params@)
                &&& exists|k: int|
                    {
                        &&& 0 <= k < params@.len()
                        &&& #[trigger] params@[k] is Ref
                        &&& (forall|t: int| 0 <= t < k ==> !(#[trigger] params@[t] is Ref))
                        &&& e matches Error::ParseError(m) && m@ == msg_param_ref(
                            params@[k]->Ref_0@,
                        )
                    }
            },
        },
{
    let mut out: Vec<Param> = Vec::new();
    let mut i: usize = 0;
    proof {
        assert(params_match(params@.subrange(0, 0), out@));
    }
    while i < params.len()
        invariant
            i <= params@.len(),
            params_match(params@.subrange(0, i as int), out@),
            forall|t: int| 0 <= t < i ==> !(#[trigger] params@[t] is Ref),
        decreases params@.len() - i,
    {
        let ghost before = out@;
        match &params[i] {
            ParamOrRef::Param { name, location, description, required } => {
                if *location != ParamLocation::Path {
                    out.push(
                        Param {
                            name: name.clone(),
                            description: clone_opt_string(description),
                            required: *required,
                        },
                    );
                    proof {
                        assert(out@.drop_last() =~= before);
                    }
                }
            },
            ParamOrRef::Ref(p) => {
                let mut msg = String::from_str("Reference to ");
                msg.append(p.as_str());
                msg.append(" not supported in params");
                proof {
                    assert(msg@ == msg_param_ref(params@[i as int]->Ref_0@));
                    assert(params@[i as int] is Ref);
                }
                return Result::Err(Error::ParseError(msg));
            },
        }
        i = i + 1;
        proof {
            assert(params@.subrange(0, i as int).drop_last() =~= params@.subrange(0, i - 1));
            assert(params@.subrange(0, i as int).last() == params@[i - 1]);
            assert(params_match(params@.subrange(0, i as int), out@));
        }
    }
    proof {
        assert(params@.subrange(0, params@.len() as int) =~= params@);
        assert(!has_param_ref(params@)) by {
            if has_param_ref(params@) {
                let k = choose|k: int| 0 <= k < params@.len() && params@[k] is Ref;
                assert(!(params@[k] is Ref));
            }
        }
    }
    Result::Ok(out)
}

/// The message attached to an unsupported parameter reference.
pub open spec fn msg_param_ref(path: Seq<char>) -> Seq<char> {
    "Reference to "@ + path + " not supported in params"@
}

// ===========================================================================
// Request and response bodies
// ===========================================================================

/// What a request position normalizes to, if anything: a referenced body
/// becomes a `Reference` node, an inline body contributes the schema of
/// its first content entry; a missing body, a body without content entries
/// or a content entry without a schema is a structural failure.
pub open spec fn request_spec(request: Option<BodyOrRef>) -> Option<IastV> {
    match request {
        Option::None => Option::None,
        Option::Some(BodyOrRef::Ref(p)) => Option::Some(
            IastV::Reference { path: p@, optional: false, nullable: false },
        ),
        Option::Some(BodyOrRef::Body { content_schemas }) => {
            if content_schemas@.len() == 0 {
                Option::None
            } else {
                match content_schemas@[0] {
                    Option::Some(sor) => Option::Some(normalize_sor_spec(sor, false)),
                    Option::None => Option::None,
                }
            }
        },
    }
}

/// Normalizes a request body position.
pub fn parse_request(request: Option<&BodyOrRef>) -> (r: Result<IAST, Error>)
    ensures
        match r {
            Result::Ok(node) => {
                &&& request_spec(match request {
                    Option::Some(b) => Option::Some(*b),
                    Option::None => Option::None,
                }) == Option::Some(iast_view(node))
            },
            Result::Err(e) => {
                &&& request_spec(match request {
                    Option::Some(b) => Option::Some(*b),
                    Option::None => Option::None,
                }) is None
                &&& e matches Error::ParseError(m) && m@ == "No request body"@
            },
        },
{
    match request {
        Option::Some(BodyOrRef::Ref(p)) => Result::Ok(
            IAST::Reference(
                crate::types::AnnotatedReference {
                    path: p.clone(),
                    optional: false,
                    nullable: false,
                },
            ),
        ),
        Option::Some(BodyOrRef::Body { content_schemas }) => {
            if content_schemas.len() == 0 {
                Result::Err(Error::ParseError(String::from_str("No request body")))
            } else {
                match &content_schemas[0] {
                    Option::Some(sor) => Result::Ok(normalize_schema_or_ref(sor, false)),
                    Option::None => Result::Err(
                        Error::ParseError(String::from_str("No request body")),
                    ),
                }
            }
        },
        Option::None => Result::Err(Error::ParseError(String::from_str("No request body"))),
    }
}

/// Whether some response entry is a body without content entries.
pub open spec fn has_empty_response(input: Seq<(String, BodyOrRef)>) -> bool {
    exists|k: int|
        0 <= k < input.len() && match #[trigger] input[k].1 {
            BodyOrRef::Body { content_schemas } => content_schemas@.len() == 0,
            BodyOrRef::Ref(_) => false,
        }
}

/// The normalized response map: each referenced response becomes a
/// `Reference` node, each inline response with a schema in its first
/// content entry is normalized, and one whose first content entry has no
/// schema is skipped.
pub open spec fn responses_match(input: Seq<(String, BodyOrRef)>, out: Seq<(String, IAST)>) -> bool
    decreases input,
{
    if input.len() == 0 {
        out.len() == 0
    } else {
        match input.last().1 {
            BodyOrRef::Ref(p) => {
                &&& out.len() > 0
                &&& out.last().0@ == input.last().0@
                &&& iast_view(out.last().1) == (IastV::Reference {
                    path: p@,
                    optional: false,
                    nullable: false,
                })
                &&& responses_match(input.drop_last(), out.drop_last())
            },
            BodyOrRef::Body { content_schemas } => {
                if content_schemas@.len() == 0 {
                    false
                } else {
                    match content_schemas@[0] {
                        Option::Some(sor) => {
                            &&& out.len() > 0
                            &&& out.last().0@ == input.last().0@
                            &&& iast_view(out.last().1) == normalize_sor_spec(sor, false)
                            &&& responses_match(input.drop_last(), out.drop_last())
                        },
                        Option::None => responses_match(input.drop_last(), out),
                    }
                }
            },
        }
    }
}

/// Normalizes the per-status-code response map of an operation; a response
/// body without content entries is a structural failure.
pub fn parse_responses(responses: &Vec<(String, BodyOrRef)>) -> (r: Result<
    Vec<(String, IAST)>,
    Error,
>)
    ensures
        match r {
            Result::Ok(out) => !has_empty_response(responses@) && responses_match(
                responses@,
                out@,
            ),
            Result::Err(e) => has_empty_response(responses@) && (e matches Error::ParseError(m)
                && m@ == "No response body"@),
        },
{
    let mut out: Vec<(String, IAST)> = Vec::new();
    let mut i: usize = 0;
    proof {
        assert(responses_match(responses@.subrange(0, 0), out@));
    }
    while i < responses.len()
        invariant
            i <= responses@.len(),
            responses_match(responses@.subrange(0, i as int), out@),
            forall|t: int|
                0 <= t < i ==> match #[trigger] responses@[t].1 {
                    BodyOrRef::Body { content_schemas } => content_schemas@.len() > 0,
                    BodyOrRef::Ref(_) => true,
                },
        decreases responses@.len() - i,
    {
        let ghost before = out@;
        match &responses[i].1 {
            BodyOrRef::Ref(p) => {
                let code = responses[i].0.clone();
                out.push(
                    (
                        code,
                        IAST::Reference(
                            crate::types::AnnotatedReference {
                                path: p.clone(),
                                optional: false,
                                nullable: false,
                            },
                        ),
                    ),
                );
                proof {
                    assert(out@.drop_last() =~= before);
                }
            },
            BodyOrRef::Body { content_schemas } => {
                if content_schemas.len() == 0 {
                    proof {
                        assert(has_empty_response(responses@)) by {
                            assert(match responses@[i as int].1 {
                                BodyOrRef::Body { content_schemas } => content_schemas@.len()
                                    == 0,
                                BodyOrRef::Ref(_) => false,
                            });
                        }
                    }
                    return Result::Err(Error::ParseError(String::from_str("No response body")));
                }
                match &content_schemas[0] {
                    Option::Some(sor) => {
                        let code = responses[i].0.clone();
                        let node = normalize_schema_or_ref(sor, false);
                        out.push((code, node));
                        proof {
                            assert(out@.drop_last() =~= before);
                        }
                    },
                    Option::None => {},
                }
            },
        }
        i = i + 1;
        proof {
            assert(responses@.subrange(0, i as int).drop_last() =~= responses@.subrange(
                0,
                i - 1,
            ));
            assert(responses@.subrange(0, i as int).last() == responses@[i - 1]);
            assert(responses_match(responses@.subrange(0, i as int), out@));
        }
    }
    proof {
        assert(responses@.subrange(0, responses@.len() as int) =~= responses@);
        assert(!has_empty_response(responses@)) by {
            if has_empty_response(responses@) {
                let k = choose|k: int|
                    0 <= k < responses@.len() && match #[trigger] responses@[k].1 {
                        BodyOrRef::Body { content_schemas } => content_schemas@.len() == 0,
                        BodyOrRef::Ref(_) => false,
                    };
            }
        }
    }
    Result::Ok(out)
}

// ===========================================================================
// Endpoints, routes and the whole pass
// ===========================================================================

/// How one built endpoint relates to the operation it came from: endpoint
/// failures are recovered by degrading the failed piece (parameters to an
/// empty list, the request to nothing, responses to an empty map).
pub open spec fn endpoint_matches(m: Method, op: Operation, e: Endpoint) -> bool {
    &&& e.method == m
    &&& opt_str_view(e.description) == opt_str_view(op.description)
    &&& opt_str_view(e.summary) == opt_str_view(op.summary)
    &&& if has_param_ref(op.parameters@) {
        e.params@.len() == 0
    } else {
        params_match(op.parameters@, e.params@)
    }
    &&& match request_spec(op.request_body) {
        Option::Some(v) => e.request is Some && iast_view(e.request.unwrap()) == v,
        Option::None => e.request is None,
    }
    &&& if has_empty_response(op.responses@) {
        e.responses@.len() == 0
    } else {
        responses_match(op.responses@, e.responses@)
    }
}

/// The per-method operation slots of a path item, in the order the
/// endpoints are collected.
pub open spec fn method_slots(item: PathItem) -> Seq<(Method, Option<Operation>)> {
    seq![
        (Method::Get, item.get),
        (Method::Post, item.post),
        (Method::Put, item.put),
        (Method::Delete, item.delete),
        (Method::Patch, item.patch),
        (Method::Options, item.options),
        (Method::Head, item.head),
        (Method::Trace, item.trace),
    ]
}

/// The endpoint list collected from the given slots: one endpoint per
/// declared operation, in slot order.
pub open spec fn endpoints_match(slots: Seq<(Method, Option<Operation>)>, eps: Seq<Endpoint>) -> bool
    decreases slots,
{
    if slots.len() == 0 {
        eps.len() == 0
    } else {
        match slots.last().1 {
            Option::None => endpoints_match(slots.drop_last(), eps),
            Option::Some(op) => {
                &&& eps.len() > 0
                &&& endpoint_matches(slots.last().0, op, eps.last())
                &&& endpoints_match(slots.drop_last(), eps.drop_last())
            },
        }
    }
}

/// Builds one endpoint from an operation and appends it.
fn push_endpoint(eps: &mut Vec<Endpoint>, m: Method, op: &Operation)
    ensures
        final(eps)@.len() == old(eps)@.len() + 1,
        final(eps)@.drop_last() == old(eps)@,
        endpoint_matches(m, *op, final(eps)@.last()),
{
    let params = match parse_params(&op.parameters) {
        Result::Ok(ps) => ps,
        Result::Err(_) => Vec::new(),
    };
    let request = match parse_request(op.request_body.as_ref()) {
        Result::Ok(node) => Option::Some(node),
        Result::Err(_) => Option::None,
    };
    let responses = match parse_responses(&op.responses) {
        Result::Ok(rs) => rs,
        Result::Err(_) => Vec::new(),
    };
    let e = Endpoint {
        method: m,
        description: clone_opt_string(&op.description),
        summary: clone_opt_string(&op.summary),
        params,
        request,
        responses,
    };
    eps.push(e);
    proof {
        assert(final(eps)@.drop_last() =~= old(eps)@);
    }
}

/// Collects the endpoints of a path item, one per declared operation, in
/// method order.
fn build_endpoints(item: &PathItem) -> (r: Vec<Endpoint>)
    ensures
        endpoints_match(method_slots(*item), r@),
{
    let ghost slots = method_slots(*item);
    let mut eps: Vec<Endpoint> = Vec::new();
    proof {
        assert(endpoints_match(slots.subrange(0, 0), eps@));
    }
    if let Option::Some(op) = &item.get {
        push_endpoint(&mut eps, Method::Get, op);
    }
    proof {
        assert(slots.subrange(0, 1).drop_last() =~= slots.subrange(0, 0));
        assert(slots.subrange(0, 1).last() == (Method::Get, item.get));
        assert(endpoints_match(slots.subrange(0, 1), eps@));
    }
    if let Option::Some(op) = &item.post {
        push_endpoint(&mut eps, Method::Post, op);
    }
    proof {
        assert(slots.subrange(0, 2).drop_last() =~= slots.subrange(0, 1));
        assert(slots.subrange(0, 2).last() == (Method::Post, item.post));
        assert(endpoints_match(slots.subrange(0, 2), eps@));
    }
    if let Option::Some(op) = &item.put {
        push_endpoint(&mut eps, Method::Put, op);
    }
    proof {
        assert(slots.subrange(0, 3).drop_last() =~= slots.subrange(0, 2));
        assert(slots.subrange(0, 3).last() == (Method::Put, item.put));
        assert(endpoints_match(slots.subrange(0, 3), eps@));
    }
    if let Option::Some(op) = &item.delete {
        push_endpoint(&mut eps, Method::Delete, op);
    }
    proof {
        assert(slots.subrange(0, 4).drop_last() =~= slots.subrange(0, 3));
        assert(slots.subrange(0, 4).last() == (Method::Delete, item.delete));
        assert(endpoints_match(slots.subrange(0, 4), eps@));
    }
    if let Option::Some(op) = &item.patch {
        push_endpoint(&mut eps, Method::Patch, op);
    }
    proof {
        assert(slots.subrange(0, 5).drop_last() =~= slots.subrange(0, 4));
        assert(slots.subrange(0, 5).last() == (Method::Patch, item.patch));
        assert(endpoints_match(slots.subrange(0, 5), eps@));
    }
    if let Option::Some(op) = &item.options {
        push_endpoint(&mut eps, Method::Options, op);
    }
    proof {
        assert(slots.subrange(0, 6).drop_last() =~= slots.subrange(0, 5));
        assert(slots.subrange(0, 6).last() == (Method::Options, item.options));
        assert(endpoints_match(slots.subrange(0, 6), eps@));
    }
    if let Option::Some(op) = &item.head {
        push_endpoint(&mut eps, Method::Head, op);
    }
    proof {
        assert(slots.subrange(0, 7).drop_last() =~= slots.subrange(0, 6));
        assert(slots.subrange(0, 7).last() == (Method::Head, item.head));
        assert(endpoints_match(slots.subrange(0, 7), eps@));
    }
    if let Option::Some(op) = &item.trace {
        push_endpoint(&mut eps, Method::Trace, op);
    }
    proof {
        assert(slots.subrange(0, 8).drop_last() =~= slots.subrange(0, 7));
        assert(slots.subrange(0, 8).last() == (Method::Trace, item.trace));
        assert(endpoints_match(slots.subrange(0, 8), eps@));
        assert(slots.subrange(0, 8) =~= slots);
    }
    eps
}

/// How one built route relates to its path entry.
pub open spec fn route_matches(entry: (String, PathItem), r: Route) -> bool {
    &&& r.path@ == entry.0@
    &&& opt_str_view(r.description) == opt_str_view(entry.1.description)
    &&& endpoints_match(method_slots(entry.1), r.endpoints@)
}

/// Turns a parsed document into the intermediate format: every named
/// schema normalized into a scheme (recording whether its root is
/// inherently nullable), every path item turned into a route with its
/// endpoints, and the route trie built over the path strings.  Fails with
/// `NoComponents` exactly when the document has no schema section.
pub fn parse(doc: &Document) -> (r: Result<IntermediateFormat, Error>)
    ensures
        match r {
            Result::Ok(f) => {
                &&& doc.components is Some
                &&& f.schemes@.len() == doc.components.unwrap().schemas@.len()
                &&& forall|i: int|
                    0 <= i < f.schemes@.len() ==> {
                        let entry = #[trigger] doc.components.unwrap().schemas@[i];
                        &&& f.schemes@[i].name@ == entry.0@
                        &&& iast_view(f.schemes@[i].obj) == normalize_sor_spec(entry.1, false)
                        &&& f.schemes@[i].is_inherently_nullable == iast_nullable(
                            normalize_sor_spec(entry.1, false),
                        )
                    }
                &&& f.routes@.len() == doc.paths@.len()
                &&& forall|i: int|
                    0 <= i < f.routes@.len() ==> route_matches(
                        #[trigger] doc.paths@[i],
                        f.routes@[i],
                    )
                &&& frag_view(f.routes_tree) == trie_spec(paths_of(f.routes@))
            },
            Result::Err(e) => doc.components is None && e == Error::NoComponents,
        },
{
    let components = match &doc.components {
        Option::Some(c) => c,
        Option::None => {
            return Result::Err(Error::NoComponents);
        },
    };
    let mut schemes: Vec<Scheme> = Vec::new();
    let mut i: usize = 0;
    while i < components.schemas.len()
        invariant
            doc.components == Option::Some(*components),
            i <= components.schemas@.len(),
            schemes@.len() == i,
            forall|k: int|
                0 <= k < i ==> {
                    let entry = #[trigger] components.schemas@[k];
                    &&& schemes@[k].name@ == entry.0@
                    &&& iast_view(schemes@[k].obj) == normalize_sor_spec(entry.1, false)
                    &&& schemes@[k].is_inherently_nullable == iast_nullable(
                        normalize_sor_spec(entry.1, false),
                    )
                },
        decreases components.schemas@.len() - i,
    {
        let name = components.schemas[i].0.clone();
        let obj = normalize_schema_or_ref(&components.schemas[i].1, false);
        let is_inherently_nullable = obj.is_nullable();
        schemes.push(Scheme { name, is_inherently_nullable, obj });
        i = i + 1;
    }
    let mut routes: Vec<Route> = Vec::new();
    let mut j: usize = 0;
    while j < doc.paths.len()
        invariant
            j <= doc.paths@.len(),
            routes@.len() == j,
            forall|k: int|
                0 <= k < j ==> route_matches(#[trigger] doc.paths@[k], routes@[k]),
        decreases doc.paths@.len() - j,
    {
        let endpoints = build_endpoints(&doc.paths[j].1);
        let route = Route {
            path: doc.paths[j].0.clone(),
            description: clone_opt_string(&doc.paths[j].1.description),
            endpoints,
        };
        routes.push(route);
        j = j + 1;
    }
    let routes_tree = RouteTrieBuilder::build(&routes);
    Result::Ok(IntermediateFormat::new(schemes, routes, routes_tree))
}

} // verus!
