use apigen::intermediate::{parse, parse_params, parse_request, parse_responses, Error};
use apigen::schema::{
    BodyOrRef, Document, Operation, ParamLocation, ParamOrRef, PathItem, SchemaComponents,
    SchemaObject, SchemaOrRef, SchemaType, SchemaTypeSet,
};
use apigen::types::{AnnotatedObj, Method, Param, Primitive, IAST};

fn scalar(t: SchemaType) -> SchemaObject {
    SchemaObject { schema_type: Some(SchemaTypeSet::Single(t)), ..SchemaObject::empty() }
}

fn obj(s: SchemaObject) -> SchemaOrRef {
    SchemaOrRef::Object(Box::new(s))
}

fn empty_item() -> PathItem {
    PathItem {
        description: None,
        get: None,
        post: None,
        put: None,
        delete: None,
        patch: None,
        options: None,
        head: None,
        trace: None,
    }
}

fn empty_op() -> Operation {
    Operation {
        description: None,
        summary: None,
        parameters: vec![],
        request_body: None,
        responses: vec![],
    }
}

#[test]
fn no_components_is_fatal() {
    let doc = Document { components: None, paths: vec![] };
    assert_eq!(parse(&doc), Err(Error::NoComponents));
}

#[test]
fn named_string_scheme() {
    // a scheme named Foo with schema {"type":"string"}
    let doc = Document {
        components: Some(SchemaComponents {
            schemas: vec![("Foo".to_string(), obj(scalar(SchemaType::String)))],
        }),
        paths: vec![],
    };
    let f = parse(&doc).unwrap();
    assert_eq!(f.schemes.len(), 1);
    let scheme = &f.schemes[0];
    assert_eq!(scheme.name, "Foo");
    assert!(!scheme.is_inherently_nullable);
    assert_eq!(
        scheme.obj,
        IAST::Primitive(AnnotatedObj {
            nullable: false,
            optional: false,
            is_deprecated: false,
            description: None,
            title: None,
            value: Primitive::String,
        })
    );
}

#[test]
fn nullable_root_marks_scheme_inherently_nullable() {
    let s = SchemaObject {
        schema_type: Some(SchemaTypeSet::Multiple(vec![SchemaType::String, SchemaType::Null])),
        ..SchemaObject::empty()
    };
    let doc = Document {
        components: Some(SchemaComponents { schemas: vec![("N".to_string(), obj(s))] }),
        paths: vec![],
    };
    let f = parse(&doc).unwrap();
    assert!(f.schemes[0].is_inherently_nullable);
}

#[test]
fn params_keep_query_and_header_drop_path() {
    let params = vec![
        ParamOrRef::Param {
            name: "q".to_string(),
            location: ParamLocation::Query,
            description: Some("query".to_string()),
            required: true,
        },
        ParamOrRef::Param {
            name: "id".to_string(),
            location: ParamLocation::Path,
            description: None,
            required: true,
        },
        ParamOrRef::Param {
            name: "h".to_string(),
            location: ParamLocation::Header,
            description: None,
            required: false,
        },
    ];
    let out = parse_params(&params).unwrap();
    assert_eq!(
        out,
        vec![
            Param { name: "q".to_string(), description: Some("query".to_string()), required: true },
            Param { name: "h".to_string(), description: None, required: false },
        ]
    );
}

#[test]
fn param_reference_is_an_error() {
    let params = vec![ParamOrRef::Ref("#/components/parameters/P".to_string())];
    assert_eq!(
        parse_params(&params),
        Err(Error::ParseError(
            "Reference to #/components/parameters/P not supported in params".to_string()
        ))
    );
}

#[test]
fn missing_request_body_is_an_error() {
    assert_eq!(parse_request(None), Err(Error::ParseError("No request body".to_string())));
}

#[test]
fn request_body_without_content_is_an_error() {
    let body = BodyOrRef::Body { content_schemas: vec![] };
    assert_eq!(
        parse_request(Some(&body)),
        Err(Error::ParseError("No request body".to_string()))
    );
}

#[test]
fn request_body_first_content_schema_normalized() {
    let body = BodyOrRef::Body { content_schemas: vec![Some(obj(scalar(SchemaType::Integer)))] };
    let r = parse_request(Some(&body)).unwrap();
    assert_eq!(
        r,
        IAST::Primitive(AnnotatedObj {
            nullable: false,
            optional: false,
            is_deprecated: false,
            description: None,
            title: None,
            value: Primitive::Integer,
        })
    );
}

#[test]
fn request_body_reference_kept_as_reference() {
    let body = BodyOrRef::Ref("#/components/requestBodies/B".to_string());
    let r = parse_request(Some(&body)).unwrap();
    assert_eq!(
        r,
        IAST::Reference(apigen::types::AnnotatedReference {
            path: "#/components/requestBodies/B".to_string(),
            optional: false,
            nullable: false,
        })
    );
}

#[test]
fn response_without_content_is_an_error() {
    let responses = vec![("200".to_string(), BodyOrRef::Body { content_schemas: vec![] })];
    assert_eq!(
        parse_responses(&responses),
        Err(Error::ParseError("No response body".to_string()))
    );
}

#[test]
fn response_without_schema_is_skipped() {
    let responses = vec![
        ("200".to_string(), BodyOrRef::Body { content_schemas: vec![None] }),
        (
            "404".to_string(),
            BodyOrRef::Body { content_schemas: vec![Some(obj(scalar(SchemaType::Boolean)))] },
        ),
    ];
    let out = parse_responses(&responses).unwrap();
    assert_eq!(out.len(), 1);
    assert_eq!(out[0].0, "404");
}

#[test]
fn endpoints_collected_in_method_order() {
    let item = PathItem {
        post: Some(empty_op()),
        get: Some(empty_op()),
        trace: Some(empty_op()),
        ..empty_item()
    };
    let doc = Document {
        components: Some(SchemaComponents { schemas: vec![] }),
        paths: vec![("/a".to_string(), item)],
    };
    let f = parse(&doc).unwrap();
    assert_eq!(f.routes.len(), 1);
    let methods: Vec<Method> = f.routes[0].endpoints.iter().map(|e| e.method).collect();
    assert_eq!(methods, vec![Method::Get, Method::Post, Method::Trace]);
}

#[test]
fn endpoint_failures_degrade_locally() {
    // a parameter reference degrades to no parameters, a missing request
    // body to no request, an empty response body to no responses; the
    // endpoint itself survives
    let op = Operation {
        description: Some("op".to_string()),
        summary: None,
        parameters: vec![ParamOrRef::Ref("#/x".to_string())],
        request_body: None,
        responses: vec![("500".to_string(), BodyOrRef::Body { content_schemas: vec![] })],
    };
    let item = PathItem { get: Some(op), ..empty_item() };
    let doc = Document {
        components: Some(SchemaComponents { schemas: vec![] }),
        paths: vec![("/a".to_string(), item)],
    };
    let f = parse(&doc).unwrap();
    let e = &f.routes[0].endpoints[0];
    assert_eq!(e.method, Method::Get);
    assert_eq!(e.description, Some("op".to_string()));
    assert!(e.params.is_empty());
    assert!(e.request.is_none());
    assert!(e.responses.is_empty());
}

#[test]
fn routes_and_tree_built_together() {
    let doc = Document {
        components: Some(SchemaComponents { schemas: vec![] }),
        paths: vec![
            ("/users/{id}/posts".to_string(), empty_item()),
            ("/users/{id}/comments".to_string(), empty_item()),
        ],
    };
    let f = parse(&doc).unwrap();
    assert_eq!(f.routes.len(), 2);
    assert_eq!(f.routes[0].path, "/users/{id}/posts");
    match &f.routes_tree {
        apigen::types::RouteFragment::Node(root) => {
            assert_eq!(root.children.len(), 1);
        }
        _ => panic!("expected a root node"),
    }
}

#[test]
fn method_string_names() {
    assert_eq!(Method::Get.string(), "get");
    assert_eq!(Method::Post.string(), "post");
    assert_eq!(Method::Put.string(), "put");
    assert_eq!(Method::Delete.string(), "delete");
    assert_eq!(Method::Patch.string(), "patch");
    assert_eq!(Method::Head.string(), "head");
    assert_eq!(Method::Options.string(), "options");
    assert_eq!(Method::Trace.string(), "trace");
}
