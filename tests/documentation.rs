use route_docs::cookie::{cookie, optional};
use route_docs::document::{
    DocumentedHeader, DocumentedQuery, DocumentedResponse, DocumentedResponseBody, DocumentedType,
    HostType, InternalDocumentedType, Method, RouteDocumentation,
};
use route_docs::translate::{rename_placeholders, to_openapi, ParameterLocation, SchemaType};
use route_docs::unit::{describe, Annotation, ExplicitDocumentation, Request, Unit};

fn lit(s: &str) -> Unit {
    Unit::Literal(s.to_string())
}

fn is_primitive(t: &DocumentedType, kind: InternalDocumentedType) -> bool {
    match t {
        DocumentedType::Primitive { ty, documentation, required } => {
            *ty == kind && documentation.is_none() && *required
        }
        _ => false,
    }
}

#[test]
fn primitive_constructors_are_required_and_undescribed() {
    assert!(is_primitive(&DocumentedType::boolean(), InternalDocumentedType::Boolean));
    assert!(is_primitive(&DocumentedType::float(), InternalDocumentedType::Float));
    assert!(is_primitive(&DocumentedType::integer(), InternalDocumentedType::Integer));
    assert!(is_primitive(&DocumentedType::string(), InternalDocumentedType::String));
    match DocumentedType::object(vec![("a".to_string(), DocumentedType::integer())]) {
        DocumentedType::Object(fields) => {
            assert_eq!(fields.len(), 1);
            assert_eq!(fields[0].0, "a");
        }
        _ => panic!("expected an object"),
    }
}

#[test]
fn host_kinds_map_to_default_shapes() {
    for k in [
        HostType::U8, HostType::U16, HostType::U32, HostType::U64, HostType::U128,
        HostType::I8, HostType::I16, HostType::I32, HostType::I64, HostType::I128,
    ] {
        assert!(is_primitive(&DocumentedType::of_host(k), InternalDocumentedType::Integer));
    }
    assert!(is_primitive(&DocumentedType::of_host(HostType::Text), InternalDocumentedType::String));
    match DocumentedType::of_host(HostType::Other) {
        DocumentedType::Object(fields) => assert!(fields.is_empty()),
        _ => panic!("expected an empty object"),
    }
}

#[test]
fn users_by_id_end_to_end() {
    let unit = Unit::and(
        Unit::and(lit("users"), Unit::param("id".to_string(), HostType::U64)),
        Unit::Method(Method::Get),
    );
    let routes = describe(&unit);
    assert_eq!(routes.len(), 1);
    assert_eq!(routes[0].path, "/users/{0}");
    assert_eq!(routes[0].method, Some(Method::Get));
    assert_eq!(routes[0].parameters.len(), 1);
    assert_eq!(routes[0].parameters[0].name, "id");
    assert!(is_primitive(&routes[0].parameters[0].parameter_type, InternalDocumentedType::Integer));

    let doc = to_openapi(routes);
    assert_eq!(doc.openapi, "3.0.0");
    assert_eq!(doc.paths.len(), 1);
    assert_eq!(doc.paths[0].path, "/users/{id}");
    assert_eq!(doc.paths[0].method, Method::Get);
    let params = &doc.paths[0].operation.parameters;
    assert_eq!(params.len(), 1);
    assert_eq!(params[0].location, ParameterLocation::Path);
    assert_eq!(params[0].name, "id");
    assert!(params[0].required);
    assert!(matches!(params[0].schema.kind, SchemaType::Integer));
    assert!(!params[0].schema.nullable);
}

#[test]
fn required_cookie_documents_parameter_and_bad_response() {
    let routes = describe(&Unit::and(lit("session"), cookie("token")));
    let doc = to_openapi(routes);
    let op = &doc.paths[0].operation;
    assert_eq!(op.parameters.len(), 1);
    assert_eq!(op.parameters[0].location, ParameterLocation::Cookie);
    assert_eq!(op.parameters[0].name, "token");
    assert!(op.parameters[0].required);
    assert_eq!(op.responses.len(), 1);
    assert_eq!(op.responses[0].0, 400);
    assert_eq!(op.responses[0].1.description, "Bad Response");
    assert!(op.responses[0].1.content.is_empty());
}

#[test]
fn optional_cookie_is_not_required_and_adds_no_response() {
    let routes = describe(&optional("theme"));
    assert_eq!(routes.len(), 1);
    assert_eq!(routes[0].cookies.len(), 1);
    assert_eq!(routes[0].cookies[0].name, "theme");
    assert!(!routes[0].cookies[0].required);
    assert!(routes[0].responses.is_empty());
}

#[test]
fn sequence_multiplies_records() {
    let a = Unit::or(lit("a"), lit("b"));
    let b = Unit::or(Unit::or(lit("x"), lit("y")), lit("z"));
    let routes = describe(&Unit::and(a, b));
    let paths: Vec<&str> = routes.iter().map(|r| r.path.as_str()).collect();
    assert_eq!(paths, vec!["/a/x", "/a/y", "/a/z", "/b/x", "/b/y", "/b/z"]);
}

#[test]
fn alternation_adds_records_with_independent_branches() {
    let left = Unit::and(lit("a"), Unit::param("p".to_string(), HostType::Text));
    let right = Unit::and(Unit::param("q".to_string(), HostType::U8), lit("b"));
    let routes = describe(&Unit::or(left, right));
    assert_eq!(routes.len(), 2);
    assert_eq!(routes[0].path, "/a/{0}");
    assert_eq!(routes[0].parameters.len(), 1);
    assert_eq!(routes[0].parameters[0].name, "p");
    assert_eq!(routes[1].path, "/{0}/b");
    assert_eq!(routes[1].parameters.len(), 1);
    assert_eq!(routes[1].parameters[0].name, "q");
}

#[test]
fn empty_path_becomes_root() {
    let routes = describe(&Unit::Method(Method::Delete));
    assert_eq!(routes.len(), 1);
    assert_eq!(routes[0].path, "/");
    let doc = to_openapi(routes);
    assert_eq!(doc.paths[0].path, "/");
    assert_eq!(doc.paths[0].method, Method::Delete);
}

#[test]
fn placeholders_renamed_in_order() {
    let names = vec!["p0".to_string(), "p1".to_string()];
    assert_eq!(rename_placeholders("/a/{0}/b/{1}", &names), "/a/{p0}/b/{p1}");
    assert_eq!(rename_placeholders("/a/{1}/b/{0}", &names), "/a/{p1}/b/{p0}");
    assert_eq!(rename_placeholders("/a/{2}/{x}", &names), "/a/{2}/{x}");
    let tricky = vec!["{1}".to_string(), "n".to_string()];
    assert_eq!(rename_placeholders("/{0}/{1}", &tricky), "/{{1}}/{n}");
}

#[test]
fn many_parameters_get_multi_digit_placeholders() {
    let mut unit = Unit::Any;
    for i in 0..12 {
        unit = Unit::and(unit, Unit::param(format!("p{}", i), HostType::U8));
    }
    let routes = describe(&unit);
    assert!(routes[0].path.ends_with("/{10}/{11}"));
    let doc = to_openapi(routes);
    assert!(doc.paths[0].path.ends_with("/{p10}/{p11}"));
    assert!(doc.paths[0].path.starts_with("/{p0}/{p1}/"));
}

#[test]
fn responses_rendered_in_ascending_code_order() {
    let mut route = RouteDocumentation::empty();
    route.response(500, DocumentedResponse::new("oops".to_string()));
    route.response(200, DocumentedResponse::new("ok".to_string()));
    route.response(404, DocumentedResponse::new("missing".to_string()));
    route.response(201, DocumentedResponse::new("made".to_string()));
    let doc = to_openapi(vec![route]);
    let codes: Vec<u16> = doc.paths[0].operation.responses.iter().map(|r| r.0).collect();
    assert_eq!(codes, vec![200, 201, 404, 500]);
    assert_eq!(doc.paths[0].operation.responses[2].1.description, "missing");
}

#[test]
fn undocumented_method_defaults_to_post() {
    let doc = to_openapi(describe(&lit("x")));
    assert_eq!(doc.paths[0].method, Method::Post);
}

#[test]
fn response_bodies_default_to_any_media_type() {
    let mut route = RouteDocumentation::empty();
    let mut resp = DocumentedResponse::new("ok".to_string());
    resp.body.push(DocumentedResponseBody::default());
    resp.body.push(DocumentedResponseBody {
        body: DocumentedType::Array(Box::new(DocumentedType::Primitive {
            ty: InternalDocumentedType::Float,
            documentation: Some("score".to_string()),
            required: false,
        })),
        mime: Some("application/json".to_string()),
    });
    resp.headers.push(DocumentedHeader { name: "X-Rate".to_string(), description: None, required: true });
    route.response(200, resp);
    let doc = to_openapi(vec![route]);
    let r = &doc.paths[0].operation.responses[0].1;
    assert_eq!(r.content.len(), 2);
    assert_eq!(r.content[0].mime, "*/*");
    assert!(matches!(&r.content[0].schema.kind, SchemaType::Object(p) if p.is_empty()));
    assert_eq!(r.content[1].mime, "application/json");
    match &r.content[1].schema.kind {
        SchemaType::Array(inner) => {
            assert!(matches!(inner.kind, SchemaType::Number));
            assert!(inner.nullable);
            assert_eq!(inner.description.as_deref(), Some("score"));
        }
        _ => panic!("expected an array"),
    }
    assert_eq!(r.headers.len(), 1);
    assert_eq!(r.headers[0].name, "X-Rate");
}

#[test]
fn parameters_ordered_path_header_query_cookie() {
    let unit = Unit::and(
        Unit::and(cookie("c"), Unit::Query(DocumentedQuery {
            name: "q".to_string(),
            description: None,
            parameter_type: DocumentedType::integer(),
            required: false,
        })),
        Unit::and(
            Unit::Header(DocumentedHeader { name: "h".to_string(), description: None, required: true }),
            Unit::param("id".to_string(), HostType::I32),
        ),
    );
    let doc = to_openapi(describe(&unit));
    let locs: Vec<ParameterLocation> =
        doc.paths[0].operation.parameters.iter().map(|p| p.location).collect();
    assert_eq!(
        locs,
        vec![ParameterLocation::Path, ParameterLocation::Header, ParameterLocation::Query, ParameterLocation::Cookie]
    );
    assert!(!doc.paths[0].operation.parameters[2].required);
    assert!(matches!(doc.paths[0].operation.parameters[2].schema.kind, SchemaType::String));
}

fn request(segments: &[&str], cookies: &[(&str, &str)]) -> Request {
    Request {
        method: Method::Get,
        segments: segments.iter().map(|s| s.to_string()).collect(),
        headers: vec![],
        queries: vec![],
        cookies: cookies.iter().map(|(a, b)| (a.to_string(), b.to_string())).collect(),
    }
}

#[test]
fn annotation_keeps_matching_but_replaces_documentation() {
    let inner = Unit::and(lit("a"), Unit::param("p".to_string(), HostType::Text));
    let annotation = Annotation { cookies: vec![], headers: vec![], queries: vec![], responses: vec![] };
    let wrapped = Unit::Explicit(ExplicitDocumentation::new(
        Unit::and(lit("a"), Unit::param("p".to_string(), HostType::Text)),
        annotation,
    ));
    for segs in [&["a", "7"][..], &["b", "7"][..], &["a"][..]] {
        let req = request(segs, &[]);
        assert_eq!(inner.filter(&req, 0), wrapped.filter(&req, 0));
    }
    assert_eq!(wrapped.filter(&request(&["a", "7"], &[]), 0), Some((2, vec!["7".to_string()])));
    let routes = describe(&wrapped);
    assert_eq!(routes.len(), 1);
    assert_eq!(routes[0].path, "/");
    assert!(routes[0].parameters.is_empty());
}

#[test]
fn cookie_units_match_like_the_cookie_filters() {
    let with = request(&[], &[("other", "1"), ("token", "abc")]);
    let without = request(&[], &[("other", "1")]);
    assert_eq!(cookie("token").filter(&with, 0), Some((0, vec!["abc".to_string()])));
    assert_eq!(cookie("token").filter(&without, 0), None);
    assert_eq!(optional("token").filter(&without, 0), Some((0, vec![])));
    assert_eq!(optional("token").filter(&with, 0), Some((0, vec!["abc".to_string()])));
}

#[test]
fn alternation_tries_second_branch() {
    let unit = Unit::or(lit("a"), Unit::and(lit("b"), Unit::Method(Method::Put)));
    assert_eq!(unit.filter(&request(&["b"], &[]), 0), None);
    let mut req = request(&["b"], &[]);
    req.method = Method::Put;
    assert_eq!(unit.filter(&req, 0), Some((1, vec![])));
}
