use ferro::api_doc::{api_doc_model, path_text, DocMethod, DocResponse, DocSegment, FieldType};

#[test]
fn path_text_renders_segments() {
    assert_eq!(path_text(&[DocSegment::Lit("healthz")]), "/healthz");
    assert_eq!(
        path_text(&[DocSegment::Lit("api"), DocSegment::Lit("v1"), DocSegment::Param("slug")]),
        "/api/v1/{slug}"
    );
    assert_eq!(path_text(&[]), "");
}

#[test]
fn document_lists_the_rest_surface() {
    let m = api_doc_model();
    assert_eq!(m.title, "Ferro API");
    assert_eq!(m.version, "0.1.0");
    let texts: Vec<String> = m.paths.iter().map(|p| path_text(&p.segments)).collect();
    assert_eq!(
        texts,
        vec![
            "/healthz",
            "/readyz",
            "/api/v1/auth/csrf",
            "/api/v1/auth/login",
            "/api/v1/auth/logout",
            "/api/v1/auth/me",
            "/api/v1/sites",
            "/api/v1/content/{type_slug}",
            "/api/v1/content/{type_slug}/{slug}",
            "/api/v1/content/{type_slug}/{slug}/publish",
            "/api/v1/types",
            "/api/v1/types/{slug}",
            "/api/v1/plugins",
            "/api/v1/plugins/{name}",
            "/api/v1/plugins/{name}/grant",
            "/api/v1/plugins/{name}/reload",
            "/api/v1/plugins/{name}/enabled",
        ]
    );
    let ops: usize = m.paths.iter().map(|p| p.operations.len()).sum();
    assert_eq!(ops, 23);
    assert_eq!(m.schemas.len(), 18);
    let tags: Vec<&str> = m.tags.iter().map(|t| t.name).collect();
    assert_eq!(tags, vec!["auth", "content", "types", "meta", "plugins"]);
}

#[test]
fn document_laws_on_the_built_value() {
    let m = api_doc_model();
    let names: Vec<&str> = m.schemas.iter().map(|s| s.name).collect();
    for p in &m.paths {
        let text = path_text(&p.segments);
        for op in &p.operations {
            let braces: Vec<String> = text
                .split('/')
                .filter(|s| s.starts_with('{'))
                .map(|s| s.trim_matches(|c| c == '{' || c == '}').to_string())
                .collect();
            let declared: Vec<String> = op.path_params.iter().map(|s| s.to_string()).collect();
            assert_eq!(braces, declared, "{text}");
            if op.method != DocMethod::Get {
                assert!(op.bearer || text == "/api/v1/auth/login", "{text}");
            }
            if let Some(r) = op.request_ref {
                assert!(names.contains(&r));
            }
            match op.response {
                DocResponse::Json(r) | DocResponse::JsonArray(r) => assert!(names.contains(&r)),
                _ => {}
            }
            assert!(m.tags.iter().any(|t| t.name == op.tag));
        }
    }
    for s in &m.schemas {
        for p in &s.properties {
            if let FieldType::Ref(r) | FieldType::RefArray(r) = p.ty {
                assert!(names.contains(&r));
            }
        }
    }
    let login = &m.paths[3].operations[0];
    assert_eq!(login.method, DocMethod::Post);
    assert!(!login.bearer);
    assert_eq!(login.request_ref, Some("LoginBody"));
}
