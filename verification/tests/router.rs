use shell_core::router::{
    config_js_body, content_type_for, fallback_doc_path_vec, mime_label, physical_path, respond,
    respond_found, route, with_index, ContentType, HttpResponse, Root, RouteStep,
};

#[test]
fn config_route_is_exact() {
    assert_eq!(route(b"/config.js"), RouteStep::Config);
    // Only the exact path matches.
    assert_eq!(route(b"/config.json"), RouteStep::Fallback);
}

#[test]
fn config_body_reflects_backend_url() {
    let body = config_js_body(b"http://api.example.com");
    assert_eq!(body, b"window.__BACKEND_URL__ = \"http://api.example.com\";".to_vec());
}

#[test]
fn config_is_served_whatever_the_filesystem_says() {
    let with_disk = respond(&RouteStep::Config, Some(vec![1, 2, 3]), b"http://b", b"<doc>");
    let without_disk = respond(&RouteStep::Config, None, b"http://b", b"<doc>");
    assert_eq!(with_disk, without_disk);
    assert_eq!(with_disk.status, 200);
    assert_eq!(with_disk.content_type, ContentType::JavaScript);
    assert_eq!(with_disk.body, b"window.__BACKEND_URL__ = \"http://b\";".to_vec());
}

#[test]
fn src_paths_resolve_under_the_primary_root() {
    assert_eq!(route(b"/src/app.js"), RouteStep::File(Root::Src, b"app.js".to_vec()));
    assert_eq!(route(b"/src"), RouteStep::File(Root::Src, Vec::new()));
    assert_eq!(
        route(b"/src/programs/x/y.css"),
        RouteStep::File(Root::Src, b"programs/x/y.css".to_vec())
    );
}

#[test]
fn programs_paths_resolve_under_the_programs_root() {
    assert_eq!(route(b"/programs/x.png"), RouteStep::File(Root::Programs, b"x.png".to_vec()));
    assert_eq!(route(b"/programs"), RouteStep::File(Root::Programs, Vec::new()));
}

#[test]
fn unmatched_paths_fall_back() {
    assert_eq!(route(b"/totally/unknown/path"), RouteStep::Fallback);
    assert_eq!(route(b"/"), RouteStep::Fallback);
    assert_eq!(route(b""), RouteStep::Fallback);
    assert_eq!(route(b"/srcfile"), RouteStep::Fallback);
    assert_eq!(route(b"/programsx"), RouteStep::Fallback);
}

#[test]
fn dotdot_paths_are_refused() {
    assert_eq!(route(b"/src/../secret.txt"), RouteStep::Fallback);
    assert_eq!(route(b"/programs/a/../../etc/passwd"), RouteStep::Fallback);
}

#[test]
fn found_file_bytes_round_trip() {
    let bytes = vec![0u8, 1, 2, 3, 254, 255];
    let step = route(b"/src/data.bin");
    let r = respond(&step, Some(bytes.clone()), b"http://b", b"<doc>");
    assert_eq!(r.status, 200);
    assert_eq!(r.body, bytes);
}

#[test]
fn missing_file_and_unknown_path_are_indistinguishable() {
    let r1 = respond(&route(b"/src/does-not-exist"), None, b"http://b", b"<doc>");
    let r2 = respond(&route(b"/totally/unknown/path"), None, b"http://b", b"<doc>");
    assert_eq!(r1, r2);
    assert_eq!(r1.status, 200);
    assert_eq!(r1.content_type, ContentType::Html);
    assert_eq!(r1.body, b"<doc>".to_vec());
}

#[test]
fn aliased_paths_serve_identical_responses() {
    let s1 = route(b"/src/programs/tool/app.js");
    let s2 = route(b"/programs/tool/app.js");
    let (root1, rel1) = match &s1 {
        RouteStep::File(root, rel) => (*root, rel.clone()),
        _ => panic!("expected a file lookup"),
    };
    let (root2, rel2) = match &s2 {
        RouteStep::File(root, rel) => (*root, rel.clone()),
        _ => panic!("expected a file lookup"),
    };
    // Both resolve to the same file on disk.
    assert_eq!(physical_path(root1, &rel1), physical_path(root2, &rel2));
    assert_eq!(physical_path(root1, &rel1), b"src/programs/tool/app.js".to_vec());
    // And given the same bytes there, the responses are identical.
    let bytes = vec![9u8, 8, 7];
    let r1 = respond(&s1, Some(bytes.clone()), b"http://b", b"<doc>");
    let r2 = respond(&s2, Some(bytes.clone()), b"http://b", b"<doc>");
    assert_eq!(r1, r2);
}

#[test]
fn content_types_follow_the_extension() {
    assert_eq!(content_type_for(b"app.js"), ContentType::JavaScript);
    assert_eq!(content_type_for(b"mod.mjs"), ContentType::JavaScript);
    assert_eq!(content_type_for(b"page.html"), ContentType::Html);
    assert_eq!(content_type_for(b"page.htm"), ContentType::Html);
    assert_eq!(content_type_for(b"style.css"), ContentType::Css);
    assert_eq!(content_type_for(b"data.json"), ContentType::Json);
    assert_eq!(content_type_for(b"img.png"), ContentType::Png);
    assert_eq!(content_type_for(b"img.jpg"), ContentType::Jpeg);
    assert_eq!(content_type_for(b"img.jpeg"), ContentType::Jpeg);
    assert_eq!(content_type_for(b"img.svg"), ContentType::Svg);
    assert_eq!(content_type_for(b"fav.ico"), ContentType::Icon);
    assert_eq!(content_type_for(b"mod.wasm"), ContentType::Wasm);
    assert_eq!(content_type_for(b"archive.bin"), ContentType::OctetStream);
    assert_eq!(content_type_for(b"noextension"), ContentType::OctetStream);
    // A dot before the last slash is not an extension.
    assert_eq!(content_type_for(b"dir.v1/file"), ContentType::OctetStream);
}

#[test]
fn mime_labels_are_exact() {
    assert_eq!(mime_label(ContentType::Html), b"text/html".to_vec());
    assert_eq!(mime_label(ContentType::JavaScript), b"application/javascript".to_vec());
    assert_eq!(mime_label(ContentType::OctetStream), b"application/octet-stream".to_vec());
}

#[test]
fn index_document_is_appended_for_directories() {
    assert_eq!(with_index(b""), b"index.html".to_vec());
    assert_eq!(with_index(b"dir"), b"dir/index.html".to_vec());
    assert_eq!(with_index(b"dir/"), b"dir/index.html".to_vec());
}

#[test]
fn fallback_document_lives_in_the_scaffold() {
    assert_eq!(fallback_doc_path_vec(), b"src/scaffold/index.html".to_vec());
}

#[test]
fn found_response_carries_inferred_content_type() {
    let r: HttpResponse = respond_found(b"style.css", vec![1, 2]);
    assert_eq!(r.status, 200);
    assert_eq!(r.content_type, ContentType::Css);
    assert_eq!(r.body, vec![1, 2]);
}
