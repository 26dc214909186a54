use react_hook_swc_transform::ast::{Node, Program};
use react_hook_swc_transform::text::contains_text;
use react_hook_swc_transform::transform::{
    process_transform, recognize, rewrite_call, Shape, TransformError, TransformVisitor,
};

fn copy(n: &Node) -> Node {
    match n {
        Node::Ident { sym } => Node::Ident { sym: sym.clone() },
        Node::Str { value } => Node::Str { value: value.clone() },
        Node::Member { obj, prop } => Node::Member { obj: Box::new(copy(obj)), prop: prop.clone() },
        Node::Call { callee, args } => Node::Call { callee: Box::new(copy(callee)), args: copy_all(args) },
        Node::FnDecl { name, body } => Node::FnDecl { name: name.clone(), body: copy_all(body) },
        Node::Import { local, src } => Node::Import { local: local.clone(), src: src.clone() },
        Node::Other { kind, children } => Node::Other { kind: kind.clone(), children: copy_all(children) },
    }
}

fn copy_all(v: &[Node]) -> Vec<Node> {
    v.iter().map(copy).collect()
}

fn ident(s: &str) -> Node {
    Node::Ident { sym: s.to_string() }
}

fn string(s: &str) -> Node {
    Node::Str { value: s.to_string() }
}

fn member(obj: Node, prop: &str) -> Node {
    Node::Member { obj: Box::new(obj), prop: prop.to_string() }
}

fn call(callee: Node, args: Vec<Node>) -> Node {
    Node::Call { callee: Box::new(callee), args }
}

fn other(kind: &str, children: Vec<Node>) -> Node {
    Node::Other { kind: kind.to_string(), children }
}

fn fn_decl(name: &str, body: Vec<Node>) -> Node {
    Node::FnDecl { name: name.to_string(), body }
}

fn import_e() -> Node {
    Node::Import { local: "e".to_string(), src: "@/dbschema/edgeql-js".to_string() }
}

fn shape_fn() -> Node {
    other(
        "arrow",
        vec![other(
            "object",
            vec![
                other("prop", vec![ident("id"), ident("true")]),
                other("prop", vec![ident("title"), ident("true")]),
                other("prop", vec![ident("content"), ident("true")]),
            ],
        )],
    )
}

fn fragment_call(name: &str, entity: &str) -> Node {
    call(ident("useFragment"), vec![ident("postRef"), member(ident("e"), entity), shape_fn()])
}

fn query_shape() -> Node {
    let select = call(
        member(ident("e"), "select"),
        vec![
            member(ident("e"), "User"),
            other(
                "arrow",
                vec![ident("user"), other("spread", vec![call(
                    ident("UserListModalUserFragment"),
                    vec![ident("user")],
                )])],
            ),
        ],
    );
    other("object", vec![other("prop", vec![ident("users"), select])])
}

fn transform(body: Vec<Node>, filename: Option<&str>) -> Result<(Program, bool), TransformError> {
    process_transform(Program { body }, filename.map(|f| f.to_string()))
}

#[test]
fn query_fragment_testt() {
    let state = other(
        "const",
        vec![call(ident("useQueryState"), vec![string("sign-in"), ident("parseAsBoolean")])],
    );
    let fetch = other(
        "const",
        vec![call(ident("useQueryFragment"), vec![ident("queryRef"), query_shape()])],
    );
    let func = fn_decl("SignInSignOutButton", vec![copy(&state), fetch]);
    let (out, import) = transform(vec![other("export", vec![func])], Some("")).unwrap();
    assert!(import);
    let expected_fetch = other(
        "const",
        vec![call(
            ident("useQueryFragment"),
            vec![
                ident("queryRef"),
                call(
                    member(ident("e"), "queryFragment"),
                    vec![string("SignInSignOutButtonQueryFragment"), query_shape()],
                ),
            ],
        )],
    );
    let expected = vec![
        other("export", vec![fn_decl("SignInSignOutButton", vec![state, expected_fetch])]),
        import_e(),
    ];
    assert_eq!(out.body, expected);
}

#[test]
fn fragment_test() {
    let func = fn_decl("PostCard", vec![other("const", vec![fragment_call("PostCard", "Post")])]);
    let (out, import) = transform(vec![other("export", vec![func])], Some("")).unwrap();
    assert!(import);
    let wrapped = call(
        ident("useFragment"),
        vec![
            ident("postRef"),
            call(
                member(ident("e"), "fragment"),
                vec![string("PostCardPostFragment"), member(ident("e"), "Post"), shape_fn()],
            ),
        ],
    );
    let expected = vec![
        other("export", vec![fn_decl("PostCard", vec![other("const", vec![wrapped])])]),
        import_e(),
    ];
    assert_eq!(out.body, expected);
}

#[test]
fn manifest_file_is_left_alone() {
    let body = vec![fn_decl("PostCard", vec![fragment_call("PostCard", "Post")])];
    let (out, import) = transform(copy_all(&body), Some("routes.manifest")).unwrap();
    assert!(!import);
    assert_eq!(out.body, body);
    let top_level = vec![call(ident("useQueryFragment"), vec![ident("q"), ident("s")])];
    let (out, import) = transform(copy_all(&top_level), Some("manifest")).unwrap();
    assert!(!import);
    assert_eq!(out.body, top_level);
}

#[test]
fn manifest_match_is_case_sensitive() {
    let body = vec![fn_decl("PostCard", vec![fragment_call("PostCard", "Post")])];
    let (out, import) = transform(copy_all(&body), Some("Manifest")).unwrap();
    assert!(import);
    assert_ne!(out.body, body);
}

#[test]
fn use_fragment_with_two_or_four_arguments_is_unchanged() {
    let two = call(ident("useFragment"), vec![ident("postRef"), member(ident("e"), "Post")]);
    let four = call(
        ident("useFragment"),
        vec![ident("postRef"), member(ident("e"), "Post"), shape_fn(), ident("extra")],
    );
    let body = vec![fn_decl("PostCard", vec![two, four])];
    let (out, import) = transform(copy_all(&body), None).unwrap();
    assert!(!import);
    assert_eq!(out.body, body);
}

#[test]
fn use_query_fragment_with_three_arguments_is_unchanged() {
    let three = call(ident("useQueryFragment"), vec![ident("q"), query_shape(), ident("x")]);
    let body = vec![fn_decl("Page", vec![three])];
    let (out, import) = transform(copy_all(&body), None).unwrap();
    assert!(!import);
    assert_eq!(out.body, body);
}

#[test]
fn fragment_name_joins_function_and_entity() {
    let args = vec![ident("postRef"), member(ident("e"), "Post"), shape_fn()];
    let out = rewrite_call(Shape::Fragment, ident("useFragment"), args, &Some("Foo".to_string()))
        .unwrap();
    let expected = call(
        ident("useFragment"),
        vec![
            ident("postRef"),
            call(
                member(ident("e"), "fragment"),
                vec![string("FooPostFragment"), member(ident("e"), "Post"), shape_fn()],
            ),
        ],
    );
    assert_eq!(out, expected);
}

#[test]
fn query_fragment_name_uses_function_name() {
    let args = vec![ident("queryRef"), query_shape()];
    let out =
        rewrite_call(Shape::QueryFragment, ident("useQueryFragment"), args, &Some("Nav".to_string()))
            .unwrap();
    let expected = call(
        ident("useQueryFragment"),
        vec![
            ident("queryRef"),
            call(
                member(ident("e"), "queryFragment"),
                vec![string("NavQueryFragment"), query_shape()],
            ),
        ],
    );
    assert_eq!(out, expected);
}

#[test]
fn one_import_after_the_first_item() {
    let body = vec![
        other("directive", vec![string("use client")]),
        fn_decl("PostCard", vec![fragment_call("PostCard", "Post")]),
        fn_decl("UserCard", vec![fragment_call("UserCard", "User")]),
        fn_decl("Page", vec![call(ident("useQueryFragment"), vec![ident("q"), query_shape()])]),
    ];
    let (out, import) = transform(body, Some("page")).unwrap();
    assert!(import);
    assert_eq!(out.body.len(), 5);
    assert_eq!(out.body[0], other("directive", vec![string("use client")]));
    assert_eq!(out.body[1], import_e());
    let imports = out.body.iter().filter(|n| matches!(n, Node::Import { .. })).count();
    assert_eq!(imports, 1);
}

#[test]
fn second_pass_leaves_fragment_calls_alone() {
    let body = vec![
        ident("first"),
        fn_decl("PostCard", vec![fragment_call("PostCard", "Post")]),
    ];
    let (once, import) = transform(body, None).unwrap();
    assert!(import);
    let (twice, again) = process_transform(Program { body: copy_all(&once.body) }, None).unwrap();
    assert!(!again);
    assert_eq!(twice, once);
}

#[test]
fn call_outside_any_function_fails() {
    let body = vec![other("const", vec![fragment_call("x", "Post")])];
    assert_eq!(transform(body, None).unwrap_err(), TransformError::MissingEnclosingFunction);
    let body = vec![call(ident("useQueryFragment"), vec![ident("q"), ident("s")])];
    assert_eq!(transform(body, None).unwrap_err(), TransformError::MissingEnclosingFunction);
}

#[test]
fn type_reference_must_be_a_property_access() {
    let bad = call(ident("useFragment"), vec![ident("postRef"), ident("Post"), shape_fn()]);
    let body = vec![fn_decl("PostCard", vec![bad])];
    assert_eq!(transform(body, None).unwrap_err(), TransformError::UnresolvableTypeReference);
}

#[test]
fn enclosing_name_is_restored_after_a_nested_function() {
    let inner = fn_decl("Inner", vec![call(ident("useQueryFragment"), vec![ident("a"), ident("s")])]);
    let later = call(ident("useQueryFragment"), vec![ident("b"), ident("t")]);
    let body = vec![ident("head"), fn_decl("Outer", vec![inner, later])];
    let (out, _) = transform(body, None).unwrap();
    let expected_inner = fn_decl(
        "Inner",
        vec![call(
            ident("useQueryFragment"),
            vec![
                ident("a"),
                call(
                    member(ident("e"), "queryFragment"),
                    vec![string("InnerQueryFragment"), ident("s")],
                ),
            ],
        )],
    );
    let expected_later = call(
        ident("useQueryFragment"),
        vec![
            ident("b"),
            call(member(ident("e"), "queryFragment"), vec![string("OuterQueryFragment"), ident("t")]),
        ],
    );
    assert_eq!(out.body[1], import_e());
    assert_eq!(out.body[2], fn_decl("Outer", vec![expected_inner, expected_later]));
}

#[test]
fn member_callee_is_not_recognized() {
    assert_eq!(recognize(&member(ident("hooks"), "useFragment"), 3), None);
    assert_eq!(recognize(&ident("useFragment"), 3), Some(Shape::Fragment));
    assert_eq!(recognize(&ident("useQueryFragment"), 2), Some(Shape::QueryFragment));
    assert_eq!(recognize(&ident("useFragments"), 3), None);
}

#[test]
fn visitor_tracks_whether_an_import_is_needed() {
    let mut visitor =
        TransformVisitor { function_name: Some("Card".to_string()), filename: None, requires_import: false };
    let plain = visitor.visit_node(call(ident("useMemo"), vec![ident("f")])).unwrap();
    assert_eq!(plain, call(ident("useMemo"), vec![ident("f")]));
    assert!(!visitor.requires_import);
    visitor.visit_node(call(ident("useQueryFragment"), vec![ident("q"), ident("s")])).unwrap();
    assert!(visitor.requires_import);
    assert_eq!(visitor.function_name, Some("Card".to_string()));
}

#[test]
fn import_goes_first_in_an_empty_prefix() {
    let body = vec![fn_decl("Only", vec![call(ident("useQueryFragment"), vec![ident("q"), ident("s")])])];
    let (out, import) = transform(body, None).unwrap();
    assert!(import);
    assert_eq!(out.body.len(), 2);
    assert_eq!(out.body[1], import_e());
}

#[test]
fn substring_search() {
    assert!(contains_text("app.manifest.ts", "manifest"));
    assert!(contains_text("manifest", "manifest"));
    assert!(!contains_text("manifes", "manifest"));
    assert!(!contains_text("MANIFEST", "manifest"));
    assert!(contains_text("", ""));
}
