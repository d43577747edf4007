use enum_handlers::attr::{AttrError, EnumHandlersAttr, TokenInfo};
use enum_handlers::expand::expand_dispatch;
use enum_handlers::handlers::{
    collect_handlers, get_type_root_ident, handler_belongs_to_enum, is_immutable_handler,
    is_unit_path_variant, typed_param_patterns,
};
use enum_handlers::model::{copy_segments, copy_strings, AttrInfo, InputInfo, ItemInfo, MethodInfo, SegmentInfo, TypeInfo};
use enum_handlers::render::render_dispatch;

fn path_type(segments: &[&str]) -> TypeInfo {
    TypeInfo {
        path: Some(segments.iter().map(|s| SegmentInfo { ident: s.to_string(), has_args: false }).collect()),
        text: segments.join(" :: "),
    }
}

fn idents(t: &TypeInfo) -> Option<Vec<(String, bool)>> {
    t.path.as_ref().map(|v| v.iter().map(|s| (s.ident.clone(), s.has_args)).collect())
}

fn method(name: &str, handles: &[&[&str]], receiver: Option<(bool, bool)>, params: &[&str], is_async: bool, output: &str) -> ItemInfo {
    let mut inputs = Vec::new();
    if let Some((reference, mutable)) = receiver {
        inputs.push(InputInfo::Receiver { reference, mutable });
    }
    for p in params {
        inputs.push(InputInfo::Typed(p.to_string()));
    }
    ItemInfo::Method(MethodInfo {
        name: name.to_string(),
        attrs: handles.iter().map(|h| AttrInfo::Handle(Some(path_type(h)))).collect(),
        inputs,
        is_async,
        output: output.to_string(),
    })
}

fn attr_tokens(parts: &[TokenInfo]) -> Vec<TokenInfo> {
    parts.iter().map(|t| match t {
        TokenInfo::Ident(s) => TokenInfo::Ident(s.clone()),
        TokenInfo::Punct(c) => TokenInfo::Punct(*c),
        TokenInfo::Other => TokenInfo::Other,
    }).collect()
}

fn parse_attr(enum_ty: &[&str], parts: &[TokenInfo]) -> Result<EnumHandlersAttr, (Option<usize>, String)> {
    EnumHandlersAttr::parse(path_type(enum_ty), &attr_tokens(parts)).map_err(|e| match e {
        AttrError::Refused { at, message } => (at, message),
        AttrError::NotIdent { at } => (at, "identifier expected".to_string()),
    })
}

fn ident(s: &str) -> TokenInfo {
    TokenInfo::Ident(s.to_string())
}

#[test]
fn unit_path_variant_is_a_path_type() {
    assert!(is_unit_path_variant(&path_type(&["Message", "Get"])));
    assert!(!is_unit_path_variant(&TypeInfo { path: None, text: "(A , B)".to_string() }));
    let with_args = TypeInfo {
        path: Some(vec![
            SegmentInfo { ident: "Message".to_string(), has_args: false },
            SegmentInfo { ident: "Inc".to_string(), has_args: true },
        ]),
        text: "Message :: Inc (isize)".to_string(),
    };
    assert!(!is_unit_path_variant(&with_args));
    let generic_enum = TypeInfo {
        path: Some(vec![
            SegmentInfo { ident: "E".to_string(), has_args: true },
            SegmentInfo { ident: "V".to_string(), has_args: false },
        ]),
        text: "E :: < T > :: V".to_string(),
    };
    assert!(is_unit_path_variant(&generic_enum));
}

#[test]
fn root_ident_is_first_segment() {
    let ty = path_type(&["ApiMessage", "Inc"]);
    assert_eq!(get_type_root_ident(&ty).map(|s| s.as_str()), Some("ApiMessage"));
    assert_eq!(get_type_root_ident(&TypeInfo { path: Some(vec![]), text: String::new() }), None);
    assert_eq!(get_type_root_ident(&TypeInfo { path: None, text: "[u8]".to_string() }), None);
}

#[test]
fn handler_belongs_by_root_ident() {
    let e = path_type(&["ApiMessage"]);
    assert!(handler_belongs_to_enum(&path_type(&["ApiMessage", "Inc"]), &e));
    assert!(!handler_belongs_to_enum(&path_type(&["BackgroundMessage", "Done"]), &e));
    assert!(!handler_belongs_to_enum(&TypeInfo { path: None, text: "!".to_string() }, &e));
    assert!(!handler_belongs_to_enum(&path_type(&["ApiMessage", "Inc"]), &TypeInfo { path: None, text: "()".to_string() }));
    assert!(!handler_belongs_to_enum(&path_type(&["crate", "A", "X"]), &path_type(&["crate", "B"])));
    assert!(handler_belongs_to_enum(&path_type(&["crate", "B", "X"]), &path_type(&["crate", "B"])));
    assert!(!handler_belongs_to_enum(&path_type(&["ApiMessage"]), &e));
    assert!(!handler_belongs_to_enum(&path_type(&["ApiMessage", "Inc", "More"]), &e));
}

#[test]
fn immutable_handler_needs_shared_reference_receiver() {
    let get = |recv| match method("m", &[], recv, &[], false, "") {
        ItemInfo::Method(m) => is_immutable_handler(&m),
        ItemInfo::Other => unreachable!(),
    };
    assert!(get(Some((true, false))));
    assert!(!get(Some((true, true))));
    assert!(!get(Some((false, true))));
    assert!(!get(Some((false, false))));
    assert!(!get(None));
}

#[test]
fn typed_params_skip_the_receiver() {
    let inputs = vec![
        InputInfo::Receiver { reference: true, mutable: true },
        InputInfo::Typed("a".to_string()),
        InputInfo::Typed("Inc (v , t)".to_string()),
    ];
    assert_eq!(typed_param_patterns(&inputs), vec!["a".to_string(), "Inc (v , t)".to_string()]);
}

#[test]
fn copies_are_equal() {
    let v = vec!["x".to_string(), "y".to_string()];
    assert_eq!(copy_strings(&v), v);
    let t = path_type(&["A", "B"]);
    let c = t.copy();
    assert_eq!(idents(&c), idents(&t));
    let segs = vec![SegmentInfo { ident: "A".to_string(), has_args: true }];
    let copied = copy_segments(&segs);
    assert_eq!(copied[0].ident, "A");
    assert!(copied[0].has_args);
    assert_eq!(c.text, t.text);
}

#[test]
fn plan_selects_own_enum_in_order() {
    let e = path_type(&["ApiMessage"]);
    let items = vec![
        method("inc", &[&["ApiMessage", "Inc"]], Some((true, true)), &[], true, "-> Task"),
        ItemInfo::Other,
        method("done", &[&["BackgroundMessage", "Done"]], Some((true, true)), &["value"], false, ""),
        method("dec", &[&["ApiMessage", "Dec"]], Some((true, false)), &["v"], false, "-> Other"),
    ];
    let plan = match collect_handlers(&e, &items) {
        Ok(p) => p,
        Err(_) => panic!("plan expected"),
    };
    assert_eq!(plan.arms.len(), 2);
    assert_eq!(plan.arms[0].method, "inc");
    assert_eq!(plan.arms[0].variant.text, "ApiMessage :: Inc");
    assert!(plan.arms[0].params.is_empty());
    assert_eq!(plan.arms[1].method, "dec");
    assert_eq!(plan.arms[1].params, vec!["v".to_string()]);
    assert_eq!(plan.return_type, "-> Other");
    assert!(plan.any_async);
    assert!(!plan.all_immutable);
}

#[test]
fn plan_without_handlers_is_immutable_and_unit() {
    let e = path_type(&["M"]);
    let items = vec![method("get", &[], Some((true, true)), &[], true, "-> isize")];
    let plan = collect_handlers(&e, &items).ok().unwrap();
    assert!(plan.arms.is_empty());
    assert_eq!(plan.return_type, "");
    assert!(!plan.any_async);
    assert!(plan.all_immutable);
}

#[test]
fn first_invalid_handle_is_reported() {
    let e = path_type(&["M"]);
    let mut bad = match method("b", &[&["M", "B"]], Some((true, false)), &[], false, "") {
        ItemInfo::Method(m) => m,
        ItemInfo::Other => unreachable!(),
    };
    bad.attrs.push(AttrInfo::Other);
    bad.attrs.push(AttrInfo::Handle(None));
    bad.attrs.push(AttrInfo::Handle(None));
    let items = vec![
        method("a", &[&["Other", "A"]], Some((true, false)), &[], false, ""),
        ItemInfo::Method(bad),
    ];
    assert_eq!(collect_handlers(&e, &items).err(), Some((1, 2)));
}

#[test]
fn render_variant_with_arguments_as_tuple_arm() {
    let e = path_type(&["Message"]);
    let variant = TypeInfo {
        path: Some(vec![
            SegmentInfo { ident: "Message".to_string(), has_args: false },
            SegmentInfo { ident: "Get".to_string(), has_args: true },
        ]),
        text: "Message :: Get (u8)".to_string(),
    };
    let items = vec![ItemInfo::Method(MethodInfo {
        name: "get".to_string(),
        attrs: vec![AttrInfo::Handle(Some(variant))],
        inputs: vec![InputInfo::Receiver { reference: true, mutable: false }],
        is_async: false,
        output: String::new(),
    })];
    let plan = collect_handlers(&e, &items).ok().unwrap();
    let text = render_dispatch(&"dispatch".to_string(), &e.text, &plan);
    assert!(text.contains("Message :: Get (u8)() => return self.get(),"));
}

#[test]
fn render_unit_and_tuple_arms() {
    let e = path_type(&["Message"]);
    let items = vec![
        method("handle_get", &[&["Message", "Get"]], Some((true, false)), &[], false, "-> isize"),
        method("handle_inc", &[&["Message", "Inc"]], Some((true, true)), &["a", "b"], true, "-> isize"),
    ];
    let plan = collect_handlers(&e, &items).ok().unwrap();
    let text = render_dispatch(&"run".to_string(), &e.text, &plan);
    assert_eq!(
        text,
        "pub async fn run(&mut self, cmd: Message) -> isize { match cmd { Message :: Get => return self.handle_get(), Message :: Inc(a, b) => return self.handle_inc(a, b).await, } }"
    );
}

#[test]
fn attr_default_and_custom_name() {
    assert_eq!(parse_attr(&["Message"], &[]).ok().unwrap().dispatch_name, "dispatch");
    let a = parse_attr(&["Message"], &[TokenInfo::Punct(','), ident("dispatch"), TokenInfo::Punct('='), ident("update")]).ok().unwrap();
    assert_eq!(a.dispatch_name, "update");
    assert_eq!(a.enum_name.text, "Message");
}

#[test]
fn attr_errors_with_positions() {
    let comma = TokenInfo::Punct(',');
    let eq = TokenInfo::Punct('=');
    assert_eq!(parse_attr(&["M"], &[ident("x")]).err(), Some((Some(0), "unexpected token".to_string())));
    assert_eq!(parse_attr(&["M"], &[TokenInfo::Punct(',')]).err(), Some((None, "identifier expected".to_string())));
    assert_eq!(parse_attr(&["M"], &[TokenInfo::Punct(','), TokenInfo::Other]).err(), Some((Some(1), "identifier expected".to_string())));
    assert_eq!(parse_attr(&["M"], &[TokenInfo::Punct(','), ident("name")]).err(), Some((Some(1), "Expected 'dispatch'".to_string())));
    assert_eq!(parse_attr(&["M"], &[TokenInfo::Punct(','), ident("dispatch")]).err(), Some((None, "expected `=`".to_string())));
    assert_eq!(parse_attr(&["M"], &[TokenInfo::Punct(','), ident("dispatch"), TokenInfo::Punct(':')]).err(), Some((Some(2), "expected `=`".to_string())));
    assert_eq!(parse_attr(&["M"], &[TokenInfo::Punct(','), ident("dispatch"), TokenInfo::Punct('=')]).err(), Some((None, "identifier expected".to_string())));
    assert_eq!(parse_attr(&["M"], &[TokenInfo::Punct(','), ident("dispatch"), TokenInfo::Punct('='), TokenInfo::Other]).err(), Some((Some(3), "identifier expected".to_string())));
    assert_eq!(parse_attr(&["M"], &[TokenInfo::Punct(','), ident("dispatch"), TokenInfo::Punct('='), ident("go"), TokenInfo::Punct(',')]).err(), Some((Some(4), "unexpected token".to_string())));
    let _ = (comma, eq);
}

#[test]
fn expand_dispatch_gives_text_or_position() {
    let attr = parse_attr(&["Message"], &[]).ok().unwrap();
    let items = vec![method("handle_dec", &[&["Message", "Dec"]], Some((true, true)), &["value"], false, "")];
    assert_eq!(
        expand_dispatch(&attr, &items).ok().unwrap(),
        "pub fn dispatch(&mut self, cmd: Message)  { match cmd { Message :: Dec(value) => return self.handle_dec(value), } }"
    );
    let items = vec![ItemInfo::Method(MethodInfo {
        name: "x".to_string(),
        attrs: vec![AttrInfo::Handle(None)],
        inputs: vec![],
        is_async: false,
        output: String::new(),
    })];
    assert_eq!(expand_dispatch(&attr, &items).err(), Some((0, 0)));
}

#[test]
fn law_non_handler_item_leaves_plan_unchanged() {
    let e = path_type(&["M"]);
    let mut items = vec![method("a", &[&["M", "A"]], Some((true, false)), &["x"], false, "-> u8")];
    let before = collect_handlers(&e, &items).ok().unwrap();
    items.push(method("dispatch", &[], Some((true, false)), &["cmd"], true, "-> u16"));
    let after = collect_handlers(&e, &items).ok().unwrap();
    assert_eq!(before.arms.len(), after.arms.len());
    assert_eq!(before.return_type, after.return_type);
    assert_eq!(before.any_async, after.any_async);
    assert_eq!(before.all_immutable, after.all_immutable);
}

#[test]
fn law_only_own_enum_on_example() {
    let api = path_type(&["ApiMessage"]);
    let bg = path_type(&["BackgroundMessage"]);
    let items = vec![
        method("inc", &[&["ApiMessage", "Inc"]], Some((true, true)), &[], true, ""),
        method("done", &[&["BackgroundMessage", "Done"]], Some((true, true)), &["v"], false, ""),
    ];
    let p1 = collect_handlers(&api, &items).ok().unwrap();
    let p2 = collect_handlers(&bg, &items).ok().unwrap();
    assert_eq!(p1.arms.len(), 1);
    assert_eq!(p2.arms.len(), 1);
    assert!(handler_belongs_to_enum(&p1.arms[0].variant, &api));
    assert!(!handler_belongs_to_enum(&p1.arms[0].variant, &bg));
    assert!(handler_belongs_to_enum(&p2.arms[0].variant, &bg));
}
