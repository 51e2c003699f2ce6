use axactor::expand::{actor, actor_block, plan, Expansion, ExpandError, SendMode};
use axactor::naming::{check_derived, check_reserved, ends_with, snake_to_camel, strip_raw};
use axactor::shape::{
    check_reply, classify, is_context_ty, is_msg_attr, read_member, read_shape, ActorShape,
    ArgKind, Member, MessageShape,
};
use axactor::syntax::{
    read_block, read_source, ArgText, BlockText, HeadText, MethodText, OutputText, PatText,
};

fn read_actor(source: &str) -> Option<ActorShape> {
    read_source(source).ok().map(|text| read_shape(&text))
}

const COUNTER: &str = "impl Counter {
    pub fn new() -> Self {
        Self { n: 0 }
    }

    #[msg]
    fn inc(&mut self) {
        self.n += 1;
    }

    #[msg]
    fn add(&mut self, x: i64) {
        self.n += x;
    }

    #[msg]
    fn get(&mut self) -> i64 {
        self.n
    }

    async fn on_start(&mut self, _ctx: &mut Context) {}
}";

fn names(expansion: &Expansion) -> Vec<&str> {
    expansion.messages.iter().flat_map(|m| m.ref_methods.iter()).map(|m| m.name.as_str()).collect()
}

#[test]
fn a_counter_is_expanded() {
    let expansion = actor(COUNTER).unwrap();
    assert_eq!(expansion.msg_enum, "CounterMsg");
    assert_eq!(expansion.ref_struct, "CounterRef");
    assert_eq!(expansion.stop_kind, "CounterMsg::__Stop");
    assert!(expansion.on_start && !expansion.on_restart && !expansion.on_stop);
    assert_eq!(
        names(&expansion),
        vec![
            "inc", "inc_wait", "add", "add_wait", "get", "get_wait", "get_wait_timeout",
            "get_timeout",
        ]
    );
    let items: Vec<usize> = expansion.messages.iter().map(|m| m.item).collect();
    assert_eq!(items, vec![1, 2, 3]);
    let add = &expansion.messages[1];
    assert_eq!((add.item, add.method.as_str(), add.variant.as_str()), (2, "add", "Add"));
    assert_eq!(add.kind, "CounterMsg::Add");
    assert_eq!(add.fields, vec![1]);
    assert!(!add.with_context && !add.is_async && !add.replies);
    let get = &expansion.messages[2];
    assert!(get.replies && get.fields.is_empty());
    let modes: Vec<SendMode> = get.ref_methods.iter().map(|m| m.mode).collect();
    assert_eq!(
        modes,
        vec![SendMode::Ask, SendMode::AskWait, SendMode::AskWaitTimeout, SendMode::AskTimeout]
    );
    let modes: Vec<SendMode> = add.ref_methods.iter().map(|m| m.mode).collect();
    assert_eq!(modes, vec![SendMode::Tell, SendMode::TellWait]);
}

#[test]
fn methods_with_names_that_differ_in_underscores_collide() {
    let error = actor(
        "impl CollisionActor {
            #[msg]
            pub async fn get_count(&self) {}

            #[msg]
            pub async fn get__count(&self) {}
        }",
    )
    .unwrap_err();
    assert!(matches!(error, ExpandError::Collision { item: 1, .. }));
    assert_eq!(
        error.message(),
        "Variant name collision detected: 'get__count' maps to already existing variant 'GetCount'"
    );
}

#[test]
fn reserved_names_are_refused() {
    let error = actor("impl CollisionActor { #[msg] pub async fn stop(&self) {} }").unwrap_err();
    assert!(matches!(error, ExpandError::Reserved { item: 0, .. }));
    assert_eq!(
        error.message(),
        "'stop' is reserved by axactor ref API; choose a different #[msg] name"
    );
    assert!(actor("impl A { pub async fn stop(&self) {} }").is_ok());
}

#[test]
fn names_of_derived_methods_are_refused() {
    let error = actor(
        "impl SuffixActor { #[msg] pub async fn test_timeout(&self, _d: Duration) {} }",
    )
    .unwrap_err();
    assert!(matches!(error, ExpandError::Derived { item: 0 }));
    assert_eq!(
        error.message(),
        "message method name must not end with _wait/_timeout/_wait_timeout (reserved by generated APIs)"
    );
}

#[test]
fn what_is_no_impl_block_is_refused() {
    let error = actor("struct A;").unwrap_err();
    assert!(matches!(error, ExpandError::Syntax));
    assert_eq!(error.message(), "expected an impl block");
    assert!(read_actor("impl A { fn }").is_none());
}

#[test]
fn what_has_no_path_is_refused() {
    let error = actor("impl (A, B) {}").unwrap_err();
    assert!(matches!(error, ExpandError::NotAPath));
    assert_eq!(error.message(), "Actor must be a simple type path");
    assert_eq!(actor("impl some::path::Nested<T> {}").unwrap().ref_struct, "NestedRef");
}

#[test]
fn methods_without_self_are_refused() {
    let error = actor("impl A { const N: u8 = 0; #[msg] fn f(x: u8) {} }").unwrap_err();
    assert!(matches!(error, ExpandError::NoReceiver { item: 1 }));
    assert_eq!(error.message(), "Actor method must take &mut self as the first argument");
    assert!(matches!(
        actor("impl A { #[msg] fn f() {} }"),
        Err(ExpandError::NoReceiver { item: 0 })
    ));
}

#[test]
fn patterns_are_refused_as_arguments() {
    for arg in ["(a, b): (u8, u8)", "ref a: u8", "a @ 1: u8", "_: u8"] {
        let error = actor(&format!("impl A {{ #[msg] fn f(&mut self, x: u8, {}) {{}} }}", arg));
        assert!(matches!(error, Err(ExpandError::NotSimple { item: 0, arg: 2 })));
    }
    let error = actor("impl A { #[msg] fn f(&self, (a, b): (u8, u8)) {} }").unwrap_err();
    assert_eq!(error.message(), "actor #[msg] args must be simple identifiers (e.g. x: T)");
    assert!(actor("impl A { #[msg] fn f(&self, mut a: u8) {} }").is_ok());
}

#[test]
fn a_late_context_is_refused() {
    let error =
        actor("impl A { #[msg] fn f(&mut self, x: u8, ctx: &mut Context) {} }").unwrap_err();
    assert!(matches!(error, ExpandError::ContextNotFirst { item: 0, arg: 2 }));
    assert_eq!(error.message(), "Context must be the first argument after &mut self");
    let early = actor("impl A { #[msg] fn f(&mut self, ctx: &mut Context, x: u8, y: u8) {} }");
    let early = early.unwrap();
    assert!(early.messages[0].with_context);
    assert_eq!(early.messages[0].fields, vec![2, 3]);
    let twice = actor("impl A { #[msg] fn f(&self, a: &Context, b: &Context) {} }");
    assert!(matches!(twice, Err(ExpandError::ContextNotFirst { item: 0, arg: 2 })));
}

#[test]
fn methods_that_return_nothing_are_told() {
    for source in ["fn f(&mut self) {}", "fn f(&mut self) -> () {}", "async fn f(&mut self) {}"] {
        let expansion = actor(&format!("impl A {{ #[msg] {} }}", source)).unwrap();
        assert!(!expansion.messages[0].replies);
        assert_eq!(expansion.messages[0].ref_methods.len(), 2);
    }
    let expansion = actor("impl A { #[msg] async fn f(&self) -> (u8,) { (0,) } }").unwrap();
    assert!(expansion.messages[0].replies && expansion.messages[0].is_async);
    assert_eq!(expansion.messages[0].ref_methods.len(), 4);
}

#[test]
fn hooks_are_found() {
    let expansion = actor(
        "impl A {
            pub async fn on_restart(&mut self, _ctx: &mut axactor::Context) {}
            pub async fn on_stop(&mut self, _ctx: &mut axactor::Context) {}
        }",
    )
    .unwrap();
    assert!(!expansion.on_start && expansion.on_restart && expansion.on_stop);
    assert!(expansion.messages.is_empty());
}

#[test]
fn no_two_methods_of_a_handle_share_a_name() {
    let expansion = actor(
        "impl A {
            #[msg] fn wait(&self) -> u8 { 0 }
            #[msg] fn timeout(&self) -> u8 { 0 }
            #[msg] fn a(&self) -> u8 { 0 }
            #[msg] fn a_b(&self) {}
        }",
    )
    .unwrap();
    let mut all: Vec<&str> = names(&expansion);
    all.extend(["new", "stop", "stop_wait", "mailbox_len", "idle_for", "silence_for"]);
    all.extend(["inflight_count", "incarnation", "is_closed", "is_terminated"]);
    let n = all.len();
    all.sort();
    all.dedup();
    assert_eq!(all.len(), n);
}

#[test]
fn snake_case_becomes_camel_case() {
    for (name, variant) in [
        ("get_count", "GetCount"),
        ("get__count", "GetCount"),
        ("_leading", "Leading"),
        ("trailing_", "Trailing"),
        ("already", "Already"),
        ("with_2_digits", "With2Digits"),
        ("straße_ärger", "StraßeÄrger"),
        ("ßtrange", "Strange"),
        ("keepCase_ofRest", "KeepCaseOfRest"),
        ("", ""),
        ("___", ""),
    ] {
        assert_eq!(snake_to_camel(name), variant);
    }
}

#[test]
fn names_are_judged() {
    for name in [
        "new", "stop", "stop_wait", "mailbox_len", "idle_for", "silence_for", "inflight_count",
        "incarnation", "is_closed", "is_terminated",
    ] {
        assert!(check_reserved(&name.to_string()));
    }
    assert!(!check_reserved(&"stopped".to_string()));
    for name in ["a_wait", "_wait", "a_timeout", "a_wait_timeout"] {
        assert!(check_derived(&name.to_string()));
    }
    for name in ["wait", "timeout", "wait_a", "a_waits", ""] {
        assert!(!check_derived(&name.to_string()));
    }
    assert!(ends_with("abc", "") && ends_with("abc", "abc") && !ends_with("bc", "abc"));
}

/// What the argument of that type is.
fn kind_of(ty: &str) -> ArgKind {
    let shape = read_actor(&format!("impl A {{ #[msg] fn f(&self, x: {}) {{}} }}", ty)).unwrap();
    shape.items[0].as_ref().unwrap().message.as_ref().unwrap().args[1]
}

#[test]
fn contexts_are_known_by_their_last_word() {
    for ty in ["&mut axactor::Context", "&Context", "&'a mut some::Context<T>"] {
        assert_eq!(kind_of(ty), ArgKind::Context);
    }
    for ty in ["Context", "&mut Contexts", "&mut &mut Context", "Option<&mut Context>", "&[u8]"] {
        assert_eq!(kind_of(ty), ArgKind::Field);
    }
    let words = |path: &str| Some(path.split("::").map(str::to_string).collect::<Vec<_>>());
    assert!(is_context_ty(&words("Context")));
    assert!(is_context_ty(&words("axactor::Context")));
    assert!(!is_context_ty(&words("Context::Inner")));
    assert!(!is_context_ty(&Some(Vec::new())));
    assert!(!is_context_ty(&None));
}

#[test]
fn arguments_are_told_apart() {
    let typed = |by_ref: bool, has_subpat: bool, refers_to: Option<Vec<String>>| {
        classify(&ArgText::Typed { pat: Some(PatText { by_ref, has_subpat }), refers_to })
    };
    let context = || Some(vec!["Context".to_string()]);
    assert_eq!(classify(&ArgText::Receiver), ArgKind::Receiver);
    assert_eq!(typed(false, false, None), ArgKind::Field);
    assert_eq!(typed(false, false, context()), ArgKind::Context);
    assert_eq!(typed(true, false, context()), ArgKind::NotSimple);
    assert_eq!(typed(false, true, None), ArgKind::NotSimple);
    let no_name = ArgText::Typed { pat: None, refers_to: context() };
    assert_eq!(classify(&no_name), ArgKind::NotSimple);
}

#[test]
fn answers_are_known_by_what_is_returned() {
    assert!(!check_reply(OutputText::Unnamed));
    assert!(!check_reply(OutputText::Tuple(0)));
    assert!(check_reply(OutputText::Tuple(1)));
    assert!(check_reply(OutputText::Other));
    let method = |attrs: Vec<Option<String>>| {
        let (name, output) = ("f".to_string(), OutputText::Other);
        let head = HeadText { name, attrs, is_async: true, output };
        MethodText { head, args: vec![ArgText::Receiver] }
    };
    assert!(read_member(&method(Vec::new())).message.is_none());
    let marked = method(vec![None, Some("msg".to_string())]);
    let message = read_member(&marked).message.unwrap();
    assert!(message.is_async && message.replies);
    assert_eq!(message.args, vec![ArgKind::Receiver]);
    let words = Some(vec!["path".to_string(), "A".to_string()]);
    let block = BlockText { self_ty: words, items: vec![None, Some(marked)] };
    let shape = read_shape(&block);
    assert_eq!(shape.name, Some("A".to_string()));
    assert!(shape.items[0].is_none());
    assert_eq!(shape.items[1].as_ref().unwrap().name, "f");
}

#[test]
fn raw_names_lose_their_mark() {
    let expansion = actor("impl r#try { #[msg] fn f(&self) {} }").unwrap();
    assert_eq!(expansion.msg_enum, "tryMsg");
    assert_eq!(expansion.ref_struct, "tryRef");
    assert_eq!(expansion.stop_kind, "tryMsg::__Stop");
    assert_eq!(expansion.messages[0].kind, "tryMsg::F");
    assert_eq!(strip_raw("r#type"), "type");
    assert_eq!(strip_raw("r#"), "");
    assert_eq!(strip_raw("r"), "r");
    assert_eq!(strip_raw("rust#"), "rust#");
}

#[test]
fn a_block_is_expanded_as_its_source_is() {
    let block = syn::parse_str::<syn::ItemImpl>(COUNTER).unwrap();
    let expansion = actor_block(&block).unwrap();
    assert_eq!(names(&expansion), names(&actor(COUNTER).unwrap()));
    assert_eq!(read_block(&block).items.len(), 5);
}

#[test]
fn self_comes_in_several_forms() {
    for form in ["self", "mut self", "&self", "&mut self", "self: Box<Self>"] {
        assert!(actor(&format!("impl A {{ #[msg] fn f({}) {{}} }}", form)).is_ok());
    }
}

#[test]
fn attributes_are_told_apart() {
    assert!(is_msg_attr(&Some("msg".to_string())));
    assert!(!is_msg_attr(&Some("inline".to_string())));
    assert!(!is_msg_attr(&None));
    let expansion = actor(
        "impl A {
            #[inline] #[msg] fn f(&self) {}
            #[axactor::msg] fn g(&self) {}
            #[doc = \"msg\"] fn h(&self) {}
        }",
    )
    .unwrap();
    assert_eq!(names(&expansion), vec!["f", "f_wait"]);
}

#[test]
fn a_shape_is_planned_as_its_source_is() {
    let shape = ActorShape {
        name: Some("Echo".to_string()),
        items: vec![
            None,
            Some(Member {
                name: "say_it".to_string(),
                message: Some(MessageShape {
                    is_async: true,
                    args: vec![ArgKind::Receiver, ArgKind::Context, ArgKind::Field],
                    replies: true,
                }),
            }),
        ],
    };
    let expansion = plan(&shape).unwrap();
    let message = &expansion.messages[0];
    assert_eq!((message.item, message.kind.as_str()), (1, "EchoMsg::SayIt"));
    assert!(message.with_context && message.is_async && message.replies);
    assert_eq!(message.fields, vec![2]);
    let nameless = ActorShape { name: None, items: Vec::new() };
    assert!(matches!(plan(&nameless), Err(ExpandError::NotAPath)));
}

#[test]
fn an_actor_is_read_from_its_source() {
    let shape = read_actor(COUNTER).unwrap();
    assert_eq!(shape.name, Some("Counter".to_string()));
    assert_eq!(shape.items.len(), 5);
    let new = shape.items[0].as_ref().unwrap();
    assert!(new.name == "new" && new.message.is_none());
    let add = shape.items[2].as_ref().unwrap().message.as_ref().unwrap();
    assert_eq!(add.args, vec![ArgKind::Receiver, ArgKind::Field]);
}
