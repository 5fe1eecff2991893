use pundoc::event::{Event, Tag};
use pundoc::rustdoc::types::{
    Crate, Enum, FnDecl, Function, GenericArgs, GenericBound, Id, Impl, Item, ItemEnum, ItemKind,
    ItemSummary, Method, Module, Struct, StructType, Trait, Type, Variant, Visibility,
};
use pundoc::rustdoc::{RustdocAppender, Rustdoc};

fn id(s: &str) -> Id {
    Id(s.to_string())
}

fn prim(s: &str) -> Type {
    Type::Primitive(s.to_string())
}

fn item(i: &str, name: &str, kind: ItemKind, inner: ItemEnum, docs: &str) -> (Id, Item) {
    (
        id(i),
        Item {
            id: id(i),
            name: Some(name.to_string()),
            visibility: Visibility::Public,
            docs: docs.to_string(),
            attrs: vec![],
            kind,
            inner,
        },
    )
}

fn summary(i: &str, path: &[&str]) -> (Id, ItemSummary) {
    (id(i), ItemSummary { path: path.iter().map(|p| p.to_string()).collect() })
}

fn sample_crate() -> Crate {
    Crate {
        root: id("0"),
        includes_private: false,
        index: vec![
            item(
                "0",
                "demo",
                ItemKind::Module,
                ItemEnum::ModuleItem(Module { is_crate: true, items: vec![id("1"), id("3"), id("5")] }),
                "",
            ),
            item(
                "1",
                "Point",
                ItemKind::Struct,
                ItemEnum::StructItem(Struct {
                    struct_type: StructType::Plain,
                    fields: vec![id("2")],
                    fields_stripped: false,
                    impls: vec![],
                }),
                "A point.",
            ),
            item("2", "x", ItemKind::StructField, ItemEnum::StructFieldItem(prim("u32")), "The x."),
            item(
                "3",
                "Color",
                ItemKind::Enum,
                ItemEnum::EnumItem(Enum { variants: vec![id("4")], variants_stripped: true, impls: vec![] }),
                "",
            ),
            item("4", "Red", ItemKind::Variant, ItemEnum::VariantItem(Variant), "Like fire."),
            item(
                "5",
                "go",
                ItemKind::Function,
                ItemEnum::FunctionItem(Function {
                    decl: FnDecl { inputs: vec![("n".to_string(), prim("u8"))], output: Some(prim("bool")) },
                    header: String::new(),
                    abi: "\"Rust\"".to_string(),
                }),
                "",
            ),
        ],
        paths: vec![
            summary("0", &["demo"]),
            summary("1", &["demo", "Point"]),
            summary("3", &["demo", "Color"]),
            summary("5", &["demo", "go"]),
        ],
    }
}

fn texts(events: &[Event]) -> Vec<String> {
    events
        .iter()
        .filter_map(|e| match e {
            Event::Text(t) => Some(t.clone()),
            _ => None,
        })
        .collect()
}

#[test]
fn types_are_written_as_rust_source() {
    let k = sample_crate();
    let t = Type::BorrowedRef {
        lifetime: Some("'a".to_string()),
        mutable: true,
        type_: Box::new(Type::Tuple(vec![prim("u8"), Type::Slice(Box::new(prim("str")))])),
    };
    assert_eq!(RustdocAppender::codify_type(&k, &t), "&'a mut (u8,[str])");
    let q = Type::QualifiedPath {
        name: "Item".to_string(),
        self_type: Box::new(Type::Generic("I".to_string())),
        trait_: Box::new(Type::ResolvedPath { name: "Iterator".to_string(), args: Some(GenericArgs::AngleBracketed) }),
    };
    assert_eq!(RustdocAppender::codify_type(&k, &q), "<I as Iterator>::Item");
    let p = Type::RawPointer { mutable: false, type_: Box::new(Type::Array { type_: Box::new(prim("u8")), len: "4".to_string() }) };
    assert_eq!(RustdocAppender::codify_type(&k, &p), "*const [u8; 4]");
    assert_eq!(RustdocAppender::codify_type(&k, &Type::Tuple(vec![])), "()");
    assert_eq!(RustdocAppender::codify_type(&k, &Type::Never), "!");
}

#[test]
fn function_signatures_break_by_length() {
    let k = sample_crate();
    let short = FnDecl { inputs: vec![("a".to_string(), prim("u8"))], output: Some(prim("u8")) };
    assert_eq!(RustdocAppender::codify_fn_decl(&k, &short), "(a: u8) -> u8");
    let long_name = "x".repeat(90);
    let medium = FnDecl { inputs: vec![(long_name.clone(), prim("u8"))], output: None };
    assert_eq!(RustdocAppender::codify_fn_decl(&k, &medium), format!("(\n    {}: u8\n)\n ", long_name));
    let longer = "y".repeat(70);
    let wide = FnDecl {
        inputs: vec![(long_name.clone(), prim("u8")), (longer.clone(), prim("u16"))],
        output: Some(prim("()")),
    };
    assert_eq!(
        RustdocAppender::codify_fn_decl(&k, &wide),
        format!("(\n    {}: u8,\n    {}: u16\n) -> ()", long_name, longer)
    );
}

#[test]
fn visibility_and_abi() {
    assert_eq!(RustdocAppender::codify_visibility(&Visibility::Crate), "pub(crate) ");
    assert_eq!(
        RustdocAppender::codify_visibility(&Visibility::Restricted { parent: id("0"), path: "super".to_string() }),
        "pub(super) "
    );
    assert_eq!(RustdocAppender::codify_abi("\"Rust\""), "");
    assert_eq!(RustdocAppender::codify_abi("\"C\""), "extern \"C\" ");
    let path = vec!["a".to_string(), "b".to_string()];
    assert_eq!(RustdocAppender::name_for_item_at_path(&path), "a::b");
    assert_eq!(RustdocAppender::label_for_item_at_path(&path), "a-b");
}

#[test]
fn crate_documentation_in_order() {
    let k = sample_crate();
    assert!(Rustdoc::renders(&k));
    let mut doc = Rustdoc::new(k);
    let mut events = vec![];
    while let Some(e) = doc.next() {
        events.push(e);
    }
    let t = texts(&events);
    assert_eq!(
        t,
        vec![
            "demo",
            "Crate pub demo",
            "demo::Point",
            "demo::Color",
            "demo::go",
            "Struct pub demo::Point",
            "pub struct Point{\n    pub x: u32,\n}",
            "A point.",
            "Fields",
            "x",
            ": ",
            "u32",
            "  ",
            "The x.",
            "Enum pub demo::Color",
            "pub enum demo::Color {\n    Red,\n    // some variants omitted\n}",
            "Variants",
            "Red",
            "  ",
            "Like fire.",
            "Function pub demo::go",
            "pub fn go(n: u8) -> bool",
        ]
    );
    // headings: the crate, its module and three items
    let headings = events.iter().filter(|e| matches!(e, Event::Start(Tag::Header(_)))).count();
    assert_eq!(headings, 5);
    let mut depth: i64 = 0;
    for e in &events {
        match e {
            Event::Start(_) => depth += 1,
            Event::End(_) => depth -= 1,
            _ => {},
        }
        assert!(depth >= 0);
    }
    assert_eq!(depth, 0);
}

#[test]
fn crates_that_cannot_be_rendered_are_told() {
    let mut k = sample_crate();
    k.paths.remove(0);
    assert!(!Rustdoc::renders(&k));
    let mut k = sample_crate();
    k.index[2].1.inner = ItemEnum::StructFieldItem(Type::ImplTrait);
    assert!(!Rustdoc::renders(&k));
}

#[test]
fn traits_and_impls_are_written_out() {
    let mut k = sample_crate();
    let m = |header: &str| {
        ItemEnum::MethodItem(Method {
            decl: FnDecl { inputs: vec![("self".to_string(), Type::Generic("Self".to_string()))], output: None },
            header: header.to_string(),
        })
    };
    k.index.push(item(
        "10",
        "Shape",
        ItemKind::Trait,
        ItemEnum::TraitItem(Trait { is_auto: false, is_unsafe: true, items: vec![id("11"), id("12"), id("13")] }),
        "Shapes.",
    ));
    k.index.push(item(
        "11",
        "Out",
        ItemKind::AssocType,
        ItemEnum::AssocTypeItem {
            bounds: vec![
                GenericBound::TraitBound { trait_: Type::ResolvedPath { name: "Clone".to_string(), args: None } },
                GenericBound::Outlives("'static".to_string()),
            ],
            default: Some(prim("u8")),
        },
        "The output.",
    ));
    k.index.push(item("12", "N", ItemKind::AssocConst, ItemEnum::AssocConstItem { type_: prim("usize"), default: None }, ""));
    k.index.push(item("13", "area", ItemKind::Method, m("const "), "Its area."));
    k.paths.push(summary("10", &["demo", "Shape"]));
    let mut app = RustdocAppender { stack: vec![], buffered: vec![] };
    let tr = match &k.index[6].1.inner {
        ItemEnum::TraitItem(t) => t,
        _ => unreachable!(),
    };
    app.trait_(&k, &k.index[6].1, tr);
    assert_eq!(
        texts(&app.buffered),
        vec![
            "Trait pub demo::Shape",
            "pub unsafe trait Shape {\n    type Out: Clone + 'static = u8;\n    N: usize;\n    const fn area(self: Self);\n}",
            "Shapes.",
            "Associated items",
            "Out",
            "  ",
            "The output.",
            "N",
            "  ",
            "",
            "area",
            "  ",
            "Its area.",
        ]
    );
    let im = Impl {
        trait_: Some(Type::ResolvedPath { name: "Shape".to_string(), args: None }),
        for_: Type::ResolvedPath { name: "Point".to_string(), args: None },
        negative: false,
        items: vec![id("13")],
    };
    let impl_item = item("20", "", ItemKind::Impl, ItemEnum::Other, "Points are shapes.");
    let mut app = RustdocAppender { stack: vec![], buffered: vec![] };
    app.impl_(&k, &impl_item.1, &im);
    assert_eq!(
        texts(&app.buffered),
        vec!["impl Shape for Point", "Points are shapes.", "  pub const fn area(self: Self)", "Its area."]
    );
}
