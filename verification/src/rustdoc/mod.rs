//! Documentation of a Rust crate, from rustdoc's description of it, as document events.
use vstd::prelude::*;

use crate::nesting::{depth, lemma_depth_concat, lemma_depth_push, nests, opens};
use crate::event::{
    events_view, strs_view, tag_view, CodeBlock, Event, EventView, Header, InterLink, Tag, TagView,
};
use crate::range::{SourceRange, WithRange};
use crate::text::{chars_of, push_str, str_eq};

pub mod types;

use types::{
    Crate, Enum, FnDecl, GenericArgs, GenericBound, Id, Item, ItemEnum, ItemKind, ItemSummary, Struct,
    Constant, Function, Impl, Module, Static, StructType, Trait, Type, Typedef, Visibility,
};

verus! {

fn put(out: &mut String, t: &str)
    ensures
        final(out)@ == old(out)@ + t@,
{
    push_str(out, t);
}

// ----------------------------------------------------------------------------------------
// writing out declarations

/// The visibility of an item as it is written before it, with a trailing space.
pub open spec fn visibility_text(v: Visibility) -> Seq<char> {
    match v {
        Visibility::Public => "pub "@,
        Visibility::Default => Seq::empty(),
        Visibility::Crate => "pub(crate) "@,
        Visibility::Restricted { path, .. } => "pub("@ + path@ + ") "@,
    }
}

/// The ABI of a function as it is written before `fn`: nothing for Rust's own.
pub open spec fn abi_text(abi: Seq<char>) -> Seq<char> {
    if abi == "\"Rust\""@ {
        Seq::empty()
    } else {
        "extern "@ + abi + " "@
    }
}

/// The parts of `p`, with `sep` between each two.
pub open spec fn joined(p: Seq<Seq<char>>, sep: Seq<char>) -> Seq<char>
    decreases p.len(),
{
    if p.len() == 0 {
        Seq::empty()
    } else if p.len() == 1 {
        p[0]
    } else {
        joined(p.drop_last(), sep) + sep + p.last()
    }
}

/// Whether a type can be written out: the renderer writes neither `impl Trait`, function
/// pointers nor parenthesized generic arguments.
pub open spec fn writable(t: Type) -> bool
    decreases t,
{
    match t {
        Type::ResolvedPath { args, .. } => args != Some(GenericArgs::Parenthesized),
        Type::FunctionPointer => false,
        Type::ImplTrait => false,
        Type::Tuple(items) => all_writable(items@),
        Type::Slice(inner) => writable(*inner),
        Type::Array { type_, .. } => writable(*type_),
        Type::RawPointer { type_, .. } => writable(*type_),
        Type::BorrowedRef { type_, .. } => writable(*type_),
        Type::QualifiedPath { self_type, trait_, .. } => writable(*self_type) && writable(*trait_),
        _ => true,
    }
}

/// Whether each of the types can be written out.
pub open spec fn all_writable(s: Seq<Type>) -> bool
    decreases s,
{
    if s.len() == 0 {
        true
    } else {
        all_writable(s.drop_last()) && writable(s.last())
    }
}

/// A type as Rust source.
pub open spec fn type_text(t: Type) -> Seq<char>
    decreases t,
{
    match t {
        Type::ResolvedPath { name, .. } => name@,
        Type::Generic(s) => s@,
        Type::Primitive(s) => s@,
        Type::Tuple(items) => if items.len() == 0 {
            "()"@
        } else {
            "("@ + types_text(items@) + ")"@
        },
        Type::Slice(inner) => "["@ + type_text(*inner) + "]"@,
        Type::Array { type_, len } => "["@ + type_text(*type_) + "; "@ + len@ + "]"@,
        Type::Never => "!"@,
        Type::Infer => "_"@,
        Type::RawPointer { mutable, type_ } => "*"@ + (if mutable {
            "mut"@
        } else {
            "const"@
        }) + " "@ + type_text(*type_),
        Type::BorrowedRef { lifetime, mutable, type_ } => "&"@ + (match lifetime {
            Some(l) => l@ + " "@,
            None => Seq::empty(),
        }) + (if mutable {
            "mut "@
        } else {
            Seq::empty()
        }) + type_text(*type_),
        Type::QualifiedPath { name, self_type, trait_ } => "<"@ + type_text(*self_type) + " as "@
            + type_text(*trait_) + ">::"@ + name@,
        _ => Seq::empty(),
    }
}

/// Types as Rust source, separated by commas.
pub open spec fn types_text(s: Seq<Type>) -> Seq<char>
    decreases s,
{
    if s.len() == 0 {
        Seq::empty()
    } else if s.len() == 1 {
        type_text(s[0])
    } else {
        types_text(s.drop_last()) + ","@ + type_text(s.last())
    }
}

/// A bound as Rust source.
pub open spec fn bound_text(b: GenericBound) -> Seq<char> {
    match b {
        GenericBound::Outlives(l) => l@,
        GenericBound::TraitBound { trait_ } => type_text(trait_),
    }
}

pub open spec fn bound_writable(b: GenericBound) -> bool {
    match b {
        GenericBound::Outlives(_) => true,
        GenericBound::TraitBound { trait_ } => writable(trait_),
    }
}

/// One input of a function as Rust source: `name: Type`.
pub open spec fn input_text(p: (String, Type)) -> Seq<char> {
    p.0@ + ": "@ + type_text(p.1)
}

pub open spec fn inputs_texts(s: Seq<(String, Type)>) -> Seq<Seq<char>> {
    s.map_values(|p: (String, Type)| input_text(p))
}

/// The number of characters of all the texts together.
pub open spec fn total_len(s: Seq<Seq<char>>) -> int
    decreases s.len(),
{
    if s.len() == 0 {
        0
    } else {
        total_len(s.drop_last()) + s.last().len()
    }
}

/// The output of a function as Rust source: ` -> Type`, or nothing.
pub open spec fn output_text(d: FnDecl) -> Seq<char> {
    match d.output {
        Some(t) => " -> "@ + type_text(t),
        None => Seq::empty(),
    }
}

/// Whether every type of a function's inputs and output can be written out.
pub open spec fn decl_writable(d: FnDecl) -> bool {
    &&& forall|i: int| 0 <= i < d.inputs@.len() ==> writable(#[trigger] d.inputs@[i].1)
    &&& match d.output {
        Some(t) => writable(t),
        None => true,
    }
}

/// The inputs and output of a function as Rust source: on one line where it is short; with
/// each input on a line of its own where the inputs are long; else with the inputs on a
/// line of their own and the output on the next.
pub open spec fn fn_decl_text(d: FnDecl) -> Seq<char> {
    let ins = inputs_texts(d.inputs@);
    let in_len = total_len(ins);
    let output = output_text(d);
    let short = in_len + output.len() < 80;
    let list_break = !short;
    let arg_break = !short && in_len >= 120;
    let out_break = !short && in_len < 120;
    "("@ + (if list_break {
        "\n    "@
    } else {
        Seq::empty()
    }) + joined(
        ins,
        if arg_break {
            ",\n    "@
        } else {
            ", "@
        },
    ) + (if list_break {
        "\n"@
    } else {
        Seq::empty()
    }) + ")"@ + (if out_break {
        "\n "@
    } else {
        Seq::empty()
    }) + output
}

// ----------------------------------------------------------------------------------------
// finding items

/// The entry of `id` among entries by id: the first one with that id.
pub open spec fn lookup<T>(s: Seq<(Id, T)>, id: Seq<char>) -> Option<T>
    decreases s.len(),
{
    if s.len() == 0 {
        None
    } else {
        match lookup(s.drop_last(), id) {
            Some(x) => Some(x),
            None => if s.last().0.0@ == id {
                Some(s.last().1)
            } else {
                None
            },
        }
    }
}

proof fn lemma_lookup_prefix<T>(s: Seq<(Id, T)>, i: int, id: Seq<char>)
    requires
        0 <= i <= s.len(),
        lookup(s.take(i), id) is Some,
    ensures
        lookup(s, id) == lookup(s.take(i), id),
    decreases s.len() - i,
{
    if i < s.len() {
        assert(s.take(i + 1).drop_last() =~= s.take(i));
        lemma_lookup_prefix(s, i + 1, id);
    } else {
        assert(s.take(i) =~= s);
    }
}

/// Finds the entry of `id`.
pub fn find<'a, T>(entries: &'a Vec<(Id, T)>, id: &Id) -> (r: Option<&'a T>)
    ensures
        match r {
            Some(x) => lookup(entries@, id.0@) == Some(*x),
            None => lookup(entries@, id.0@) is None,
        },
{
    let mut i: usize = 0;
    while i < entries.len()
        invariant
            i <= entries@.len(),
            lookup(entries@.take(i as int), id.0@) is None,
        decreases entries@.len() - i,
    {
        assert(entries@.take(i + 1).drop_last() =~= entries@.take(i as int));
        if str_eq(entries[i].0.0.as_str(), id.0.as_str()) {
            proof {
                lemma_lookup_prefix(entries@, i + 1, id.0@);
            }
            return Some(&entries[i].1);
        }
        i = i + 1;
    }
    assert(entries@.take(i as int) =~= entries@);
    None
}

// ----------------------------------------------------------------------------------------
// the events of an item

/// A heading with `label` (from no source range) at `level`, of text `text`.
pub open spec fn heading(label: Seq<char>, level: int, text: Seq<char>) -> Seq<EventView> {
    let tag = TagView::Header { label: (label, (0, 0)), level };
    seq![EventView::Start(tag), EventView::Text(text), EventView::End(tag)]
}

/// The code block tag of Rust source.
pub open spec fn rust_code() -> TagView {
    TagView::CodeBlock { label: None, caption: None, language: Some(("rust"@, (0, 0))) }
}

/// A block of Rust source.
pub open spec fn code(def: Seq<char>) -> Seq<EventView> {
    seq![EventView::Start(rust_code()), EventView::Text(def), EventView::End(rust_code())]
}

/// A paragraph of text.
pub open spec fn paragraph(t: Seq<char>) -> Seq<EventView> {
    seq![EventView::Start(TagView::Paragraph), EventView::Text(t), EventView::End(TagView::Paragraph)]
}

/// The docs of an item: a paragraph, unless there are none.
pub open spec fn docs_par(docs: Seq<char>) -> Seq<EventView> {
    if docs.len() == 0 {
        Seq::empty()
    } else {
        paragraph(docs)
    }
}

/// A paragraph in bold, as a heading of a list of parts.
pub open spec fn strong_par(t: Seq<char>) -> Seq<EventView> {
    seq![
        EventView::Start(TagView::Paragraph),
        EventView::Start(TagView::InlineStrong),
        EventView::Text(t),
        EventView::End(TagView::InlineStrong),
        EventView::End(TagView::Paragraph),
    ]
}

/// The heading of an item of kind `kind` at `path`.
pub open spec fn item_heading(kind: Seq<char>, vis: Visibility, path: Seq<String>) -> Seq<EventView> {
    heading(
        joined(strs_view(path), "-"@),
        2,
        kind + " "@ + visibility_text(vis) + joined(strs_view(path), "::"@),
    )
}

/// The attributes of an item, each followed by a line break.
pub open spec fn attrs_text(a: Seq<String>) -> Seq<char>
    decreases a.len(),
{
    if a.len() == 0 {
        Seq::empty()
    } else {
        attrs_text(a.drop_last()) + a.last()@ + "\n"@
    }
}

/// The pieces of events, one after the other.
pub open spec fn flat(s: Seq<Seq<EventView>>) -> Seq<EventView>
    decreases s.len(),
{
    if s.len() == 0 {
        Seq::empty()
    } else {
        flat(s.drop_last()) + s.last()
    }
}

/// The texts, one after the other.
pub open spec fn concat(s: Seq<Seq<char>>) -> Seq<char>
    decreases s.len(),
{
    if s.len() == 0 {
        Seq::empty()
    } else {
        concat(s.drop_last()) + s.last()
    }
}

// ----------------------------------------------------------------------------------------
// structs

/// A named field of a struct: its name, visibility, type and docs; `None` for an id of
/// something else.
pub open spec fn field_entry(index: Seq<(Id, Item)>, id: Id) -> Option<(Seq<char>, Visibility, Type, Seq<char>)> {
    match lookup(index, id.0@) {
        Some(Item { inner: ItemEnum::StructFieldItem(t), name: Some(n), visibility, docs, .. }) => Some(
            (n@, visibility, t, docs@),
        ),
        _ => None,
    }
}

/// The named fields of a struct, in order.
pub open spec fn field_entries(index: Seq<(Id, Item)>, ids: Seq<Id>) -> Seq<(Seq<char>, Visibility, Type, Seq<char>)>
    decreases ids.len(),
{
    if ids.len() == 0 {
        Seq::empty()
    } else {
        let rest = field_entries(index, ids.drop_last());
        match field_entry(index, ids.last()) {
            Some(e) => rest.push(e),
            None => rest,
        }
    }
}

/// Whether a struct can be written out: each of its fields exists, and each named field
/// has a type that can be written out.
pub open spec fn struct_writable(index: Seq<(Id, Item)>, st: Struct) -> bool {
    forall|i: int| 0 <= i < st.fields@.len() ==> {
        &&& lookup(index, #[trigger] st.fields@[i].0@) is Some
        &&& field_entry(index, st.fields@[i]) matches Some(e) ==> writable(e.2)
    }
}

/// The line of a field in a struct's definition.
pub open spec fn field_line(e: (Seq<char>, Visibility, Type, Seq<char>), tuple: bool) -> Seq<char> {
    "    "@ + visibility_text(e.1) + (if tuple {
        Seq::empty()
    } else {
        e.0 + ": "@
    }) + type_text(e.2) + ",\n"@
}

/// The paragraph that documents a field.
pub open spec fn field_par(e: (Seq<char>, Visibility, Type, Seq<char>)) -> Seq<EventView> {
    seq![
        EventView::Start(TagView::Paragraph),
        EventView::Start(TagView::InlineCode),
        EventView::Text(e.0),
        EventView::Text(": "@),
        EventView::Text(type_text(e.2)),
        EventView::End(TagView::InlineCode),
        EventView::Text("  "@),
        EventView::Text(e.3),
        EventView::End(TagView::Paragraph),
    ]
}

/// A struct's definition as Rust source.
pub open spec fn struct_def(item: Item, st: Struct, entries: Seq<(Seq<char>, Visibility, Type, Seq<char>)>) -> Seq<char> {
    let tuple = st.struct_type == StructType::Tuple;
    let title = if item.kind == ItemKind::Union {
        "union"@
    } else {
        "struct"@
    };
    let (open, close) = match st.struct_type {
        StructType::Plain => ("{\n"@, "}"@),
        StructType::Tuple => ("(\n"@, ")"@),
        StructType::Unit => (Seq::empty(), ";"@),
    };
    attrs_text(item.attrs@) + visibility_text(item.visibility) + title + " "@ + item.name->Some_0@
        + open + concat(entries.map_values(|e: (Seq<char>, Visibility, Type, Seq<char>)| field_line(e, tuple)))
        + (if st.fields_stripped {
        "    // some fields omitted\n"@
    } else {
        Seq::empty()
    }) + close
}

/// The events of a struct: its heading, definition, docs and the docs of its fields.
pub open spec fn struct_events(index: Seq<(Id, Item)>, item: Item, st: Struct, path: Seq<String>) -> Seq<EventView> {
    let entries = field_entries(index, st.fields@);
    item_heading(
        if item.kind == ItemKind::Union {
            "Union"@
        } else {
            "Struct"@
        },
        item.visibility,
        path,
    ) + code(struct_def(item, st, entries)) + docs_par(item.docs@) + (if entries.len() > 0 {
        strong_par("Fields"@)
    } else {
        Seq::empty()
    }) + flat(entries.map_values(|e: (Seq<char>, Visibility, Type, Seq<char>)| field_par(e)))
}

// ----------------------------------------------------------------------------------------
// enums

/// A variant of an enum: its name and docs; `None` for an id of something else.
pub open spec fn variant_entry(index: Seq<(Id, Item)>, id: Id) -> Option<(Seq<char>, Seq<char>)> {
    match lookup(index, id.0@) {
        Some(Item { inner: ItemEnum::VariantItem(_), name: Some(n), docs, .. }) => Some((n@, docs@)),
        _ => None,
    }
}

/// The variants of an enum, in order.
pub open spec fn variant_entries(index: Seq<(Id, Item)>, ids: Seq<Id>) -> Seq<(Seq<char>, Seq<char>)>
    decreases ids.len(),
{
    if ids.len() == 0 {
        Seq::empty()
    } else {
        let rest = variant_entries(index, ids.drop_last());
        match variant_entry(index, ids.last()) {
            Some(e) => rest.push(e),
            None => rest,
        }
    }
}

/// The paragraph that documents a part by its name.
pub open spec fn name_par(e: (Seq<char>, Seq<char>)) -> Seq<EventView> {
    seq![
        EventView::Start(TagView::Paragraph),
        EventView::Start(TagView::InlineCode),
        EventView::Text(e.0),
        EventView::End(TagView::InlineCode),
        EventView::Text("  "@),
        EventView::Text(e.1),
        EventView::End(TagView::Paragraph),
    ]
}

/// An enum's definition as Rust source.
pub open spec fn enum_def(item: Item, en: Enum, path: Seq<String>, entries: Seq<(Seq<char>, Seq<char>)>) -> Seq<char> {
    attrs_text(item.attrs@) + visibility_text(item.visibility) + "enum "@ + joined(strs_view(path), "::"@)
        + " {\n"@ + concat(entries.map_values(|e: (Seq<char>, Seq<char>)| "    "@ + e.0 + ",\n"@)) + (
    if en.variants_stripped {
        "    // some variants omitted\n"@
    } else {
        Seq::empty()
    }) + "}"@
}

/// The events of an enum: its heading, definition, docs and the docs of its variants.
pub open spec fn enum_events(index: Seq<(Id, Item)>, item: Item, en: Enum, path: Seq<String>) -> Seq<EventView> {
    let entries = variant_entries(index, en.variants@);
    item_heading("Enum"@, item.visibility, path) + code(enum_def(item, en, path, entries)) + docs_par(
        item.docs@,
    ) + (if entries.len() > 0 {
        strong_par("Variants"@)
    } else {
        Seq::empty()
    }) + flat(entries.map_values(|e: (Seq<char>, Seq<char>)| name_par(e)))
}

// ----------------------------------------------------------------------------------------
// traits

/// The bounds of an associated type: `: A + B`, or nothing.
pub open spec fn bounds_text(b: Seq<GenericBound>) -> Seq<char> {
    if b.len() == 0 {
        Seq::empty()
    } else {
        ": "@ + joined(b.map_values(|x: GenericBound| bound_text(x)), " + "@)
    }
}

/// The text after a part's declaration: ` = default`, or nothing.
pub open spec fn default_text(d: Option<Seq<char>>) -> Seq<char> {
    match d {
        Some(t) => " = "@ + t,
        None => Seq::empty(),
    }
}

/// A part of a trait: its line in the trait's definition, its name and its docs; `None`
/// for an id of something else.
pub open spec fn trait_part(index: Seq<(Id, Item)>, id: Id) -> Option<(Seq<char>, Seq<char>, Seq<char>)> {
    match lookup(index, id.0@) {
        Some(Item { inner: ItemEnum::AssocTypeItem { bounds, default }, name: Some(n), docs, .. }) => Some(
            (
                "    type "@ + n@ + bounds_text(bounds@) + default_text(
                    match default {
                        Some(t) => Some(type_text(t)),
                        None => None,
                    },
                ) + ";\n"@,
                n@,
                docs@,
            ),
        ),
        Some(Item { inner: ItemEnum::AssocConstItem { type_, default }, name: Some(n), docs, .. }) => Some(
            (
                "    "@ + n@ + ": "@ + type_text(type_) + default_text(
                    match default {
                        Some(d) => Some(d@),
                        None => None,
                    },
                ) + ";\n"@,
                n@,
                docs@,
            ),
        ),
        Some(Item { inner: ItemEnum::MethodItem(m), name: Some(n), docs, .. }) => Some(
            ("    "@ + m.header@ + "fn "@ + n@ + fn_decl_text(m.decl) + ";\n"@, n@, docs@),
        ),
        _ => None,
    }
}

/// Whether a part of a trait can be written out.
pub open spec fn trait_part_writable(index: Seq<(Id, Item)>, id: Id) -> bool {
    match lookup(index, id.0@) {
        Some(Item { inner: ItemEnum::AssocTypeItem { bounds, default }, name: Some(_), .. }) => {
            &&& forall|k: int| 0 <= k < bounds@.len() ==> bound_writable(#[trigger] bounds@[k])
            &&& default matches Some(t) ==> writable(t)
        },
        Some(Item { inner: ItemEnum::AssocConstItem { type_, .. }, name: Some(_), .. }) => writable(type_),
        Some(Item { inner: ItemEnum::MethodItem(m), name: Some(_), .. }) => decl_writable(m.decl),
        _ => true,
    }
}

/// The parts of a trait, in order.
pub open spec fn trait_parts(index: Seq<(Id, Item)>, ids: Seq<Id>) -> Seq<(Seq<char>, Seq<char>, Seq<char>)>
    decreases ids.len(),
{
    if ids.len() == 0 {
        Seq::empty()
    } else {
        let rest = trait_parts(index, ids.drop_last());
        match trait_part(index, ids.last()) {
            Some(e) => rest.push(e),
            None => rest,
        }
    }
}

/// A trait's definition as Rust source.
pub open spec fn trait_def(item: Item, tr: Trait, parts: Seq<(Seq<char>, Seq<char>, Seq<char>)>) -> Seq<char> {
    attrs_text(item.attrs@) + visibility_text(item.visibility) + (if tr.is_unsafe {
        "unsafe "@
    } else {
        Seq::empty()
    }) + (if tr.is_auto {
        "auto "@
    } else {
        Seq::empty()
    }) + "trait "@ + item.name->Some_0@ + " "@ + "{\n"@ + concat(
        parts.map_values(|p: (Seq<char>, Seq<char>, Seq<char>)| p.0),
    ) + "}"@
}

/// The events of a trait: its heading, definition, docs and the docs of its parts.
pub open spec fn trait_events(index: Seq<(Id, Item)>, item: Item, tr: Trait, path: Seq<String>) -> Seq<EventView> {
    let parts = trait_parts(index, tr.items@);
    item_heading("Trait"@, item.visibility, path) + code(trait_def(item, tr, parts)) + docs_par(
        item.docs@,
    ) + (if parts.len() > 0 {
        strong_par("Associated items"@)
    } else {
        Seq::empty()
    }) + flat(
        parts.map_values(|p: (Seq<char>, Seq<char>, Seq<char>)| (p.1, p.2)).map_values(
            |e: (Seq<char>, Seq<char>)| name_par(e),
        ),
    )
}

// ----------------------------------------------------------------------------------------
// impls

/// A part of an impl: its definition and its docs; `None` for an id of something else.
pub open spec fn impl_part(index: Seq<(Id, Item)>, id: Id) -> Option<(Seq<char>, Seq<char>)> {
    match lookup(index, id.0@) {
        Some(Item { inner: ItemEnum::TypedefItem(td), name: Some(n), visibility, docs, .. }) => Some(
            (
                "  "@ + visibility_text(visibility) + "type "@ + n@ + " = "@ + type_text(td.type_)
                    + ";\n"@,
                docs@,
            ),
        ),
        Some(Item { inner: ItemEnum::ConstantItem(c), name: Some(n), visibility, docs, .. }) => Some(
            (
                "  "@ + visibility_text(visibility) + "const "@ + n@ + ": "@ + type_text(c.type_)
                    + " = "@ + c.expr@ + ";\n"@,
                docs@,
            ),
        ),
        Some(
            Item {
                inner: ItemEnum::AssocConstItem { type_, default: Some(d) },
                name: Some(n),
                visibility,
                docs,
                ..
            },
        ) => Some(
            (
                "  "@ + visibility_text(visibility) + "const "@ + n@ + ": "@ + type_text(type_) + " = "@
                    + d@ + ";\n"@,
                docs@,
            ),
        ),
        Some(Item { inner: ItemEnum::MethodItem(m), name: Some(n), visibility, docs, .. }) => Some(
            (
                "  "@ + visibility_text(visibility) + m.header@ + "fn "@ + n@ + fn_decl_text(m.decl),
                docs@,
            ),
        ),
        _ => None,
    }
}

/// Whether a part of an impl can be written out.
pub open spec fn impl_part_writable(index: Seq<(Id, Item)>, id: Id) -> bool {
    match lookup(index, id.0@) {
        Some(Item { inner: ItemEnum::TypedefItem(td), name: Some(_), .. }) => writable(td.type_),
        Some(Item { inner: ItemEnum::ConstantItem(c), name: Some(_), .. }) => writable(c.type_),
        Some(Item { inner: ItemEnum::AssocConstItem { type_, default: Some(_) }, name: Some(_), .. }) => writable(
            type_,
        ),
        Some(Item { inner: ItemEnum::MethodItem(m), name: Some(_), .. }) => decl_writable(m.decl),
        _ => true,
    }
}

/// The parts of an impl, in order.
pub open spec fn impl_parts(index: Seq<(Id, Item)>, ids: Seq<Id>) -> Seq<(Seq<char>, Seq<char>)>
    decreases ids.len(),
{
    if ids.len() == 0 {
        Seq::empty()
    } else {
        let rest = impl_parts(index, ids.drop_last());
        match impl_part(index, ids.last()) {
            Some(e) => rest.push(e),
            None => rest,
        }
    }
}

/// The first line of an impl as Rust source.
pub open spec fn impl_header_text(im: Impl) -> Seq<char> {
    "impl "@ + (match im.trait_ {
        Some(t) => (if im.negative {
            "!"@
        } else {
            Seq::empty()
        }) + type_text(t) + " for "@,
        None => Seq::empty(),
    }) + type_text(im.for_)
}

/// A paragraph of inline code.
pub open spec fn code_par(t: Seq<char>) -> Seq<EventView> {
    seq![
        EventView::Start(TagView::Paragraph),
        EventView::Start(TagView::InlineCode),
        EventView::Text(t),
        EventView::End(TagView::InlineCode),
        EventView::End(TagView::Paragraph),
    ]
}

/// The events of a part of an impl: its definition, and its docs where the impl has docs.
pub open spec fn impl_part_events(p: (Seq<char>, Seq<char>), impl_docs: Seq<char>) -> Seq<EventView> {
    code_par(p.0) + if impl_docs.len() > 0 {
        paragraph(p.1)
    } else {
        Seq::empty()
    }
}

/// The events of an impl: its first line, its docs and its parts.
pub open spec fn impl_events(index: Seq<(Id, Item)>, item: Item, im: Impl) -> Seq<EventView> {
    code_par(impl_header_text(im)) + docs_par(item.docs@) + flat(
        impl_parts(index, im.items@).map_values(|p: (Seq<char>, Seq<char>)| impl_part_events(p, item.docs@)),
    )
}

// ----------------------------------------------------------------------------------------
// modules and single declarations

/// The events of an item that is one declaration: its heading, its definition and docs.
pub open spec fn decl_events(kind: Seq<char>, item: Item, path: Seq<String>, def: Seq<char>) -> Seq<EventView> {
    item_heading(kind, item.visibility, path) + code(def) + docs_par(item.docs@)
}

pub open spec fn typedef_def(item: Item, td: Typedef) -> Seq<char> {
    visibility_text(item.visibility) + "type "@ + item.name->Some_0@ + " = "@ + type_text(td.type_) + ";"@
}

pub open spec fn constant_def(item: Item, c: Constant) -> Seq<char> {
    visibility_text(item.visibility) + "const "@ + item.name->Some_0@ + ": "@ + type_text(c.type_) + " = "@
        + c.expr@ + ";"@
}

pub open spec fn static_def(item: Item, st: Static) -> Seq<char> {
    visibility_text(item.visibility) + "static "@ + (if st.mutable {
        "mut "@
    } else {
        Seq::empty()
    }) + item.name->Some_0@ + ": "@ + type_text(st.type_) + ";"@
}

pub open spec fn function_def(item: Item, f: Function) -> Seq<char> {
    visibility_text(item.visibility) + f.header@ + abi_text(f.abi@) + "fn "@ + item.name->Some_0@
        + fn_decl_text(f.decl)
}

/// The list entry of a child of a module: a link to it where it has a path, else its name.
pub open spec fn child_events(paths: Seq<(Id, ItemSummary)>, index: Seq<(Id, Item)>, id: Id) -> Seq<EventView> {
    seq![EventView::Start(TagView::Item)] + (match lookup(paths, id.0@) {
        Some(sum) => {
            let tag = TagView::InterLink { label: joined(strs_view(sum.path@), "-"@), uppercase: false };
            seq![
                EventView::Start(tag),
                EventView::Text(joined(strs_view(sum.path@), "::"@)),
                EventView::End(tag),
            ]
        },
        None => match lookup(index, id.0@) {
            Some(it) => match it.name {
                Some(n) => seq![EventView::Text(n@)],
                None => Seq::empty(),
            },
            None => Seq::empty(),
        },
    }) + seq![EventView::End(TagView::Item)]
}

/// The events of a module: its heading and the list of its children.
pub open spec fn module_events(paths: Seq<(Id, ItemSummary)>, index: Seq<(Id, Item)>, item: Item, m: Module, path: Seq<String>) -> Seq<EventView> {
    item_heading(
        if m.is_crate {
            "Crate"@
        } else {
            "Module"@
        },
        item.visibility,
        path,
    ) + seq![EventView::Start(TagView::List)] + flat(
        m.items@.map_values(|id: Id| child_events(paths, index, id)),
    ) + seq![EventView::End(TagView::List)]
}

/// The note that the documentation includes private items.
pub open spec fn private_note() -> Seq<char> {
    "Note: This development documentation includes private items which are not accessible from the outside."@
}

/// The events of the crate as a whole: its heading, and a note where private items are
/// included.
pub open spec fn root_events(path: Seq<String>, includes_private: bool) -> Seq<EventView> {
    heading(joined(strs_view(path), "-"@), 1, path[0]@) + if includes_private {
        seq![EventView::Text(private_note())]
    } else {
        Seq::empty()
    }
}

// ----------------------------------------------------------------------------------------
// the crate as a whole

/// Whether an item can be rendered: what its renderer needs of it holds.
pub open spec fn renderable(k: Crate, item: Item) -> bool {
    let has_path = lookup(k.paths@, item.id.0@) is Some;
    match item.inner {
        ItemEnum::ModuleItem(_) => has_path,
        ItemEnum::StructItem(st) => {
            &&& has_path
            &&& item.name is Some
            &&& st.fields@.len() < 1_000_000
            &&& (item.kind == ItemKind::Union || item.kind == ItemKind::Struct)
            &&& struct_writable(k.index@, st)
        },
        ItemEnum::EnumItem(en) => has_path && en.variants@.len() < 1_000_000,
        ItemEnum::ConstantItem(c) => has_path && item.name is Some && writable(c.type_),
        ItemEnum::StaticItem(st) => has_path && item.name is Some && writable(st.type_),
        ItemEnum::FunctionItem(f) => has_path && item.name is Some && decl_writable(f.decl),
        ItemEnum::TraitItem(tr) => {
            &&& has_path
            &&& tr.items@.len() < 1_000_000
            &&& item.name is Some
            &&& forall|i: int|
                0 <= i < tr.items@.len() ==> lookup(k.index@, (#[trigger] tr.items@[i]).0@) is Some
                    && trait_part_writable(k.index@, tr.items@[i])
        },
        ItemEnum::ImplItem(im) => {
            &&& (im.trait_ matches Some(t) ==> writable(t))
            &&& writable(im.for_)
            &&& forall|i: int|
                0 <= i < im.items@.len() ==> lookup(k.index@, (#[trigger] im.items@[i]).0@) is Some
                    && impl_part_writable(k.index@, im.items@[i])
        },
        ItemEnum::TypedefItem(td) => has_path && item.name is Some && writable(td.type_),
        _ => true,
    }
}

/// Whether a whole crate can be rendered: its root has a path, and each item can be
/// rendered.
pub open spec fn crate_renderable(k: Crate) -> bool {
    &&& lookup(k.paths@, k.root.0@) matches Some(sum) && sum.path@.len() > 0
    &&& forall|i: int| 0 <= i < k.index@.len() ==> renderable(k, #[trigger] k.index@[i].1)
}

/// What visiting a part of the documentation writes and what it leaves to visit next;
/// `None` where it writes nothing.
pub open spec fn visit(k: Crate, t: Option<Seq<char>>) -> Option<(Seq<EventView>, Seq<Option<Seq<char>>>)> {
    match t {
        None => Some(
            (root_events(lookup(k.paths@, k.root.0@)->Some_0.path@, k.includes_private), seq![Some(k.root.0@)]),
        ),
        Some(id) => match lookup(k.index@, id) {
            Some(item) => {
                let path = lookup(k.paths@, item.id.0@)->Some_0.path@;
                match item.inner {
                    ItemEnum::ModuleItem(m) => Some(
                        (module_events(k.paths@, k.index@, item, m, path), rev_ids(m.items@)),
                    ),
                    ItemEnum::StructItem(st) => Some(
                        (struct_events(k.index@, item, st, path), rev_ids(st.impls@)),
                    ),
                    ItemEnum::EnumItem(en) => Some((enum_events(k.index@, item, en, path), rev_ids(en.impls@))),
                    ItemEnum::ConstantItem(c) => Some(
                        (decl_events("Constant"@, item, path, constant_def(item, c)), Seq::empty()),
                    ),
                    ItemEnum::StaticItem(st) => Some(
                        (decl_events("Static"@, item, path, static_def(item, st)), Seq::empty()),
                    ),
                    ItemEnum::FunctionItem(f) => Some(
                        (decl_events("Function"@, item, path, function_def(item, f)), Seq::empty()),
                    ),
                    ItemEnum::TraitItem(tr) => Some((trait_events(k.index@, item, tr, path), Seq::empty())),
                    ItemEnum::ImplItem(im) => Some((impl_events(k.index@, item, im), Seq::empty())),
                    ItemEnum::TypedefItem(td) => Some(
                        (decl_events("Typedef"@, item, path, typedef_def(item, td)), Seq::empty()),
                    ),
                    _ => None,
                }
            },
            None => None,
        },
    }
}

/// The next event of the documentation when nothing is written yet and `pending` is left
/// to visit: the first event that visiting the parts, the last one first, writes; with the
/// events written after it and what is left to visit then.
pub open spec fn run(k: Crate, pending: Seq<Option<Seq<char>>>) -> (Option<EventView>, Seq<EventView>, Seq<Option<Seq<char>>>)
    decreases pending.len(),
{
    if pending.len() == 0 {
        (None, Seq::empty(), Seq::empty())
    } else {
        match visit(k, pending.last()) {
            None => run(k, pending.drop_last()),
            Some((evs, pushes)) => (Some(evs[0]), evs.drop_first(), pending.drop_last() + pushes),
        }
    }
}

/// The next event of the documentation, with the events written after it and what is left
/// to visit then.
pub open spec fn next_event(k: Crate, written: Seq<EventView>, pending: Seq<Option<Seq<char>>>) -> (Option<EventView>, Seq<EventView>, Seq<Option<Seq<char>>>) {
    if written.len() > 0 {
        (Some(written[0]), written.drop_first(), pending)
    } else {
        run(k, pending)
    }
}

// ----------------------------------------------------------------------------------------
// the renderer

/// A part of the documentation that is not written out yet.
#[derive(Debug)]
pub enum Traversal {
    /// The crate as a whole: its heading, then its root module.
    Root,
    /// An item, by its id.
    Item(Id),
}

/// The state of writing out a crate's documentation: what is left to visit, and the events
/// written so far.
#[derive(Debug)]
pub struct RustdocAppender {
    /// Started, but not yet finished, parts of the documentation; the last one is next.
    pub stack: Vec<Traversal>,
    /// The events written out.
    pub buffered: Vec<Event>,
}

/// What is left to visit: `None` for the crate as a whole, else the id of an item.
pub open spec fn traversal_view(t: Traversal) -> Option<Seq<char>> {
    match t {
        Traversal::Root => None,
        Traversal::Item(id) => Some(id.0@),
    }
}

/// The ids, last one first, as parts left to visit.
pub open spec fn rev_ids(s: Seq<Id>) -> Seq<Option<Seq<char>>>
    decreases s.len(),
{
    if s.len() == 0 {
        Seq::empty()
    } else {
        rev_ids(s.drop_first()).push(Some(s[0].0@))
    }
}

/// The tag of a heading with `label`, from no source range.
fn header_tag(label: &str, level: i32) -> (t: Tag)
    ensures
        tag_view(t) == (TagView::Header { label: (label@, (0, 0)), level: level as int }),
{
    Tag::Header(Header { label: WithRange(label.to_owned(), SourceRange { start: 0, end: 0 }), level })
}

/// The tag of a block of Rust source.
fn rust_code_tag() -> (t: Tag)
    ensures
        tag_view(t) == rust_code(),
{
    Tag::CodeBlock(
        CodeBlock {
            label: None,
            caption: None,
            language: Some(WithRange("rust".to_owned(), SourceRange { start: 0, end: 0 })),
        },
    )
}

impl RustdocAppender {
    /// Nothing written yet; the crate as a whole to visit.
    pub fn new() -> (r: RustdocAppender)
        ensures
            r.written() == Seq::<EventView>::empty(),
            r.pending() == seq![None::<Seq<char>>],
    {
        let mut stack = Vec::new();
        stack.push(Traversal::Root);
        let r = RustdocAppender { stack, buffered: Vec::new() };
        assert(r.written() =~= Seq::<EventView>::empty());
        assert(r.pending() =~= seq![None::<Seq<char>>]);
        r
    }

    /// The events written so far.
    pub open spec fn written(&self) -> Seq<EventView> {
        events_view(self.buffered@)
    }

    /// What is left to visit, the last one next.
    pub open spec fn pending(&self) -> Seq<Option<Seq<char>>> {
        self.stack@.map_values(|t: Traversal| traversal_view(t))
    }

    fn emit(&mut self, e: Event)
        ensures
            final(self).written() == old(self).written().push(crate::event::event_view(e)),
            final(self).pending() == old(self).pending(),
    {
        self.buffered.push(e);
        proof {
            assert(events_view(self.buffered@) =~= events_view(old(self).buffered@).push(
                crate::event::event_view(e),
            ));
        }
    }

    fn emit_heading(&mut self, label: &str, level: i32, text: String)
        ensures
            final(self).written() == old(self).written() + heading(label@, level as int, text@),
            final(self).pending() == old(self).pending(),
    {
        self.emit(Event::Start(header_tag(label, level)));
        self.emit(Event::Text(text));
        self.emit(Event::End(header_tag(label, level)));
        assert(final(self).written() =~= old(self).written() + heading(label@, level as int, text@));
    }

    fn emit_code(&mut self, def: String)
        ensures
            final(self).written() == old(self).written() + code(def@),
            final(self).pending() == old(self).pending(),
    {
        self.emit(Event::Start(rust_code_tag()));
        self.emit(Event::Text(def));
        self.emit(Event::End(rust_code_tag()));
        assert(final(self).written() =~= old(self).written() + code(def@));
    }

    fn emit_paragraph(&mut self, t: &str)
        ensures
            final(self).written() == old(self).written() + paragraph(t@),
            final(self).pending() == old(self).pending(),
    {
        self.emit(Event::Start(Tag::Paragraph));
        self.emit(Event::Text(t.to_owned()));
        self.emit(Event::End(Tag::Paragraph));
        assert(final(self).written() =~= old(self).written() + paragraph(t@));
    }

    fn emit_docs(&mut self, docs: &str)
        ensures
            final(self).written() == old(self).written() + docs_par(docs@),
            final(self).pending() == old(self).pending(),
    {
        if docs.unicode_len() > 0 {
            self.emit_paragraph(docs);
        } else {
            assert(old(self).written() + docs_par(docs@) =~= old(self).written());
        }
    }

    fn emit_strong(&mut self, t: &str)
        ensures
            final(self).written() == old(self).written() + strong_par(t@),
            final(self).pending() == old(self).pending(),
    {
        self.emit(Event::Start(Tag::Paragraph));
        self.emit(Event::Start(Tag::InlineStrong));
        self.emit(Event::Text(t.to_owned()));
        self.emit(Event::End(Tag::InlineStrong));
        self.emit(Event::End(Tag::Paragraph));
        assert(final(self).written() =~= old(self).written() + strong_par(t@));
    }

    /// Queues the ids to visit, the last one first.
    fn push_items_rev(&mut self, ids: &Vec<Id>)
        ensures
            final(self).written() == old(self).written(),
            final(self).pending() == old(self).pending() + rev_ids(ids@),
    {
        let mut k: usize = ids.len();
        assert(ids@.subrange(k as int, ids@.len() as int) =~= Seq::<Id>::empty());
        while k > 0
            invariant
                k <= ids@.len(),
                self.written() == old(self).written(),
                self.pending() == old(self).pending() + rev_ids(ids@.subrange(k as int, ids@.len() as int)),
            decreases k,
        {
            k = k - 1;
            let t = Traversal::Item(Id(ids[k].0.as_str().to_owned()));
            let ghost before = self.stack@;
            self.stack.push(t);
            proof {
                let sub = ids@.subrange(k as int, ids@.len() as int);
                assert(sub.drop_first() =~= ids@.subrange(k + 1, ids@.len() as int));
                assert(self.stack@.map_values(|t: Traversal| traversal_view(t)) =~= before.map_values(
                    |t: Traversal| traversal_view(t),
                ).push(traversal_view(t)));
            }
        }
        assert(ids@.subrange(0, ids@.len() as int) =~= ids@);
    }

    /// The heading of an item of kind `kind`.
    pub fn append_header_for_inner_item(&mut self, kind: &str, item: &Item, summary: &ItemSummary)
        ensures
            final(self).written() == old(self).written() + item_heading(kind@, item.visibility, summary.path@),
            final(self).pending() == old(self).pending(),
    {
        let label = Self::label_for_item_at_path(&summary.path);
        let meta = Self::codify_visibility(&item.visibility);
        let name = Self::name_for_item_at_path(&summary.path);
        let mut text = kind.to_owned();
        put(&mut text, " ");
        put(&mut text, meta.as_str());
        put(&mut text, name.as_str());
        self.emit_heading(label.as_str(), 2, text);
    }

    /// The attributes of an item, each followed by a line break.
    fn attrs(attrs: &Vec<String>) -> (r: String)
        ensures
            r@ == attrs_text(attrs@),
    {
        let mut out = String::new();
        let mut i: usize = 0;
        while i < attrs.len()
            invariant
                i <= attrs@.len(),
                out@ == attrs_text(attrs@.take(i as int)),
            decreases attrs@.len() - i,
        {
            put(&mut out, attrs[i].as_str());
            put(&mut out, "\n");
            assert(attrs@.take(i + 1).drop_last() =~= attrs@.take(i as int));
            i = i + 1;
        }
        assert(attrs@.take(i as int) =~= attrs@);
        out
    }

    /// Writes out a struct or union: its heading, its definition, its docs and the docs of
    /// its named fields; its impls are visited next.
    #[verifier::rlimit(60)]
    pub fn struct_(&mut self, krate: &Crate, item: &Item, struct_: &Struct)
        requires
            lookup(krate.paths@, item.id.0@) is Some,
            item.name is Some,
            struct_.fields@.len() < 1_000_000,
            item.kind == ItemKind::Union || item.kind == ItemKind::Struct,
            struct_writable(krate.index@, *struct_),
        ensures
            final(self).written() == old(self).written() + struct_events(
                krate.index@,
                *item,
                *struct_,
                lookup(krate.paths@, item.id.0@)->Some_0.path@,
            ),
            final(self).pending() == old(self).pending() + rev_ids(struct_.impls@),
    {
        let ghost index = krate.index@;
        let ghost fields = struct_.fields@;
        let ghost tuple = struct_.struct_type == StructType::Tuple;
        let summary = find(&krate.paths, &item.id).unwrap();
        let name = item.name.as_ref().unwrap();
        let meta = Self::codify_visibility(&item.visibility);
        let mut def = Self::attrs(&item.attrs);
        let is_union = item.kind == ItemKind::Union;
        if is_union {
            self.append_header_for_inner_item("Union", item, summary);
        } else {
            self.append_header_for_inner_item("Struct", item, summary);
        }
        let ghost w0 = self.written();
        put(&mut def, meta.as_str());
        if is_union {
            put(&mut def, "union");
        } else {
            put(&mut def, "struct");
        }
        put(&mut def, " ");
        put(&mut def, name.as_str());
        match struct_.struct_type {
            StructType::Plain => put(&mut def, "{\n"),
            StructType::Tuple => put(&mut def, "(\n"),
            StructType::Unit => {},
        }
        let ghost head = def@;
        // the named fields: name, type and docs
        let mut entries: Vec<(String, String, String)> = Vec::new();
        let mut i: usize = 0;
        while i < struct_.fields.len()
            invariant
                i <= fields.len(),
                fields == struct_.fields@,
                index == krate.index@,
                tuple == (struct_.struct_type == StructType::Tuple),
                struct_writable(index, *struct_),
                ({
                    let es = field_entries(index, fields.take(i as int));
                    &&& def@ == head + concat(
                        es.map_values(|e: (Seq<char>, Visibility, Type, Seq<char>)| field_line(e, tuple)),
                    )
                    &&& entries@.len() == es.len()
                    &&& forall|k: int|
                        0 <= k < es.len() ==> {
                            &&& (#[trigger] entries@[k]).0@ == es[k].0
                            &&& entries@[k].1@ == type_text(es[k].2)
                            &&& entries@[k].2@ == es[k].3
                        }
                }),
            decreases fields.len() - i,
        {
            let ghost es = field_entries(index, fields.take(i as int));
            assert(fields.take(i + 1).drop_last() =~= fields.take(i as int));
            assert(fields.take(i + 1).last() == fields[i as int]);
            assert(lookup(index, fields[i as int].0@) is Some);
            match find(&krate.index, &struct_.fields[i]) {
                Some(Item { inner: ItemEnum::StructFieldItem(field), name: Some(fname), visibility, docs, .. }) => {
                    let ghost e = (fname@, *visibility, *field, docs@);
                    assert(field_entry(index, fields[i as int]) == Some(e));
                    let vis = Self::codify_visibility(visibility);
                    let tname = Self::codify_type(krate, field);
                    put(&mut def, "    ");
                    put(&mut def, vis.as_str());
                    if struct_.struct_type != StructType::Tuple {
                        put(&mut def, fname.as_str());
                        put(&mut def, ": ");
                    }
                    put(&mut def, tname.as_str());
                    put(&mut def, ",\n");
                    entries.push((fname.as_str().to_owned(), tname, docs.as_str().to_owned()));
                    proof {
                        let f = |e: (Seq<char>, Visibility, Type, Seq<char>)| field_line(e, tuple);
                        assert(es.push(e).map_values(f) =~= es.map_values(f).push(f(e)));
                        assert(es.map_values(f).push(f(e)).drop_last() =~= es.map_values(f));
                    }
                },
                _ => {
                    assert(field_entry(index, fields[i as int]) is None);
                },
            }
            i = i + 1;
        }
        assert(fields.take(i as int) =~= fields);
        let ghost es = field_entries(index, fields);
        if struct_.fields_stripped {
            put(&mut def, "    // some fields omitted\n");
        }
        match struct_.struct_type {
            StructType::Plain => put(&mut def, "}"),
            StructType::Tuple => put(&mut def, ")"),
            StructType::Unit => put(&mut def, ";"),
        }
        assert(def@ == struct_def(*item, *struct_, es));
        self.emit_code(def);
        self.emit_docs(item.docs.as_str());
        if entries.len() > 0 {
            self.emit_strong("Fields");
        }
        let ghost w1 = self.written();
        assert(w1 == w0 + code(struct_def(*item, *struct_, es)) + docs_par(item.docs@) + (if es.len() > 0 {
            strong_par("Fields"@)
        } else {
            Seq::empty()
        }));
        let mut j: usize = 0;
        while j < entries.len()
            invariant
                j <= entries@.len(),
                entries@.len() == es.len(),
                forall|k: int|
                    0 <= k < es.len() ==> {
                        &&& (#[trigger] entries@[k]).0@ == es[k].0
                        &&& entries@[k].1@ == type_text(es[k].2)
                        &&& entries@[k].2@ == es[k].3
                    },
                self.written() == w1 + flat(
                    es.take(j as int).map_values(|e: (Seq<char>, Visibility, Type, Seq<char>)| field_par(e)),
                ),
                self.pending() == old(self).pending(),
            decreases entries@.len() - j,
        {
            let ghost before = self.written();
            let (fname, tname, docs) = &entries[j];
            self.emit(Event::Start(Tag::Paragraph));
            self.emit(Event::Start(Tag::InlineCode));
            self.emit(Event::Text(fname.as_str().to_owned()));
            self.emit(Event::Text(": ".to_owned()));
            self.emit(Event::Text(tname.as_str().to_owned()));
            self.emit(Event::End(Tag::InlineCode));
            self.emit(Event::Text("  ".to_owned()));
            self.emit(Event::Text(docs.as_str().to_owned()));
            self.emit(Event::End(Tag::Paragraph));
            proof {
                let f = |e: (Seq<char>, Visibility, Type, Seq<char>)| field_par(e);
                assert(es.take(j + 1).map_values(f) =~= es.take(j as int).map_values(f).push(f(es[j as int])));
                assert(es.take(j + 1).map_values(f).drop_last() =~= es.take(j as int).map_values(f));
                assert(self.written() =~= before + f(es[j as int]));
            }
            j = j + 1;
        }
        assert(es.take(j as int) =~= es);
        self.push_items_rev(&struct_.impls);
    }

    /// The paragraphs that document parts by their names.
    fn emit_name_pars(&mut self, entries: &Vec<(String, String)>, es: Ghost<Seq<(Seq<char>, Seq<char>)>>)
        requires
            entries@.len() == es@.len(),
            forall|k: int|
                0 <= k < es@.len() ==> (#[trigger] entries@[k]).0@ == es@[k].0 && entries@[k].1@
                    == es@[k].1,
        ensures
            final(self).written() == old(self).written() + flat(
                es@.map_values(|e: (Seq<char>, Seq<char>)| name_par(e)),
            ),
            final(self).pending() == old(self).pending(),
    {
        let ghost es = es@;
        let mut j: usize = 0;
        while j < entries.len()
            invariant
                j <= entries@.len(),
                entries@.len() == es.len(),
                forall|k: int|
                    0 <= k < es.len() ==> (#[trigger] entries@[k]).0@ == es[k].0 && entries@[k].1@
                        == es[k].1,
                self.written() == old(self).written() + flat(
                    es.take(j as int).map_values(|e: (Seq<char>, Seq<char>)| name_par(e)),
                ),
                self.pending() == old(self).pending(),
            decreases entries@.len() - j,
        {
            let ghost before = self.written();
            let (n, docs) = &entries[j];
            self.emit(Event::Start(Tag::Paragraph));
            self.emit(Event::Start(Tag::InlineCode));
            self.emit(Event::Text(n.as_str().to_owned()));
            self.emit(Event::End(Tag::InlineCode));
            self.emit(Event::Text("  ".to_owned()));
            self.emit(Event::Text(docs.as_str().to_owned()));
            self.emit(Event::End(Tag::Paragraph));
            proof {
                let f = |e: (Seq<char>, Seq<char>)| name_par(e);
                assert(es.take(j + 1).map_values(f) =~= es.take(j as int).map_values(f).push(f(es[j as int])));
                assert(es.take(j + 1).map_values(f).drop_last() =~= es.take(j as int).map_values(f));
                assert(self.written() =~= before + f(es[j as int]));
            }
            j = j + 1;
        }
        assert(es.take(j as int) =~= es);
    }

    /// Writes out an enum: its heading, its definition, its docs and the docs of its
    /// variants; its impls are visited next.
    #[verifier::rlimit(30)]
    pub fn enum_(&mut self, krate: &Crate, item: &Item, enum_: &Enum)
        requires
            lookup(krate.paths@, item.id.0@) is Some,
            enum_.variants@.len() < 1_000_000,
        ensures
            final(self).written() == old(self).written() + enum_events(
                krate.index@,
                *item,
                *enum_,
                lookup(krate.paths@, item.id.0@)->Some_0.path@,
            ),
            final(self).pending() == old(self).pending() + rev_ids(enum_.impls@),
    {
        let ghost index = krate.index@;
        let ghost vs = enum_.variants@;
        let summary = find(&krate.paths, &item.id).unwrap();
        let meta = Self::codify_visibility(&item.visibility);
        let enum_name = Self::name_for_item_at_path(&summary.path);
        let mut def = Self::attrs(&item.attrs);
        put(&mut def, meta.as_str());
        put(&mut def, "enum ");
        put(&mut def, enum_name.as_str());
        put(&mut def, " {\n");
        self.append_header_for_inner_item("Enum", item, summary);
        let ghost w0 = self.written();
        let ghost head = def@;
        let mut entries: Vec<(String, String)> = Vec::new();
        let mut i: usize = 0;
        while i < enum_.variants.len()
            invariant
                i <= vs.len(),
                vs == enum_.variants@,
                index == krate.index@,
                ({
                    let es = variant_entries(index, vs.take(i as int));
                    &&& def@ == head + concat(
                        es.map_values(|e: (Seq<char>, Seq<char>)| "    "@ + e.0 + ",\n"@),
                    )
                    &&& entries@.len() == es.len()
                    &&& forall|k: int|
                        0 <= k < es.len() ==> (#[trigger] entries@[k]).0@ == es[k].0
                            && entries@[k].1@ == es[k].1
                }),
            decreases vs.len() - i,
        {
            let ghost es = variant_entries(index, vs.take(i as int));
            assert(vs.take(i + 1).drop_last() =~= vs.take(i as int));
            assert(vs.take(i + 1).last() == vs[i as int]);
            match find(&krate.index, &enum_.variants[i]) {
                Some(Item { inner: ItemEnum::VariantItem(_), name: Some(vname), docs, .. }) => {
                    let ghost e = (vname@, docs@);
                    assert(variant_entry(index, vs[i as int]) == Some(e));
                    put(&mut def, "    ");
                    put(&mut def, vname.as_str());
                    put(&mut def, ",\n");
                    entries.push((vname.as_str().to_owned(), docs.as_str().to_owned()));
                    proof {
                        let f = |e: (Seq<char>, Seq<char>)| "    "@ + e.0 + ",\n"@;
                        assert(es.push(e).map_values(f) =~= es.map_values(f).push(f(e)));
                        assert(es.map_values(f).push(f(e)).drop_last() =~= es.map_values(f));
                    }
                },
                _ => {
                    assert(variant_entry(index, vs[i as int]) is None);
                },
            }
            i = i + 1;
        }
        assert(vs.take(i as int) =~= vs);
        let ghost es = variant_entries(index, vs);
        if enum_.variants_stripped {
            put(&mut def, "    // some variants omitted\n");
        }
        put(&mut def, "}");
        assert(def@ == enum_def(*item, *enum_, summary.path@, es));
        self.emit_code(def);
        self.emit_docs(item.docs.as_str());
        if entries.len() > 0 {
            self.emit_strong("Variants");
        }
        self.emit_name_pars(&entries, Ghost(es));
        self.push_items_rev(&enum_.impls);
    }

    fn codify_bounds(krate: &Crate, bounds: &Vec<GenericBound>) -> (r: String)
        requires
            forall|k: int| 0 <= k < bounds@.len() ==> bound_writable(#[trigger] bounds@[k]),
        ensures
            r@ == bounds_text(bounds@),
    {
        if bounds.len() == 0 {
            return String::new();
        }
        let mut texts: Vec<String> = Vec::new();
        let mut i: usize = 0;
        while i < bounds.len()
            invariant
                i <= bounds@.len(),
                forall|k: int| 0 <= k < bounds@.len() ==> bound_writable(#[trigger] bounds@[k]),
                strs_view(texts@) =~= bounds@.take(i as int).map_values(|x: GenericBound| bound_text(x)),
            decreases bounds@.len() - i,
        {
            let t = Self::codify_bound(krate, &bounds[i]);
            let ghost before = texts@;
            texts.push(t);
            proof {
                let f = |x: GenericBound| bound_text(x);
                assert(strs_view(texts@) =~= strs_view(before).push(bound_text(bounds@[i as int])));
                assert(bounds@.take(i + 1).map_values(f) =~= bounds@.take(i as int).map_values(f).push(
                    f(bounds@[i as int]),
                ));
            }
            i = i + 1;
        }
        assert(bounds@.take(i as int) =~= bounds@);
        let joined_bounds = Self::join_path(&texts, " + ");
        let mut out = ": ".to_owned();
        put(&mut out, joined_bounds.as_str());
        out
    }

    /// Writes out a trait: its heading, its definition with its associated types,
    /// constants and methods, its docs and the docs of those parts.
    #[verifier::rlimit(60)]
    pub fn trait_(&mut self, krate: &Crate, item: &Item, trait_: &Trait)
        requires
            lookup(krate.paths@, item.id.0@) is Some,
            trait_.items@.len() < 1_000_000,
            item.name is Some,
            forall|i: int|
                0 <= i < trait_.items@.len() ==> lookup(krate.index@, (#[trigger] trait_.items@[i]).0@) is Some
                    && trait_part_writable(krate.index@, trait_.items@[i]),
        ensures
            final(self).written() == old(self).written() + trait_events(
                krate.index@,
                *item,
                *trait_,
                lookup(krate.paths@, item.id.0@)->Some_0.path@,
            ),
            final(self).pending() == old(self).pending(),
    {
        let ghost index = krate.index@;
        let ghost ids = trait_.items@;
        let summary = find(&krate.paths, &item.id).unwrap();
        let vis = Self::codify_visibility(&item.visibility);
        let trait_name = item.name.as_ref().unwrap();
        let mut def = Self::attrs(&item.attrs);
        put(&mut def, vis.as_str());
        if trait_.is_unsafe {
            put(&mut def, "unsafe ");
        }
        if trait_.is_auto {
            put(&mut def, "auto ");
        }
        put(&mut def, "trait ");
        put(&mut def, trait_name.as_str());
        put(&mut def, " ");
        self.append_header_for_inner_item("Trait", item, summary);
        put(&mut def, "{\n");
        let ghost head = def@;
        let mut entries: Vec<(String, String)> = Vec::new();
        let mut i: usize = 0;
        while i < trait_.items.len()
            invariant
                i <= ids.len(),
                ids == trait_.items@,
                index == krate.index@,
                forall|i: int|
                    0 <= i < ids.len() ==> lookup(index, (#[trigger] ids[i]).0@) is Some
                        && trait_part_writable(index, ids[i]),
                ({
                    let ps = trait_parts(index, ids.take(i as int));
                    &&& def@ == head + concat(ps.map_values(|p: (Seq<char>, Seq<char>, Seq<char>)| p.0))
                    &&& entries@.len() == ps.len()
                    &&& forall|k: int|
                        0 <= k < ps.len() ==> (#[trigger] entries@[k]).0@ == ps[k].1
                            && entries@[k].1@ == ps[k].2
                }),
            decreases ids.len() - i,
        {
            let ghost ps = trait_parts(index, ids.take(i as int));
            assert(ids.take(i + 1).drop_last() =~= ids.take(i as int));
            assert(ids.take(i + 1).last() == ids[i as int]);
            assert(trait_part_writable(index, ids[i as int]));
            let ghost def0 = def@;
            let part = find(&krate.index, &trait_.items[i]);
            let found = match part {
                Some(Item { inner: ItemEnum::AssocTypeItem { bounds, default }, name: Some(n), docs, .. }) => {
                    put(&mut def, "    type ");
                    put(&mut def, n.as_str());
                    let b = Self::codify_bounds(krate, bounds);
                    put(&mut def, b.as_str());
                    match default {
                        Some(t) => {
                            put(&mut def, " = ");
                            let ts = Self::codify_type(krate, t);
                            put(&mut def, ts.as_str());
                        },
                        None => {},
                    }
                    put(&mut def, ";\n");
                    Some((n, docs))
                },
                Some(Item { inner: ItemEnum::AssocConstItem { type_, default }, name: Some(n), docs, .. }) => {
                    put(&mut def, "    ");
                    put(&mut def, n.as_str());
                    put(&mut def, ": ");
                    let ts = Self::codify_type(krate, type_);
                    put(&mut def, ts.as_str());
                    match default {
                        Some(d) => {
                            put(&mut def, " = ");
                            put(&mut def, d.as_str());
                        },
                        None => {},
                    }
                    put(&mut def, ";\n");
                    Some((n, docs))
                },
                Some(Item { inner: ItemEnum::MethodItem(m), name: Some(n), docs, .. }) => {
                    put(&mut def, "    ");
                    put(&mut def, m.header.as_str());
                    put(&mut def, "fn ");
                    put(&mut def, n.as_str());
                    let d = Self::codify_fn_decl(krate, &m.decl);
                    put(&mut def, d.as_str());
                    put(&mut def, ";\n");
                    Some((n, docs))
                },
                _ => None,
            };
            match found {
                Some((n, docs)) => {
                    let ghost p = trait_part(index, ids[i as int])->Some_0;
                    assert(trait_part(index, ids[i as int]) is Some);
                    assert(def@ == def0 + p.0);
                    entries.push((n.as_str().to_owned(), docs.as_str().to_owned()));
                    proof {
                        let f = |p: (Seq<char>, Seq<char>, Seq<char>)| p.0;
                        assert(ps.push(p).map_values(f) =~= ps.map_values(f).push(f(p)));
                        assert(ps.map_values(f).push(f(p)).drop_last() =~= ps.map_values(f));
                    }
                },
                None => {
                    assert(trait_part(index, ids[i as int]) is None);
                },
            }
            i = i + 1;
        }
        assert(ids.take(i as int) =~= ids);
        let ghost ps = trait_parts(index, ids);
        put(&mut def, "}");
        assert(def@ == trait_def(*item, *trait_, ps));
        self.emit_code(def);
        self.emit_docs(item.docs.as_str());
        if entries.len() > 0 {
            self.emit_strong("Associated items");
        }
        let ghost es = ps.map_values(|p: (Seq<char>, Seq<char>, Seq<char>)| (p.1, p.2));
        self.emit_name_pars(&entries, Ghost(es));
    }

    fn emit_code_par(&mut self, t: String)
        ensures
            final(self).written() == old(self).written() + code_par(t@),
            final(self).pending() == old(self).pending(),
    {
        self.emit(Event::Start(Tag::Paragraph));
        self.emit(Event::Start(Tag::InlineCode));
        self.emit(Event::Text(t));
        self.emit(Event::End(Tag::InlineCode));
        self.emit(Event::End(Tag::Paragraph));
        assert(final(self).written() =~= old(self).written() + code_par(t@));
    }

    /// Writes out an impl: its first line, its docs, and the definition of each of its
    /// parts, each with its docs where the impl has docs.
    #[verifier::rlimit(30)]
    pub fn impl_(&mut self, krate: &Crate, item: &Item, impl_: &Impl)
        requires
            impl_.trait_ matches Some(t) ==> writable(t),
            writable(impl_.for_),
            forall|i: int|
                0 <= i < impl_.items@.len() ==> lookup(krate.index@, (#[trigger] impl_.items@[i]).0@) is Some
                    && impl_part_writable(krate.index@, impl_.items@[i]),
        ensures
            final(self).written() == old(self).written() + impl_events(krate.index@, *item, *impl_),
            final(self).pending() == old(self).pending(),
    {
        let ghost index = krate.index@;
        let ghost ids = impl_.items@;
        let mut impl_header = "impl ".to_owned();
        match &impl_.trait_ {
            Some(t) => {
                if impl_.negative {
                    put(&mut impl_header, "!");
                }
                let ts = Self::codify_type(krate, t);
                put(&mut impl_header, ts.as_str());
                put(&mut impl_header, " for ");
            },
            None => {},
        }
        let fs = Self::codify_type(krate, &impl_.for_);
        put(&mut impl_header, fs.as_str());
        assert(impl_header@ == impl_header_text(*impl_));
        self.emit_code_par(impl_header);
        self.emit_docs(item.docs.as_str());
        let ghost w0 = self.written();
        assert(w0 == old(self).written() + code_par(impl_header_text(*impl_)) + docs_par(item.docs@));
        let mut parts: Vec<(String, String)> = Vec::new();
        let mut i: usize = 0;
        while i < impl_.items.len()
            invariant
                i <= ids.len(),
                ids == impl_.items@,
                index == krate.index@,
                forall|i: int|
                    0 <= i < ids.len() ==> lookup(index, (#[trigger] ids[i]).0@) is Some
                        && impl_part_writable(index, ids[i]),
                ({
                    let ps = impl_parts(index, ids.take(i as int));
                    &&& parts@.len() == ps.len()
                    &&& forall|k: int|
                        0 <= k < ps.len() ==> (#[trigger] parts@[k]).0@ == ps[k].0
                            && parts@[k].1@ == ps[k].1
                }),
            decreases ids.len() - i,
        {
            assert(ids.take(i + 1).drop_last() =~= ids.take(i as int));
            assert(ids.take(i + 1).last() == ids[i as int]);
            assert(impl_part_writable(index, ids[i as int]));
            let found = match find(&krate.index, &impl_.items[i]) {
                Some(Item { inner: ItemEnum::TypedefItem(td), name: Some(n), visibility, docs, .. }) => {
                    let mut def = "  ".to_owned();
                    let meta = Self::codify_visibility(visibility);
                    put(&mut def, meta.as_str());
                    put(&mut def, "type ");
                    put(&mut def, n.as_str());
                    put(&mut def, " = ");
                    let ts = Self::codify_type(krate, &td.type_);
                    put(&mut def, ts.as_str());
                    put(&mut def, ";\n");
                    Some((def, docs))
                },
                Some(Item { inner: ItemEnum::ConstantItem(c), name: Some(n), visibility, docs, .. }) => {
                    let mut def = "  ".to_owned();
                    let meta = Self::codify_visibility(visibility);
                    put(&mut def, meta.as_str());
                    put(&mut def, "const ");
                    put(&mut def, n.as_str());
                    put(&mut def, ": ");
                    let ts = Self::codify_type(krate, &c.type_);
                    put(&mut def, ts.as_str());
                    put(&mut def, " = ");
                    put(&mut def, c.expr.as_str());
                    put(&mut def, ";\n");
                    Some((def, docs))
                },
                Some(
                    Item {
                        inner: ItemEnum::AssocConstItem { type_, default: Some(d) },
                        name: Some(n),
                        visibility,
                        docs,
                        ..
                    },
                ) => {
                    let mut def = "  ".to_owned();
                    let meta = Self::codify_visibility(visibility);
                    put(&mut def, meta.as_str());
                    put(&mut def, "const ");
                    put(&mut def, n.as_str());
                    put(&mut def, ": ");
                    let ts = Self::codify_type(krate, type_);
                    put(&mut def, ts.as_str());
                    put(&mut def, " = ");
                    put(&mut def, d.as_str());
                    put(&mut def, ";\n");
                    Some((def, docs))
                },
                Some(Item { inner: ItemEnum::MethodItem(m), name: Some(n), visibility, docs, .. }) => {
                    let mut def = "  ".to_owned();
                    let meta = Self::codify_visibility(visibility);
                    put(&mut def, meta.as_str());
                    put(&mut def, m.header.as_str());
                    put(&mut def, "fn ");
                    put(&mut def, n.as_str());
                    let ds = Self::codify_fn_decl(krate, &m.decl);
                    put(&mut def, ds.as_str());
                    Some((def, docs))
                },
                _ => None,
            };
            match found {
                Some((def, docs)) => {
                    assert(impl_part(index, ids[i as int]) == Some((def@, docs@)));
                    parts.push((def, docs.as_str().to_owned()));
                },
                None => {
                    assert(impl_part(index, ids[i as int]) is None);
                },
            }
            i = i + 1;
        }
        assert(ids.take(i as int) =~= ids);
        let ghost ps = impl_parts(index, ids);
        let has_docs = item.docs.unicode_len() > 0;
        let mut j: usize = 0;
        while j < parts.len()
            invariant
                j <= parts@.len(),
                parts@.len() == ps.len(),
                forall|k: int|
                    0 <= k < ps.len() ==> (#[trigger] parts@[k]).0@ == ps[k].0 && parts@[k].1@ == ps[k].1,
                has_docs == (item.docs@.len() > 0),
                self.written() == w0 + flat(
                    ps.take(j as int).map_values(|p: (Seq<char>, Seq<char>)| impl_part_events(p, item.docs@)),
                ),
                self.pending() == old(self).pending(),
            decreases parts@.len() - j,
        {
            let ghost before = self.written();
            let (def, docs) = &parts[j];
            self.emit_code_par(def.as_str().to_owned());
            if has_docs {
                self.emit_paragraph(docs.as_str());
            }
            proof {
                let f = |p: (Seq<char>, Seq<char>)| impl_part_events(p, item.docs@);
                assert(ps.take(j + 1).map_values(f) =~= ps.take(j as int).map_values(f).push(f(ps[j as int])));
                assert(ps.take(j + 1).map_values(f).drop_last() =~= ps.take(j as int).map_values(f));
                assert(self.written() =~= before + f(ps[j as int]));
            }
            j = j + 1;
        }
        assert(ps.take(j as int) =~= ps);
        assert(self.written() =~= old(self).written() + impl_events(krate.index@, *item, *impl_));
    }

    /// Writes out a type alias.
    pub fn typedef(&mut self, krate: &Crate, item: &Item, typedef: &Typedef)
        requires
            lookup(krate.paths@, item.id.0@) is Some,
            item.name is Some,
            writable(typedef.type_),
        ensures
            final(self).written() == old(self).written() + decl_events(
                "Typedef"@,
                *item,
                lookup(krate.paths@, item.id.0@)->Some_0.path@,
                typedef_def(*item, *typedef),
            ),
            final(self).pending() == old(self).pending(),
    {
        let summary = find(&krate.paths, &item.id).unwrap();
        let name = item.name.as_ref().unwrap();
        self.append_header_for_inner_item("Typedef", item, summary);
        let mut def = Self::codify_visibility(&item.visibility);
        put(&mut def, "type ");
        put(&mut def, name.as_str());
        put(&mut def, " = ");
        let ts = Self::codify_type(krate, &typedef.type_);
        put(&mut def, ts.as_str());
        put(&mut def, ";");
        self.emit_code(def);
        self.emit_docs(item.docs.as_str());
    }

    /// Writes out a constant.
    pub fn constant(&mut self, krate: &Crate, item: &Item, constant: &Constant)
        requires
            lookup(krate.paths@, item.id.0@) is Some,
            item.name is Some,
            writable(constant.type_),
        ensures
            final(self).written() == old(self).written() + decl_events(
                "Constant"@,
                *item,
                lookup(krate.paths@, item.id.0@)->Some_0.path@,
                constant_def(*item, *constant),
            ),
            final(self).pending() == old(self).pending(),
    {
        let summary = find(&krate.paths, &item.id).unwrap();
        self.append_header_for_inner_item("Constant", item, summary);
        let mut def = Self::codify_visibility(&item.visibility);
        put(&mut def, "const ");
        let name = item.name.as_ref().unwrap();
        put(&mut def, name.as_str());
        put(&mut def, ": ");
        let ts = Self::codify_type(krate, &constant.type_);
        put(&mut def, ts.as_str());
        put(&mut def, " = ");
        put(&mut def, constant.expr.as_str());
        put(&mut def, ";");
        self.emit_code(def);
        self.emit_docs(item.docs.as_str());
    }

    /// Writes out a static.
    pub fn static_(&mut self, krate: &Crate, item: &Item, constant: &Static)
        requires
            lookup(krate.paths@, item.id.0@) is Some,
            item.name is Some,
            writable(constant.type_),
        ensures
            final(self).written() == old(self).written() + decl_events(
                "Static"@,
                *item,
                lookup(krate.paths@, item.id.0@)->Some_0.path@,
                static_def(*item, *constant),
            ),
            final(self).pending() == old(self).pending(),
    {
        let summary = find(&krate.paths, &item.id).unwrap();
        self.append_header_for_inner_item("Static", item, summary);
        let mut def = Self::codify_visibility(&item.visibility);
        put(&mut def, "static ");
        if constant.mutable {
            put(&mut def, "mut ");
        }
        let name = item.name.as_ref().unwrap();
        put(&mut def, name.as_str());
        put(&mut def, ": ");
        let ts = Self::codify_type(krate, &constant.type_);
        put(&mut def, ts.as_str());
        put(&mut def, ";");
        self.emit_code(def);
        self.emit_docs(item.docs.as_str());
    }

    /// Writes out a function: its heading, its signature and its docs.
    pub fn function(&mut self, krate: &Crate, item: &Item, function: &Function)
        requires
            lookup(krate.paths@, item.id.0@) is Some,
            item.name is Some,
            decl_writable(function.decl),
        ensures
            final(self).written() == old(self).written() + decl_events(
                "Function"@,
                *item,
                lookup(krate.paths@, item.id.0@)->Some_0.path@,
                function_def(*item, *function),
            ),
            final(self).pending() == old(self).pending(),
    {
        let summary = find(&krate.paths, &item.id).unwrap();
        let name = item.name.as_ref().unwrap();
        self.append_header_for_inner_item("Function", item, summary);
        let mut def = Self::codify_visibility(&item.visibility);
        let abi = Self::codify_abi(function.abi.as_str());
        let signature = Self::codify_fn_decl(krate, &function.decl);
        put(&mut def, function.header.as_str());
        put(&mut def, abi.as_str());
        put(&mut def, "fn ");
        put(&mut def, name.as_str());
        put(&mut def, signature.as_str());
        self.emit_code(def);
        self.emit_docs(item.docs.as_str());
    }

    /// The label of the heading of the item `id`, where it has a path.
    pub fn label_for_id(path: &Id, krate: &Crate) -> (r: Option<String>)
        ensures
            match r {
                Some(l) => lookup(krate.paths@, path.0@) matches Some(sum) && l@ == joined(
                    strs_view(sum.path@),
                    "-"@,
                ),
                None => lookup(krate.paths@, path.0@) is None,
            },
    {
        match find(&krate.paths, path) {
            Some(summary) => Some(Self::label_for_item_at_path(&summary.path)),
            None => None,
        }
    }

    /// Writes out a module: its heading and a list of its children, linked where they
    /// have a path; its children are visited next, in order.
    #[verifier::rlimit(30)]
    pub fn module(&mut self, krate: &Crate, item: &Item, module: &Module)
        requires
            lookup(krate.paths@, item.id.0@) is Some,
        ensures
            final(self).written() == old(self).written() + module_events(
                krate.paths@,
                krate.index@,
                *item,
                *module,
                lookup(krate.paths@, item.id.0@)->Some_0.path@,
            ),
            final(self).pending() == old(self).pending() + rev_ids(module.items@),
    {
        let ghost paths = krate.paths@;
        let ghost index = krate.index@;
        let ghost ids = module.items@;
        let summary = find(&krate.paths, &item.id).unwrap();
        if module.is_crate {
            self.append_header_for_inner_item("Crate", item, summary);
        } else {
            self.append_header_for_inner_item("Module", item, summary);
        }
        self.emit(Event::Start(Tag::List));
        let ghost w0 = self.written();
        let mut i: usize = 0;
        while i < module.items.len()
            invariant
                i <= ids.len(),
                ids == module.items@,
                paths == krate.paths@,
                index == krate.index@,
                self.written() == w0 + flat(
                    ids.take(i as int).map_values(|id: Id| child_events(paths, index, id)),
                ),
                self.pending() == old(self).pending(),
            decreases ids.len() - i,
        {
            let ghost before = self.written();
            let child = &module.items[i];
            self.emit(Event::Start(Tag::Item));
            match find(&krate.paths, child) {
                Some(target) => {
                    let child_label = Self::label_for_item_at_path(&target.path);
                    let item_name = Self::name_for_item_at_path(&target.path);
                    self.emit(
                        Event::Start(
                            Tag::InterLink(InterLink { label: child_label.as_str().to_owned(), uppercase: false }),
                        ),
                    );
                    self.emit(Event::Text(item_name));
                    self.emit(Event::End(Tag::InterLink(InterLink { label: child_label, uppercase: false })));
                },
                None => match find(&krate.index, child) {
                    Some(Item { name: Some(n), .. }) => {
                        self.emit(Event::Text(n.as_str().to_owned()));
                    },
                    _ => {},
                },
            }
            self.emit(Event::End(Tag::Item));
            proof {
                let f = |id: Id| child_events(paths, index, id);
                assert(ids.take(i + 1).map_values(f) =~= ids.take(i as int).map_values(f).push(f(ids[i as int])));
                assert(ids.take(i + 1).map_values(f).drop_last() =~= ids.take(i as int).map_values(f));
                assert(self.written() =~= before + f(ids[i as int]));
            }
            i = i + 1;
        }
        assert(ids.take(i as int) =~= ids);
        self.emit(Event::End(Tag::List));
        assert(self.written() =~= old(self).written() + module_events(
            paths,
            index,
            *item,
            *module,
            summary.path@,
        ));
        self.push_items_rev(&module.items);
    }

    /// Writes out the heading of the crate, and a note where private items are included;
    /// the root module is visited next.
    pub fn root(&mut self, krate: &Crate)
        requires
            lookup(krate.paths@, krate.root.0@) matches Some(sum) && sum.path@.len() > 0,
        ensures
            final(self).written() == old(self).written() + root_events(
                lookup(krate.paths@, krate.root.0@)->Some_0.path@,
                krate.includes_private,
            ),
            final(self).pending() == old(self).pending().push(Some(krate.root.0@)),
    {
        let label = Self::label_for_id(&krate.root, krate).unwrap();
        let root = find(&krate.paths, &krate.root).unwrap();
        let lib_name = root.path[0].as_str().to_owned();
        self.emit_heading(label.as_str(), 1, lib_name);
        if krate.includes_private {
            self.emit(
                Event::Text(
                    "Note: This development documentation includes private items which are not accessible from the outside.".to_owned(),
                ),
            );
        }
        let ghost before = self.stack@;
        let t = Traversal::Item(Id(krate.root.0.as_str().to_owned()));
        self.stack.push(t);
        proof {
            assert(self.stack@.map_values(|t: Traversal| traversal_view(t)) =~= before.map_values(
                |t: Traversal| traversal_view(t),
            ).push(traversal_view(t)));
        }
        assert(self.written() =~= old(self).written() + root_events(root.path@, krate.includes_private));
    }

    /// A visibility as Rust source, with a trailing space.
    pub fn codify_visibility(visibility: &Visibility) -> (r: String)
        ensures
            r@ == visibility_text(*visibility),
    {
        match visibility {
            Visibility::Public => "pub ".to_owned(),
            Visibility::Default => String::new(),
            Visibility::Crate => "pub(crate) ".to_owned(),
            Visibility::Restricted { path, .. } => {
                let mut out = "pub(".to_owned();
                put(&mut out, path.as_str());
                put(&mut out, ") ");
                out
            },
        }
    }

    /// An ABI as Rust source before `fn`: nothing for Rust's own.
    pub fn codify_abi(abi: &str) -> (r: String)
        ensures
            r@ == abi_text(abi@),
    {
        if str_eq(abi, "\"Rust\"") {
            String::new()
        } else {
            let mut out = "extern ".to_owned();
            put(&mut out, abi);
            put(&mut out, " ");
            out
        }
    }

    /// The parts of a path joined by `sep`.
    fn join_path(path: &Vec<String>, sep: &str) -> (r: String)
        ensures
            r@ == joined(strs_view(path@), sep@),
    {
        let mut out = String::new();
        let mut i: usize = 0;
        while i < path.len()
            invariant
                i <= path@.len(),
                out@ == joined(strs_view(path@.take(i as int)), sep@),
            decreases path@.len() - i,
        {
            if i > 0 {
                put(&mut out, sep);
            }
            put(&mut out, path[i].as_str());
            proof {
                let t = strs_view(path@.take(i + 1));
                assert(t.drop_last() =~= strs_view(path@.take(i as int)));
                if i == 0 {
                    assert(strs_view(path@.take(0)) =~= Seq::<Seq<char>>::empty());
                }
            }
            i = i + 1;
        }
        assert(path@.take(path@.len() as int) =~= path@);
        out
    }

    /// The name of an item at `path`, as Rust writes it.
    pub fn name_for_item_at_path(path: &Vec<String>) -> (r: String)
        ensures
            r@ == joined(strs_view(path@), "::"@),
    {
        Self::join_path(path, "::")
    }

    /// The label of the heading of the item at `path`.
    pub fn label_for_item_at_path(path: &Vec<String>) -> (r: String)
        ensures
            r@ == joined(strs_view(path@), "-"@),
    {
        Self::join_path(path, "-")
    }

    /// A type as Rust source.
    #[verifier::rlimit(30)]
    pub fn codify_type(krate: &Crate, type_: &Type) -> (r: String)
        requires
            writable(*type_),
        ensures
            r@ == type_text(*type_),
        decreases type_,
    {
        match type_ {
            Type::ResolvedPath { name, .. } => name.as_str().to_owned(),
            Type::Generic(st) => st.as_str().to_owned(),
            Type::Primitive(st) => st.as_str().to_owned(),
            Type::Tuple(items) => {
                if items.len() == 0 {
                    return "()".to_owned();
                }
                let mut out = "(".to_owned();
                let mut i: usize = 0;
                while i < items.len()
                    invariant
                        i <= items@.len(),
                        all_writable(items@),
                        out@ == "("@ + types_text(items@.take(i as int)),
                        *type_ == Type::Tuple(*items),
                    decreases items@.len() - i,
                {
                    proof {
                        lemma_all_writable(items@, i as int);
                    }
                    if i > 0 {
                        put(&mut out, ",");
                    }
                    proof {
                        assert(decreases_to!(*type_ => (*type_)->Tuple_0));
                        assert(decreases_to!(*items => items@));
                        assert(decreases_to!(items@ => items@[i as int]));
                        assert(decreases_to!(*type_ => items@[i as int]));
                    }
                    let t = Self::codify_type(krate, &items[i]);
                    put(&mut out, t.as_str());
                    proof {
                        let s = items@.take(i + 1);
                        assert(s.drop_last() =~= items@.take(i as int));
                        if i == 0 {
                            assert(items@.take(0) =~= Seq::<Type>::empty());
                        }
                    }
                    i = i + 1;
                }
                put(&mut out, ")");
                assert(items@.take(items@.len() as int) =~= items@);
                out
            },
            Type::Slice(inner) => {
                let mut out = "[".to_owned();
                let t = Self::codify_type(krate, inner);
                put(&mut out, t.as_str());
                put(&mut out, "]");
                out
            },
            Type::Array { type_: inner, len } => {
                let mut out = "[".to_owned();
                let t = Self::codify_type(krate, inner);
                put(&mut out, t.as_str());
                put(&mut out, "; ");
                put(&mut out, len.as_str());
                put(&mut out, "]");
                out
            },
            Type::Never => "!".to_owned(),
            Type::Infer => "_".to_owned(),
            Type::RawPointer { mutable, type_: inner } => {
                let mut out = "*".to_owned();
                if *mutable {
                    put(&mut out, "mut");
                } else {
                    put(&mut out, "const");
                }
                put(&mut out, " ");
                let t = Self::codify_type(krate, inner);
                put(&mut out, t.as_str());
                out
            },
            Type::BorrowedRef { lifetime, mutable, type_: inner } => {
                let mut out = "&".to_owned();
                match lifetime {
                    Some(l) => {
                        put(&mut out, l.as_str());
                        put(&mut out, " ");
                    },
                    None => {},
                }
                if *mutable {
                    put(&mut out, "mut ");
                }
                let t = Self::codify_type(krate, inner);
                put(&mut out, t.as_str());
                out
            },
            Type::QualifiedPath { name, self_type, trait_ } => {
                let mut out = "<".to_owned();
                let s = Self::codify_type(krate, self_type);
                put(&mut out, s.as_str());
                put(&mut out, " as ");
                let t = Self::codify_type(krate, trait_);
                put(&mut out, t.as_str());
                put(&mut out, ">::");
                put(&mut out, name.as_str());
                out
            },
            Type::FunctionPointer => String::new(),
            Type::ImplTrait => String::new(),
        }
    }

    /// The inputs and output of a function as Rust source, broken into lines by length.
    #[verifier::rlimit(30)]
    pub fn codify_fn_decl(krate: &Crate, decl: &FnDecl) -> (r: String)
        requires
            decl_writable(*decl),
        ensures
            r@ == fn_decl_text(*decl),
    {
        let ghost ins = inputs_texts(decl.inputs@);
        let mut inputs: Vec<String> = Vec::new();
        let mut in_len: usize = 0;
        let mut i: usize = 0;
        while i < decl.inputs.len()
            invariant
                i <= decl.inputs@.len(),
                decl_writable(*decl),
                ins == inputs_texts(decl.inputs@),
                strs_view(inputs@) =~= ins.take(i as int),
                in_len == (if total_len(ins.take(i as int)) > usize::MAX {
                    usize::MAX as int
                } else {
                    total_len(ins.take(i as int))
                }),
            decreases decl.inputs@.len() - i,
        {
            let (name, type_) = &decl.inputs[i];
            assert(writable(decl.inputs@[i as int].1));
            let mut s = name.as_str().to_owned();
            put(&mut s, ": ");
            let t = Self::codify_type(krate, type_);
            put(&mut s, t.as_str());
            let n = chars_of(s.as_str()).len();
            proof {
                assert(ins.take(i + 1).drop_last() =~= ins.take(i as int));
                lemma_total_len_nonneg(ins.take(i as int));
            }
            in_len = in_len.saturating_add(n);
            inputs.push(s);
            i = i + 1;
        }
        assert(ins.take(i as int) =~= ins);
        let output = match &decl.output {
            Some(t) => {
                let mut o = " -> ".to_owned();
                let ts = Self::codify_type(krate, t);
                put(&mut o, ts.as_str());
                o
            },
            None => String::new(),
        };
        let out_len = chars_of(output.as_str()).len();
        proof {
            lemma_total_len_nonneg(ins);
        }
        let short = in_len < 80 && out_len < 80 - in_len;
        let list_break = !short;
        let arg_break = !short && in_len >= 120;
        let out_break = !short && in_len < 120;
        let mut out = "(".to_owned();
        if list_break {
            put(&mut out, "\n    ");
        }
        let args = if arg_break {
            Self::join_path(&inputs, ",\n    ")
        } else {
            Self::join_path(&inputs, ", ")
        };
        put(&mut out, args.as_str());
        if list_break {
            put(&mut out, "\n");
        }
        put(&mut out, ")");
        if out_break {
            put(&mut out, "\n ");
        }
        put(&mut out, output.as_str());
        out
    }

    /// A bound as Rust source.
    pub fn codify_bound(krate: &Crate, bound: &GenericBound) -> (r: String)
        requires
            bound_writable(*bound),
        ensures
            r@ == bound_text(*bound),
    {
        match bound {
            GenericBound::Outlives(lifetime) => lifetime.as_str().to_owned(),
            GenericBound::TraitBound { trait_ } => Self::codify_type(krate, trait_),
        }
    }
}

proof fn lemma_total_len_nonneg(s: Seq<Seq<char>>)
    ensures
        total_len(s) >= 0,
    decreases s.len(),
{
    if s.len() > 0 {
        lemma_total_len_nonneg(s.drop_last());
    }
}

/// Each of the types that can all be written out can be written out.
proof fn lemma_all_writable(s: Seq<Type>, i: int)
    requires
        all_writable(s),
        0 <= i < s.len(),
    ensures
        writable(s[i]),
    decreases s.len(),
{
    if i < s.len() - 1 {
        lemma_all_writable(s.drop_last(), i);
    }
}

/// What can be found in entries by id is one of the entries.
proof fn lemma_lookup_member<T>(s: Seq<(Id, T)>, id: Seq<char>)
    requires
        lookup(s, id) is Some,
    ensures
        exists|i: int| 0 <= i < s.len() && #[trigger] s[i].1 == lookup(s, id)->Some_0,
    decreases s.len(),
{
    match lookup(s.drop_last(), id) {
        Some(x) => {
            lemma_lookup_member(s.drop_last(), id);
            let i = choose|i: int| 0 <= i < s.drop_last().len() && #[trigger] s.drop_last()[i].1 == x;
            assert(s[i].1 == x);
        },
        None => {
            assert(s[s.len() - 1].1 == lookup(s, id)->Some_0);
        },
    }
}

/// Visiting a part that writes something writes at least one event.
#[verifier::spinoff_prover]
#[verifier::rlimit(50)]
proof fn lemma_visit_writes(k: Crate, t: Option<Seq<char>>)
    ensures
        visit(k, t) matches Some((evs, _)) ==> evs.len() > 0,
{
}

/// The documentation of a crate, event by event.
#[derive(Debug)]
pub struct Rustdoc {
    krate: Crate,
    /// The dynamic state of the traversal.
    appender: RustdocAppender,
}

impl Rustdoc {
    #[verifier::type_invariant]
    spec fn inv(self) -> bool {
        crate_renderable(self.krate)
    }

    /// The crate being documented.
    pub closed spec fn krate(&self) -> Crate {
        self.krate
    }

    /// The events written but not handed out yet.
    pub closed spec fn written(&self) -> Seq<EventView> {
        self.appender.written()
    }

    /// What is left to visit, the last one next.
    pub closed spec fn pending(&self) -> Seq<Option<Seq<char>>> {
        self.appender.pending()
    }

    /// Whether a crate can be documented: what each part of the documentation needs of it
    /// holds.
    pub fn renders(krate: &Crate) -> (r: bool)
        ensures
            r == crate_renderable(*krate),
    {
        check_crate(krate)
    }

    /// Starts the documentation of `krate`: nothing written, the crate as a whole to visit.
    pub fn new(krate: Crate) -> (r: Rustdoc)
        requires
            crate_renderable(krate),
        ensures
            r.krate() == krate,
            r.written() == Seq::<EventView>::empty(),
            r.pending() == seq![None::<Seq<char>>],
    {
        let appender = RustdocAppender::new();
        Rustdoc { krate, appender }
    }

    /// The next event of the documentation; `None` once everything is written.
    pub fn next(&mut self) -> (r: Option<Event>)
        ensures
            final(self).krate() == old(self).krate(),
            ({
                let (e, w, p) = next_event(old(self).krate(), old(self).written(), old(self).pending());
                &&& match r {
                    Some(ev) => e == Some(crate::event::event_view(ev)),
                    None => e is None,
                }
                &&& final(self).written() == w
                &&& final(self).pending() == p
            }),
    {
        proof {
            use_type_invariant(&*self);
        }
        let mut app = RustdocAppender { stack: Vec::new(), buffered: Vec::new() };
        std::mem::swap(&mut app, &mut self.appender);
        let r = app.next(&self.krate);
        self.appender = app;
        r
    }
}

impl RustdocAppender {
    /// Visits a part of the documentation of `krate`.
    pub fn traverse(&mut self, krate: &Crate, what: Traversal)
        requires
            crate_renderable(*krate),
        ensures
            match visit(*krate, traversal_view(what)) {
                Some((evs, pushes)) => final(self).written() == old(self).written() + evs
                    && final(self).pending() == old(self).pending() + pushes,
                None => final(self).written() == old(self).written() && final(self).pending() == old(
                    self,
                ).pending(),
            },
    {
        match what {
            Traversal::Root => {
                self.root(krate);
            },
            Traversal::Item(id) => {
                self.append_item_by_id(krate, &id);
            },
        }
    }

    /// Visits the item `id` of `krate`.
    pub fn append_item_by_id(&mut self, krate: &Crate, id: &Id)
        requires
            crate_renderable(*krate),
        ensures
            match visit(*krate, Some(id.0@)) {
                Some((evs, pushes)) => final(self).written() == old(self).written() + evs
                    && final(self).pending() == old(self).pending() + pushes,
                None => final(self).written() == old(self).written() && final(self).pending() == old(
                    self,
                ).pending(),
            },
    {
        match find(&krate.index, id) {
            Some(item) => {
                proof {
                    lemma_lookup_member(krate.index@, id.0@);
                    let i = choose|i: int|
                        0 <= i < krate.index@.len() && #[trigger] krate.index@[i].1 == *item;
                    assert(renderable(*krate, krate.index@[i].1));
                }
                match &item.inner {
                    ItemEnum::ModuleItem(inner) => self.module(krate, item, inner),
                    ItemEnum::StructItem(inner) => self.struct_(krate, item, inner),
                    ItemEnum::EnumItem(inner) => self.enum_(krate, item, inner),
                    ItemEnum::ConstantItem(inner) => self.constant(krate, item, inner),
                    ItemEnum::StaticItem(inner) => self.static_(krate, item, inner),
                    ItemEnum::FunctionItem(inner) => self.function(krate, item, inner),
                    ItemEnum::TraitItem(inner) => self.trait_(krate, item, inner),
                    ItemEnum::ImplItem(inner) => self.impl_(krate, item, inner),
                    ItemEnum::TypedefItem(inner) => self.typedef(krate, item, inner),
                    _ => {},
                }
            },
            None => {},
        }
    }

    /// The next event of the documentation of `krate`; `None` once everything is written.
    #[verifier::rlimit(30)]
    pub fn next(&mut self, krate: &Crate) -> (r: Option<Event>)
        requires
            crate_renderable(*krate),
        ensures
            ({
                let (e, w, p) = next_event(*krate, old(self).written(), old(self).pending());
                &&& match r {
                    Some(ev) => e == Some(crate::event::event_view(ev)),
                    None => e is None,
                }
                &&& final(self).written() == w
                &&& final(self).pending() == p
            }),
    {
        let ghost target = next_event(*krate, self.written(), self.pending());
        loop
            invariant
                crate_renderable(*krate),
                next_event(*krate, self.written(), self.pending()) == target,
                target == next_event(*krate, old(self).written(), old(self).pending()),
            decreases (if self.buffered@.len() > 0 {
                0
            } else {
                self.stack@.len() + 1
            }),
        {
            if self.buffered.len() > 0 {
                let ghost before = self.buffered@;
                let e = self.buffered.remove(0);
                proof {
                    assert(events_view(self.buffered@) =~= events_view(before).drop_first());
                }
                return Some(e);
            }
            let ghost p = self.pending();
            match self.stack.pop() {
                Some(t) => {
                    proof {
                        assert(self.stack@.map_values(|t: Traversal| traversal_view(t)) =~= p.drop_last());
                        assert(traversal_view(t) == p.last());
                        lemma_visit_writes(*krate, p.last());
                    }
                    self.traverse(krate, t);
                },
                None => {
                    proof {
                        assert(p =~= Seq::<Option<Seq<char>>>::empty());
                    }
                    return None;
                },
            }
        }
    }
}

// ----------------------------------------------------------------------------------------
// checking that a crate can be rendered

fn is_writable(t: &Type) -> (r: bool)
    ensures
        r == writable(*t),
    decreases t,
{
    match t {
        Type::ResolvedPath { args, .. } => match args {
            Some(GenericArgs::Parenthesized) => false,
            _ => true,
        },
        Type::FunctionPointer => false,
        Type::ImplTrait => false,
        Type::Tuple(items) => {
            let mut i: usize = 0;
            while i < items.len()
                invariant
                    i <= items@.len(),
                    all_writable(items@.take(i as int)),
                    *t == Type::Tuple(*items),
                decreases items@.len() - i,
            {
                proof {
                    assert(decreases_to!(*t => (*t)->Tuple_0));
                    assert(decreases_to!(*items => items@));
                    assert(decreases_to!(items@ => items@[i as int]));
                    assert(items@.take(i + 1).drop_last() =~= items@.take(i as int));
                }
                if !is_writable(&items[i]) {
                    proof {
                        if all_writable(items@) {
                            lemma_all_writable(items@, i as int);
                        }
                    }
                    return false;
                }
                i = i + 1;
            }
            assert(items@.take(i as int) =~= items@);
            true
        },
        Type::Slice(inner) => is_writable(inner),
        Type::Array { type_: inner, .. } => is_writable(inner),
        Type::RawPointer { type_: inner, .. } => is_writable(inner),
        Type::BorrowedRef { type_: inner, .. } => is_writable(inner),
        Type::QualifiedPath { self_type, trait_, .. } => is_writable(self_type) && is_writable(trait_),
        _ => true,
    }
}

fn is_decl_writable(d: &FnDecl) -> (r: bool)
    ensures
        r == decl_writable(*d),
{
    let mut i: usize = 0;
    while i < d.inputs.len()
        invariant
            i <= d.inputs@.len(),
            forall|j: int| 0 <= j < i ==> writable(#[trigger] d.inputs@[j].1),
        decreases d.inputs@.len() - i,
    {
        if !is_writable(&d.inputs[i].1) {
            return false;
        }
        i = i + 1;
    }
    match &d.output {
        Some(t) => is_writable(t),
        None => true,
    }
}

fn is_bound_writable(b: &GenericBound) -> (r: bool)
    ensures
        r == bound_writable(*b),
{
    match b {
        GenericBound::Outlives(_) => true,
        GenericBound::TraitBound { trait_ } => is_writable(trait_),
    }
}

fn is_struct_writable(index: &Vec<(Id, Item)>, st: &Struct) -> (r: bool)
    ensures
        r == struct_writable(index@, *st),
{
    let mut i: usize = 0;
    while i < st.fields.len()
        invariant
            i <= st.fields@.len(),
            forall|j: int|
                0 <= j < i ==> {
                    &&& lookup(index@, (#[trigger] st.fields@[j]).0@) is Some
                    &&& field_entry(index@, st.fields@[j]) matches Some(e) ==> writable(e.2)
                },
        decreases st.fields@.len() - i,
    {
        match find(index, &st.fields[i]) {
            None => {
                return false;
            },
            Some(Item { inner: ItemEnum::StructFieldItem(t), name: Some(_), .. }) => {
                if !is_writable(t) {
                    return false;
                }
            },
            Some(_) => {},
        }
        i = i + 1;
    }
    true
}

fn is_trait_part_writable(index: &Vec<(Id, Item)>, id: &Id) -> (r: bool)
    ensures
        r == (lookup(index@, id.0@) is Some && trait_part_writable(index@, *id)),
{
    match find(index, id) {
        None => false,
        Some(Item { inner: ItemEnum::AssocTypeItem { bounds, default }, name: Some(_), .. }) => {
            let mut i: usize = 0;
            while i < bounds.len()
                invariant
                    i <= bounds@.len(),
                    forall|j: int| 0 <= j < i ==> bound_writable(#[trigger] bounds@[j]),
                    lookup(index@, id.0@) matches Some(
                        Item { inner: ItemEnum::AssocTypeItem { bounds: b, default: d }, name: Some(_), .. },
                    ) && b == *bounds && d == *default,
                decreases bounds@.len() - i,
            {
                if !is_bound_writable(&bounds[i]) {
                    assert(!bound_writable(bounds@[i as int]));
                    return false;
                }
                i = i + 1;
            }
            match default {
                Some(t) => is_writable(t),
                None => true,
            }
        },
        Some(Item { inner: ItemEnum::AssocConstItem { type_, .. }, name: Some(_), .. }) => is_writable(type_),
        Some(Item { inner: ItemEnum::MethodItem(m), name: Some(_), .. }) => is_decl_writable(&m.decl),
        Some(_) => true,
    }
}

fn is_impl_part_writable(index: &Vec<(Id, Item)>, id: &Id) -> (r: bool)
    ensures
        r == (lookup(index@, id.0@) is Some && impl_part_writable(index@, *id)),
{
    match find(index, id) {
        None => false,
        Some(Item { inner: ItemEnum::TypedefItem(td), name: Some(_), .. }) => is_writable(&td.type_),
        Some(Item { inner: ItemEnum::ConstantItem(c), name: Some(_), .. }) => is_writable(&c.type_),
        Some(Item { inner: ItemEnum::AssocConstItem { type_, default: Some(_) }, name: Some(_), .. }) => is_writable(
            type_,
        ),
        Some(Item { inner: ItemEnum::MethodItem(m), name: Some(_), .. }) => is_decl_writable(&m.decl),
        Some(_) => true,
    }
}

#[verifier::rlimit(30)]
fn is_renderable(k: &Crate, item: &Item) -> (r: bool)
    ensures
        r == renderable(*k, *item),
{
    let has_path = find(&k.paths, &item.id).is_some();
    match &item.inner {
        ItemEnum::ModuleItem(_) => has_path,
        ItemEnum::StructItem(st) => has_path && item.name.is_some() && st.fields.len() < 1_000_000 && (
        item.kind == ItemKind::Union || item.kind == ItemKind::Struct) && is_struct_writable(&k.index, st),
        ItemEnum::EnumItem(en) => has_path && en.variants.len() < 1_000_000,
        ItemEnum::ConstantItem(c) => has_path && item.name.is_some() && is_writable(&c.type_),
        ItemEnum::StaticItem(st) => has_path && item.name.is_some() && is_writable(&st.type_),
        ItemEnum::FunctionItem(f) => has_path && item.name.is_some() && is_decl_writable(&f.decl),
        ItemEnum::TraitItem(tr) => {
            if !(has_path && tr.items.len() < 1_000_000 && item.name.is_some()) {
                return false;
            }
            let mut i: usize = 0;
            while i < tr.items.len()
                invariant
                    i <= tr.items@.len(),
                    item.inner == ItemEnum::TraitItem(*tr),
                    has_path == (lookup(k.paths@, item.id.0@) is Some),
                    has_path && tr.items@.len() < 1_000_000 && item.name is Some,
                    forall|j: int|
                        0 <= j < i ==> lookup(k.index@, (#[trigger] tr.items@[j]).0@) is Some
                            && trait_part_writable(k.index@, tr.items@[j]),
                decreases tr.items@.len() - i,
            {
                if !is_trait_part_writable(&k.index, &tr.items[i]) {
                    assert(!(lookup(k.index@, tr.items@[i as int].0@) is Some && trait_part_writable(
                        k.index@,
                        tr.items@[i as int],
                    )));
                    return false;
                }
                i = i + 1;
            }
            true
        },
        ItemEnum::ImplItem(im) => {
            let t_ok = match &im.trait_ {
                Some(t) => is_writable(t),
                None => true,
            };
            if !(t_ok && is_writable(&im.for_)) {
                return false;
            }
            let mut i: usize = 0;
            while i < im.items.len()
                invariant
                    i <= im.items@.len(),
                    item.inner == ItemEnum::ImplItem(*im),
                    im.trait_ matches Some(t) ==> writable(t),
                    writable(im.for_),
                    forall|j: int|
                        0 <= j < i ==> lookup(k.index@, (#[trigger] im.items@[j]).0@) is Some
                            && impl_part_writable(k.index@, im.items@[j]),
                decreases im.items@.len() - i,
            {
                if !is_impl_part_writable(&k.index, &im.items[i]) {
                    assert(!(lookup(k.index@, im.items@[i as int].0@) is Some && impl_part_writable(
                        k.index@,
                        im.items@[i as int],
                    )));
                    return false;
                }
                i = i + 1;
            }
            true
        },
        ItemEnum::TypedefItem(td) => has_path && item.name.is_some() && is_writable(&td.type_),
        _ => true,
    }
}

fn check_crate(k: &Crate) -> (r: bool)
    ensures
        r == crate_renderable(*k),
{
    match find(&k.paths, &k.root) {
        Some(sum) => {
            if sum.path.len() == 0 {
                return false;
            }
        },
        None => {
            return false;
        },
    }
    let mut i: usize = 0;
    while i < k.index.len()
        invariant
            i <= k.index@.len(),
            forall|j: int| 0 <= j < i ==> renderable(*k, #[trigger] k.index@[j].1),
        decreases k.index@.len() - i,
    {
        if !is_renderable(k, &k.index[i].1) {
            return false;
        }
        i = i + 1;
    }
    true
}

// ----------------------------------------------------------------------------------------
// laws

/// Events that neither open nor close an element nest well.
proof fn lemma_plain_nests(s: Seq<EventView>)
    requires
        forall|i: int| 0 <= i < s.len() ==> opens(#[trigger] s[i]) == 0,
    ensures
        nests(s),
{
    assert forall|k: int| 0 <= k <= s.len() implies #[trigger] depth(s.take(k)) == 0 by {
        lemma_plain_depth(s, k);
    }
    assert(s.take(s.len() as int) =~= s);
}

proof fn lemma_plain_depth(s: Seq<EventView>, k: int)
    requires
        forall|i: int| 0 <= i < s.len() ==> opens(#[trigger] s[i]) == 0,
        0 <= k <= s.len(),
    ensures
        depth(s.take(k)) == 0,
    decreases k,
{
    if k > 0 {
        lemma_plain_depth(s, k - 1);
        assert(s.take(k).drop_last() =~= s.take(k - 1));
        assert(opens(s[k - 1]) == 0);
    }
}

/// Two runs of events that nest well nest well one after the other.
proof fn lemma_nests_concat(a: Seq<EventView>, b: Seq<EventView>)
    requires
        nests(a),
        nests(b),
    ensures
        nests(a + b),
{
    lemma_depth_concat(a, b);
    assert forall|k: int| 0 <= k <= (a + b).len() implies #[trigger] depth((a + b).take(k)) >= 0 by {
        if k <= a.len() {
            assert((a + b).take(k) =~= a.take(k));
        } else {
            assert((a + b).take(k) =~= a + b.take(k - a.len()));
            lemma_depth_concat(a, b.take(k - a.len()));
            assert(a.take(a.len() as int) =~= a);
            assert(depth(b.take(k - a.len())) >= 0);
        }
    }
}

/// Events that nest well, framed by the start and the end of an element, nest well.
proof fn lemma_nests_wrap(t: TagView, inner: Seq<EventView>)
    requires
        nests(inner),
    ensures
        nests(seq![EventView::Start(t)] + inner + seq![EventView::End(t)]),
{
    let s = seq![EventView::Start(t)] + inner + seq![EventView::End(t)];
    let head = seq![EventView::Start(t)];
    lemma_depth_push(Seq::empty(), EventView::Start(t));
    assert(Seq::<EventView>::empty().push(EventView::Start(t)) =~= head);
    lemma_depth_concat(head, inner);
    lemma_depth_push(head + inner, EventView::End(t));
    assert((head + inner).push(EventView::End(t)) =~= s);
    assert forall|k: int| 0 <= k <= s.len() implies #[trigger] depth(s.take(k)) >= 0 by {
        if k == 0 {
            assert(s.take(k) =~= Seq::<EventView>::empty());
        } else if k <= inner.len() + 1 {
            assert(s.take(k) =~= head + inner.take(k - 1));
            lemma_depth_concat(head, inner.take(k - 1));
            assert(depth(inner.take(k - 1)) >= 0);
        } else {
            assert(s.take(k) =~= s);
        }
    }
}

/// Runs of events that each nest well nest well one after the other.
proof fn lemma_nests_flat(s: Seq<Seq<EventView>>)
    requires
        forall|i: int| 0 <= i < s.len() ==> nests(#[trigger] s[i]),
    ensures
        nests(flat(s)),
    decreases s.len(),
{
    if s.len() == 0 {
        lemma_plain_nests(Seq::empty());
    } else {
        lemma_nests_flat(s.drop_last());
        assert(nests(s[s.len() - 1]));
        lemma_nests_concat(flat(s.drop_last()), s.last());
    }
}

proof fn lemma_framed_text(t: TagView, x: Seq<char>)
    ensures
        nests(seq![EventView::Start(t), EventView::Text(x), EventView::End(t)]),
{
    lemma_plain_nests(seq![EventView::Text(x)]);
    lemma_nests_wrap(t, seq![EventView::Text(x)]);
    assert(seq![EventView::Start(t)] + seq![EventView::Text(x)] + seq![EventView::End(t)] =~= seq![
        EventView::Start(t),
        EventView::Text(x),
        EventView::End(t),
    ]);
}

proof fn lemma_pieces_nest()
    ensures
        forall|l: Seq<char>, n: int, t: Seq<char>| #[trigger] nests(heading(l, n, t)),
        forall|d: Seq<char>| #[trigger] nests(code(d)),
        forall|d: Seq<char>| #[trigger] nests(docs_par(d)),
        forall|d: Seq<char>| #[trigger] nests(strong_par(d)),
        forall|d: Seq<char>| #[trigger] nests(code_par(d)),
        nests(Seq::<EventView>::empty()),
{
    assert forall|l: Seq<char>, n: int, t: Seq<char>| #[trigger] nests(heading(l, n, t)) by {
        lemma_framed_text(TagView::Header { label: (l, (0, 0)), level: n }, t);
    }
    assert forall|d: Seq<char>| #[trigger] nests(code(d)) by {
        lemma_framed_text(rust_code(), d);
    }
    assert forall|d: Seq<char>| #[trigger] nests(docs_par(d)) by {
        lemma_framed_text(TagView::Paragraph, d);
        lemma_plain_nests(Seq::empty());
    }
    assert forall|d: Seq<char>| #[trigger] nests(strong_par(d)) by {
        let inner = seq![
            EventView::Start(TagView::InlineStrong),
            EventView::Text(d),
            EventView::End(TagView::InlineStrong),
        ];
        lemma_framed_text(TagView::InlineStrong, d);
        lemma_nests_wrap(TagView::Paragraph, inner);
        assert(seq![EventView::Start(TagView::Paragraph)] + inner + seq![EventView::End(TagView::Paragraph)]
            =~= strong_par(d));
    }
    assert forall|d: Seq<char>| #[trigger] nests(code_par(d)) by {
        let inner = seq![
            EventView::Start(TagView::InlineCode),
            EventView::Text(d),
            EventView::End(TagView::InlineCode),
        ];
        lemma_framed_text(TagView::InlineCode, d);
        lemma_nests_wrap(TagView::Paragraph, inner);
        assert(seq![EventView::Start(TagView::Paragraph)] + inner + seq![EventView::End(TagView::Paragraph)]
            =~= code_par(d));
    }
    lemma_plain_nests(Seq::empty());
}

/// A paragraph of inline code followed by plain text nests well.
proof fn lemma_code_then_text(code_texts: Seq<EventView>, after: Seq<EventView>)
    requires
        forall|i: int| 0 <= i < code_texts.len() ==> opens(#[trigger] code_texts[i]) == 0,
        forall|i: int| 0 <= i < after.len() ==> opens(#[trigger] after[i]) == 0,
    ensures
        nests(
            seq![EventView::Start(TagView::Paragraph)] + (seq![EventView::Start(TagView::InlineCode)]
                + code_texts + seq![EventView::End(TagView::InlineCode)] + after) + seq![
                EventView::End(TagView::Paragraph),
            ],
        ),
{
    lemma_plain_nests(code_texts);
    lemma_plain_nests(after);
    lemma_nests_wrap(TagView::InlineCode, code_texts);
    lemma_nests_concat(
        seq![EventView::Start(TagView::InlineCode)] + code_texts + seq![EventView::End(TagView::InlineCode)],
        after,
    );
    lemma_nests_wrap(
        TagView::Paragraph,
        seq![EventView::Start(TagView::InlineCode)] + code_texts + seq![EventView::End(TagView::InlineCode)]
            + after,
    );
}

proof fn lemma_name_par_nests(e: (Seq<char>, Seq<char>))
    ensures
        nests(name_par(e)),
{
    let ct = seq![EventView::Text(e.0)];
    let after = seq![EventView::Text("  "@), EventView::Text(e.1)];
    lemma_code_then_text(ct, after);
    assert(seq![EventView::Start(TagView::Paragraph)] + (seq![EventView::Start(TagView::InlineCode)] + ct
        + seq![EventView::End(TagView::InlineCode)] + after) + seq![EventView::End(TagView::Paragraph)]
        =~= name_par(e));
}

proof fn lemma_field_par_nests(e: (Seq<char>, Visibility, Type, Seq<char>))
    ensures
        nests(field_par(e)),
{
    let ct = seq![EventView::Text(e.0), EventView::Text(": "@), EventView::Text(type_text(e.2))];
    let after = seq![EventView::Text("  "@), EventView::Text(e.3)];
    lemma_code_then_text(ct, after);
    assert(seq![EventView::Start(TagView::Paragraph)] + (seq![EventView::Start(TagView::InlineCode)] + ct
        + seq![EventView::End(TagView::InlineCode)] + after) + seq![EventView::End(TagView::Paragraph)]
        =~= field_par(e));
}

proof fn lemma_child_nests(paths: Seq<(Id, ItemSummary)>, index: Seq<(Id, Item)>, id: Id)
    ensures
        nests(child_events(paths, index, id)),
{
    let inner = match lookup(paths, id.0@) {
        Some(sum) => {
            let tag = TagView::InterLink { label: joined(strs_view(sum.path@), "-"@), uppercase: false };
            lemma_framed_text(tag, joined(strs_view(sum.path@), "::"@));
            seq![
                EventView::Start(tag),
                EventView::Text(joined(strs_view(sum.path@), "::"@)),
                EventView::End(tag),
            ]
        },
        None => match lookup(index, id.0@) {
            Some(it) => match it.name {
                Some(n) => {
                    lemma_plain_nests(seq![EventView::Text(n@)]);
                    seq![EventView::Text(n@)]
                },
                None => {
                    lemma_plain_nests(Seq::empty());
                    Seq::empty()
                },
            },
            None => {
                lemma_plain_nests(Seq::empty());
                Seq::empty()
            },
        },
    };
    lemma_nests_wrap(TagView::Item, inner);
    assert(seq![EventView::Start(TagView::Item)] + inner + seq![EventView::End(TagView::Item)] =~= child_events(
        paths,
        index,
        id,
    ));
}

/// Each part of a crate's documentation nests well: every element it opens it closes, and
/// it closes none that it did not open.
pub proof fn law_rendered_parts_nest(k: Crate, t: Option<Seq<char>>)
    ensures
        visit(k, t) matches Some((evs, _)) ==> nests(evs),
{
    lemma_pieces_nest();
    match t {
        None => {
            let path = lookup(k.paths@, k.root.0@)->Some_0.path@;
            let h = heading(joined(strs_view(path), "-"@), 1, path[0]@);
            if k.includes_private {
                lemma_plain_nests(seq![EventView::Text(private_note())]);
                lemma_nests_concat(h, seq![EventView::Text(private_note())]);
            } else {
                assert(h + Seq::<EventView>::empty() =~= h);
            }
        },
        Some(id) => match lookup(k.index@, id) {
            Some(item) => {
                let path = lookup(k.paths@, item.id.0@)->Some_0.path@;
                let docs = docs_par(item.docs@);
                match item.inner {
                    ItemEnum::ModuleItem(m) => {
                        let kids = m.items@.map_values(|i: Id| child_events(k.paths@, k.index@, i));
                        assert forall|i: int| 0 <= i < kids.len() implies nests(#[trigger] kids[i]) by {
                            lemma_child_nests(k.paths@, k.index@, m.items@[i]);
                        }
                        lemma_nests_flat(kids);
                        lemma_nests_wrap(TagView::List, flat(kids));
                        let hd = item_heading(
                            if m.is_crate {
                                "Crate"@
                            } else {
                                "Module"@
                            },
                            item.visibility,
                            path,
                        );
                        lemma_nests_concat(
                            hd,
                            seq![EventView::Start(TagView::List)] + flat(kids) + seq![EventView::End(TagView::List)],
                        );
                        assert(hd + (seq![EventView::Start(TagView::List)] + flat(kids) + seq![
                            EventView::End(TagView::List),
                        ]) =~= module_events(k.paths@, k.index@, item, m, path));
                    },
                    ItemEnum::StructItem(st) => {
                        let entries = field_entries(k.index@, st.fields@);
                        let pars = entries.map_values(
                            |e: (Seq<char>, Visibility, Type, Seq<char>)| field_par(e),
                        );
                        assert forall|i: int| 0 <= i < pars.len() implies nests(#[trigger] pars[i]) by {
                            lemma_field_par_nests(entries[i]);
                        }
                        lemma_nests_flat(pars);
                        let hd = item_heading(
                            if item.kind == ItemKind::Union {
                                "Union"@
                            } else {
                                "Struct"@
                            },
                            item.visibility,
                            path,
                        );
                        let fh = if entries.len() > 0 {
                            strong_par("Fields"@)
                        } else {
                            Seq::empty()
                        };
                        let c = code(struct_def(item, st, entries));
                        lemma_nests_concat(hd, c);
                        lemma_nests_concat(hd + c, docs);
                        lemma_nests_concat(hd + c + docs, fh);
                        lemma_nests_concat(hd + c + docs + fh, flat(pars));
                    },
                    ItemEnum::EnumItem(en) => {
                        let entries = variant_entries(k.index@, en.variants@);
                        let pars = entries.map_values(|e: (Seq<char>, Seq<char>)| name_par(e));
                        assert forall|i: int| 0 <= i < pars.len() implies nests(#[trigger] pars[i]) by {
                            lemma_name_par_nests(entries[i]);
                        }
                        lemma_nests_flat(pars);
                        let hd = item_heading("Enum"@, item.visibility, path);
                        let vh = if entries.len() > 0 {
                            strong_par("Variants"@)
                        } else {
                            Seq::empty()
                        };
                        let c = code(enum_def(item, en, path, entries));
                        lemma_nests_concat(hd, c);
                        lemma_nests_concat(hd + c, docs);
                        lemma_nests_concat(hd + c + docs, vh);
                        lemma_nests_concat(hd + c + docs + vh, flat(pars));
                    },
                    ItemEnum::TraitItem(tr) => {
                        let parts = trait_parts(k.index@, tr.items@);
                        let named = parts.map_values(|p: (Seq<char>, Seq<char>, Seq<char>)| (p.1, p.2));
                        let pars = named.map_values(|e: (Seq<char>, Seq<char>)| name_par(e));
                        assert forall|i: int| 0 <= i < pars.len() implies nests(#[trigger] pars[i]) by {
                            lemma_name_par_nests(named[i]);
                        }
                        lemma_nests_flat(pars);
                        let hd = item_heading("Trait"@, item.visibility, path);
                        let ah = if parts.len() > 0 {
                            strong_par("Associated items"@)
                        } else {
                            Seq::empty()
                        };
                        let c = code(trait_def(item, tr, parts));
                        lemma_nests_concat(hd, c);
                        lemma_nests_concat(hd + c, docs);
                        lemma_nests_concat(hd + c + docs, ah);
                        lemma_nests_concat(hd + c + docs + ah, flat(pars));
                    },
                    ItemEnum::ImplItem(im) => {
                        let parts = impl_parts(k.index@, im.items@);
                        let pars = parts.map_values(
                            |p: (Seq<char>, Seq<char>)| impl_part_events(p, item.docs@),
                        );
                        assert forall|i: int| 0 <= i < pars.len() implies nests(#[trigger] pars[i]) by {
                            let p = parts[i];
                            if item.docs@.len() > 0 {
                                lemma_framed_text(TagView::Paragraph, p.1);
                                lemma_nests_concat(code_par(p.0), paragraph(p.1));
                            } else {
                                lemma_nests_concat(code_par(p.0), Seq::empty());
                            }
                        }
                        lemma_nests_flat(pars);
                        let hd = code_par(impl_header_text(im));
                        lemma_nests_concat(hd, docs);
                        lemma_nests_concat(hd + docs, flat(pars));
                    },
                    ItemEnum::ConstantItem(cst) => {
                        let hd = item_heading("Constant"@, item.visibility, path);
                        lemma_nests_concat(hd, code(constant_def(item, cst)));
                        lemma_nests_concat(hd + code(constant_def(item, cst)), docs);
                    },
                    ItemEnum::StaticItem(st) => {
                        let hd = item_heading("Static"@, item.visibility, path);
                        lemma_nests_concat(hd, code(static_def(item, st)));
                        lemma_nests_concat(hd + code(static_def(item, st)), docs);
                    },
                    ItemEnum::FunctionItem(f) => {
                        let hd = item_heading("Function"@, item.visibility, path);
                        lemma_nests_concat(hd, code(function_def(item, f)));
                        lemma_nests_concat(hd + code(function_def(item, f)), docs);
                    },
                    ItemEnum::TypedefItem(td) => {
                        let hd = item_heading("Typedef"@, item.visibility, path);
                        lemma_nests_concat(hd, code(typedef_def(item, td)));
                        lemma_nests_concat(hd + code(typedef_def(item, td)), docs);
                    },
                    _ => {},
                }
            },
            None => {},
        },
    }
}

/// Handing out the documentation event by event keeps it nesting well: where the events
/// handed out so far, followed by those written but not handed out yet, nest well, so do
/// they once the next event is handed out; and once nothing is left, the events handed out
/// nest well. (A fresh documentation has handed out and written nothing.)
pub proof fn law_handed_out_events_nest(
    k: Crate,
    handed: Seq<EventView>,
    written: Seq<EventView>,
    pending: Seq<Option<Seq<char>>>,
)
    requires
        nests(handed + written),
    ensures
        ({
            let (e, w, p) = next_event(k, written, pending);
            match e {
                Some(ev) => nests(handed.push(ev) + w),
                None => nests(handed),
            }
        }),
    decreases pending.len(),
{
    if written.len() > 0 {
        assert(handed.push(written[0]) + written.drop_first() =~= handed + written);
    } else {
        assert(handed + written =~= handed);
        if pending.len() > 0 {
            match visit(k, pending.last()) {
                None => {
                    law_handed_out_events_nest(k, handed, written, pending.drop_last());
                },
                Some((evs, _)) => {
                    law_rendered_parts_nest(k, pending.last());
                    lemma_visit_writes(k, pending.last());
                    lemma_nests_concat(handed, evs);
                    assert(handed.push(evs[0]) + evs.drop_first() =~= handed + evs);
                },
            }
        }
    }
}

} // verus!
