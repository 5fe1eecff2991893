//! What the documentation renderer reads of rustdoc's JSON output about a crate.
use vstd::prelude::*;

verus! {

/// The id of an item.
#[derive(Debug)]
pub struct Id(pub String);

/// The whole crate: its root module, every item by id, and the paths of the items that
/// have one.
#[derive(Debug)]
pub struct Crate {
    pub root: Id,
    pub includes_private: bool,
    pub index: Vec<(Id, Item)>,
    pub paths: Vec<(Id, ItemSummary)>,
}

/// Where an item is found: its path from the crate root.
#[derive(Debug)]
pub struct ItemSummary {
    pub path: Vec<String>,
}

/// One item of the crate.
#[derive(Debug)]
pub struct Item {
    pub id: Id,
    pub name: Option<String>,
    pub visibility: Visibility,
    pub docs: String,
    pub attrs: Vec<String>,
    pub kind: ItemKind,
    pub inner: ItemEnum,
}

#[derive(Debug)]
pub enum Visibility {
    Public,
    Default,
    Crate,
    Restricted { parent: Id, path: String },
}

#[derive(Debug, Clone, Copy, PartialEq, Eq, Structural)]
pub enum ItemKind {
    Module,
    ExternCrate,
    Import,
    Struct,
    StructField,
    Union,
    Enum,
    Variant,
    Function,
    Typedef,
    OpaqueTy,
    Constant,
    Trait,
    TraitAlias,
    Method,
    Impl,
    Static,
    ForeignType,
    Macro,
    ProcAttribute,
    ProcDerive,
    AssocConst,
    AssocType,
    Primitive,
    Keyword,
}

/// What an item is, with what the renderer reads of it.
#[derive(Debug)]
pub enum ItemEnum {
    ModuleItem(Module),
    StructItem(Struct),
    StructFieldItem(Type),
    EnumItem(Enum),
    VariantItem(Variant),
    FunctionItem(Function),
    TraitItem(Trait),
    ImplItem(Impl),
    TypedefItem(Typedef),
    ConstantItem(Constant),
    StaticItem(Static),
    MethodItem(Method),
    AssocConstItem { type_: Type, default: Option<String> },
    AssocTypeItem { bounds: Vec<GenericBound>, default: Option<Type> },
    /// An item of a kind that the renderer does not read.
    Other,
}

#[derive(Debug)]
pub struct Module {
    pub is_crate: bool,
    pub items: Vec<Id>,
}

#[derive(Debug, Clone, Copy, PartialEq, Eq, Structural)]
pub enum StructType {
    Plain,
    Tuple,
    Unit,
}

#[derive(Debug)]
pub struct Struct {
    pub struct_type: StructType,
    pub fields: Vec<Id>,
    pub fields_stripped: bool,
    pub impls: Vec<Id>,
}

#[derive(Debug)]
pub struct Enum {
    pub variants: Vec<Id>,
    pub variants_stripped: bool,
    pub impls: Vec<Id>,
}

/// A variant of an enum; the renderer reads its name and docs only.
#[derive(Debug)]
pub struct Variant;

#[derive(Debug)]
pub struct Function {
    pub decl: FnDecl,
    pub header: String,
    pub abi: String,
}

#[derive(Debug)]
pub struct Method {
    pub decl: FnDecl,
    pub header: String,
}

#[derive(Debug)]
pub struct Trait {
    pub is_auto: bool,
    pub is_unsafe: bool,
    pub items: Vec<Id>,
}

#[derive(Debug)]
pub struct Impl {
    pub trait_: Option<Type>,
    pub for_: Type,
    pub negative: bool,
    pub items: Vec<Id>,
}

#[derive(Debug)]
pub struct Typedef {
    pub type_: Type,
}

#[derive(Debug)]
pub struct Constant {
    pub type_: Type,
    pub expr: String,
}

#[derive(Debug)]
pub struct Static {
    pub type_: Type,
    pub mutable: bool,
}

/// The inputs of a function, each with its name, and its output.
#[derive(Debug)]
pub struct FnDecl {
    pub inputs: Vec<(String, Type)>,
    pub output: Option<Type>,
}

/// The generic arguments of a path; the renderer reads which form they have.
#[derive(Debug, Clone, Copy, PartialEq, Eq, Structural)]
pub enum GenericArgs {
    AngleBracketed,
    Parenthesized,
}

#[derive(Debug)]
pub enum GenericBound {
    TraitBound { trait_: Type },
    Outlives(String),
}

#[derive(Debug)]
pub enum Type {
    ResolvedPath { name: String, args: Option<GenericArgs> },
    Generic(String),
    Primitive(String),
    FunctionPointer,
    Tuple(Vec<Type>),
    Slice(Box<Type>),
    Array { type_: Box<Type>, len: String },
    ImplTrait,
    Never,
    Infer,
    RawPointer { mutable: bool, type_: Box<Type> },
    BorrowedRef { lifetime: Option<String>, mutable: bool, type_: Box<Type> },
    QualifiedPath { name: String, self_type: Box<Type>, trait_: Box<Type> },
}

} // verus!
