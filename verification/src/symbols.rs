//! What the link rewriter reads of a program's symbols.
//!
//! The symbol database of the host is not reached from here. The caller hands
//! over, as plain values, what the database says of the documented item and
//! of the scope it stands in: the kind and name of each item, the compilation
//! unit that owns it, the path under which the unit exports it, and what each
//! path resolves to.

use crate::path::{ModulePath, ModulePathModel};
use vstd::prelude::*;

verus! {

/// One token of an attribute's input.
#[derive(PartialEq, Eq, Clone, Debug)]
pub enum Token {
    /// An identifier, by its text.
    Ident(String),
    /// A literal, by its text as written, quotes included.
    Literal(String),
    /// Anything else: punctuation or a nested group.
    Other,
}

/// The mathematical value of a [`Token`].
pub enum TokenModel {
    Ident(Seq<char>),
    Literal(Seq<char>),
    Other,
}

impl View for Token {
    type V = TokenModel;

    open spec fn view(&self) -> TokenModel {
        match self {
            Token::Ident(text) => TokenModel::Ident(text@),
            Token::Literal(text) => TokenModel::Literal(text@),
            Token::Other => TokenModel::Other,
        }
    }
}

impl DeepView for Token {
    type V = TokenModel;

    open spec fn deep_view(&self) -> TokenModel {
        self@
    }
}

/// An attribute of a module: its name and, where it is written with
/// parentheses, the tokens between them.
#[derive(PartialEq, Eq, Clone, Debug)]
pub struct Attribute {
    pub key: String,
    pub tokens: Option<Vec<Token>>,
}

/// The mathematical value of an [`Attribute`].
pub struct AttributeModel {
    pub key: Seq<char>,
    pub tokens: Option<Seq<TokenModel>>,
}

impl View for Attribute {
    type V = AttributeModel;

    open spec fn view(&self) -> AttributeModel {
        AttributeModel { key: self.key@, tokens: self.tokens.deep_view() }
    }
}

impl DeepView for Attribute {
    type V = AttributeModel;

    open spec fn deep_view(&self) -> AttributeModel {
        self@
    }
}

/// A compilation unit: its display name, if it has one, and the attributes of
/// its root module, if it has a root module.
#[derive(PartialEq, Eq, Clone, Debug)]
pub struct CompilationUnit {
    pub name: Option<String>,
    pub root_attributes: Option<Vec<Attribute>>,
}

/// The mathematical value of a [`CompilationUnit`].
pub struct CompilationUnitModel {
    pub name: Option<Seq<char>>,
    pub root_attributes: Option<Seq<AttributeModel>>,
}

impl View for CompilationUnit {
    type V = CompilationUnitModel;

    open spec fn view(&self) -> CompilationUnitModel {
        CompilationUnitModel {
            name: self.name.deep_view(),
            root_attributes: self.root_attributes.deep_view(),
        }
    }
}

impl DeepView for CompilationUnit {
    type V = CompilationUnitModel;

    open spec fn deep_view(&self) -> CompilationUnitModel {
        self@
    }
}

/// The kind of a symbol, with the names that its documentation page is made
/// of.
#[derive(PartialEq, Eq, Clone, Debug)]
pub enum Item {
    Module,
    Function(String),
    Struct(String),
    Union(String),
    Enum(String),
    /// A variant: the name of its enum, then its own.
    EnumVariant(String, String),
    Const(Option<String>),
    Static(Option<String>),
    Trait(String),
    TypeAlias(String),
    BuiltinType(String),
    Macro(Option<String>),
    Field,
    SelfType,
    Local,
    TypeParam,
}

/// The mathematical value of an [`Item`].
pub enum ItemModel {
    Module,
    Function(Seq<char>),
    Struct(Seq<char>),
    Union(Seq<char>),
    Enum(Seq<char>),
    EnumVariant(Seq<char>, Seq<char>),
    Const(Option<Seq<char>>),
    Static(Option<Seq<char>>),
    Trait(Seq<char>),
    TypeAlias(Seq<char>),
    BuiltinType(Seq<char>),
    Macro(Option<Seq<char>>),
    Field,
    SelfType,
    Local,
    TypeParam,
}

impl View for Item {
    type V = ItemModel;

    open spec fn view(&self) -> ItemModel {
        match self {
            Item::Module => ItemModel::Module,
            Item::Function(name) => ItemModel::Function(name@),
            Item::Struct(name) => ItemModel::Struct(name@),
            Item::Union(name) => ItemModel::Union(name@),
            Item::Enum(name) => ItemModel::Enum(name@),
            Item::EnumVariant(parent, name) => ItemModel::EnumVariant(parent@, name@),
            Item::Const(name) => ItemModel::Const(name.deep_view()),
            Item::Static(name) => ItemModel::Static(name.deep_view()),
            Item::Trait(name) => ItemModel::Trait(name@),
            Item::TypeAlias(name) => ItemModel::TypeAlias(name@),
            Item::BuiltinType(name) => ItemModel::BuiltinType(name@),
            Item::Macro(name) => ItemModel::Macro(name.deep_view()),
            Item::Field => ItemModel::Field,
            Item::SelfType => ItemModel::SelfType,
            Item::Local => ItemModel::Local,
            Item::TypeParam => ItemModel::TypeParam,
        }
    }
}

impl DeepView for Item {
    type V = ItemModel;

    open spec fn deep_view(&self) -> ItemModel {
        self@
    }
}

impl ItemModel {
    /// Whether the item is declared in a module of its own right: a module, a
    /// function, a type, a variant, a constant, a static, a trait, an alias
    /// or a built-in type.
    pub open spec fn is_module_item(self) -> bool {
        match self {
            ItemModel::Macro(_)
            | ItemModel::Field
            | ItemModel::SelfType
            | ItemModel::Local
            | ItemModel::TypeParam => false,
            _ => true,
        }
    }
}

impl Item {
    /// Whether the item is declared in a module of its own right.
    pub fn is_module_item(&self) -> (b: bool)
        ensures
            b == self@.is_module_item(),
    {
        match self {
            Item::Macro(_) | Item::Field | Item::SelfType | Item::Local | Item::TypeParam => false,
            _ => true,
        }
    }
}

/// A resolved symbol: what it is, the compilation unit that owns its module,
/// and the paths under which that unit exports it as a type and as a value.
#[derive(PartialEq, Eq, Clone, Debug)]
pub struct Definition {
    pub item: Item,
    pub unit: Option<CompilationUnit>,
    pub type_path: Option<Vec<String>>,
    pub value_path: Option<Vec<String>>,
}

/// The mathematical value of a [`Definition`].
pub struct DefinitionModel {
    pub item: ItemModel,
    pub unit: Option<CompilationUnitModel>,
    pub type_path: Option<Seq<Seq<char>>>,
    pub value_path: Option<Seq<Seq<char>>>,
}

impl View for Definition {
    type V = DefinitionModel;

    open spec fn view(&self) -> DefinitionModel {
        DefinitionModel {
            item: self.item@,
            unit: self.unit.deep_view(),
            type_path: self.type_path.deep_view(),
            value_path: self.value_path.deep_view(),
        }
    }
}

impl DeepView for Definition {
    type V = DefinitionModel;

    open spec fn deep_view(&self) -> DefinitionModel {
        self@
    }
}

/// What one path resolves to: at most one symbol among the types and at most
/// one among the values.
#[derive(PartialEq, Eq, Clone, Debug)]
pub struct Binding {
    pub path: ModulePath,
    pub types: Option<Definition>,
    pub values: Option<Definition>,
}

/// The mathematical value of a [`Binding`].
pub struct BindingModel {
    pub path: ModulePathModel,
    pub types: Option<DefinitionModel>,
    pub values: Option<DefinitionModel>,
}

impl View for Binding {
    type V = BindingModel;

    open spec fn view(&self) -> BindingModel {
        BindingModel {
            path: self.path@,
            types: self.types.deep_view(),
            values: self.values.deep_view(),
        }
    }
}

impl DeepView for Binding {
    type V = BindingModel;

    open spec fn deep_view(&self) -> BindingModel {
        self@
    }
}

/// What the symbol database answers where the documented item stands:
/// whether paths can be resolved there at all, and if so, what each path that
/// resolves stands for. A path without a binding resolves to nothing.
#[derive(PartialEq, Eq, Clone, Debug)]
pub struct SymbolDatabase {
    pub scope: Option<Vec<Binding>>,
}

/// The mathematical value of a [`SymbolDatabase`].
pub struct SymbolDatabaseModel {
    pub scope: Option<Seq<BindingModel>>,
}

impl View for SymbolDatabase {
    type V = SymbolDatabaseModel;

    open spec fn view(&self) -> SymbolDatabaseModel {
        SymbolDatabaseModel { scope: self.scope.deep_view() }
    }
}

/// The first binding of `path` among `bindings`.
pub open spec fn binding_of(bindings: Seq<BindingModel>, path: ModulePathModel) -> Option<
    BindingModel,
>
    decreases bindings.len(),
{
    if bindings.len() == 0 {
        None
    } else if bindings[0].path == path {
        Some(bindings[0])
    } else {
        binding_of(bindings.skip(1), path)
    }
}

/// Whether two paths are the same path.
pub fn same_path(a: &ModulePath, b: &ModulePath) -> (same: bool)
    ensures
        same == (a@ == b@),
{
    if a.kind != b.kind {
        return false;
    }
    if a.segments.len() != b.segments.len() {
        assert(a@.segments.len() != b@.segments.len());
        return false;
    }
    let mut i: usize = 0;
    while i < a.segments.len()
        invariant
            i <= a.segments.len(),
            a.segments.len() == b.segments.len(),
            forall|j: int| 0 <= j < i ==> a.segments@[j]@ == b.segments@[j]@,
        decreases a.segments.len() - i,
    {
        if a.segments[i] != b.segments[i] {
            assert(a@.segments[i as int] != b@.segments[i as int]);
            return false;
        }
        i += 1;
    }
    assert(a@.segments =~= b@.segments);
    true
}

/// The first binding of `path` among `bindings`.
pub fn find_binding<'a>(bindings: &'a Vec<Binding>, path: &ModulePath) -> (found: Option<
    &'a Binding,
>)
    ensures
        found.deep_view() == binding_of(bindings.deep_view(), path@),
{
    let ghost all = bindings.deep_view();
    let mut i: usize = 0;
    assert(all.skip(0) =~= all);
    while i < bindings.len()
        invariant
            i <= bindings.len(),
            all == bindings.deep_view(),
            binding_of(all, path@) == binding_of(all.skip(i as int), path@),
        decreases bindings.len() - i,
    {
        assert(all.skip(i as int).skip(1) =~= all.skip(i + 1));
        assert(all.skip(i as int)[0] == bindings@[i as int]@);
        if same_path(&bindings[i].path, path) {
            return Some(&bindings[i]);
        }
        i += 1;
    }
    None
}

} // verus!
