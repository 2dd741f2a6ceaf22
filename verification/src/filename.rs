//! The file that the documentation generator writes for a symbol.

use crate::symbols::{Definition, Item, ItemModel};
use vstd::prelude::*;
use vstd::string::StringExecFns;

verus! {

/// The page of an item of the given kind: `kind`, the name, `.html`.
pub open spec fn page(kind: Seq<char>, name: Seq<char>) -> Seq<char> {
    kind + name + ".html"@
}

/// The page of an item that may have no name.
pub open spec fn page_if_named(kind: Seq<char>, name: Option<Seq<char>>) -> Option<Seq<char>> {
    match name {
        Some(name) => Some(page(kind, name)),
        None => None,
    }
}

/// The file name, with its fragment if any, under which the documentation of
/// an item is found; `None` for an item that has no page of its own and for a
/// constant, static or macro without a name.
pub open spec fn symbol_filename(item: ItemModel) -> Option<Seq<char>> {
    match item {
        ItemModel::Struct(name) => Some(page("struct."@, name)),
        ItemModel::Enum(name) => Some(page("enum."@, name)),
        ItemModel::Union(name) => Some(page("union."@, name)),
        ItemModel::Module => Some("index.html"@),
        ItemModel::Trait(name) => Some(page("trait."@, name)),
        ItemModel::TypeAlias(name) => Some(page("type."@, name)),
        ItemModel::BuiltinType(name) => Some(page("primitive."@, name)),
        ItemModel::Function(name) => Some(page("fn."@, name)),
        ItemModel::EnumVariant(parent, name) => Some(page("enum."@, parent) + "#variant."@ + name),
        ItemModel::Const(name) => page_if_named("const."@, name),
        ItemModel::Static(name) => page_if_named("static."@, name),
        ItemModel::Macro(name) => page_if_named("macro."@, name),
        ItemModel::Field | ItemModel::SelfType | ItemModel::Local | ItemModel::TypeParam => None,
    }
}

fn page_of(kind: &str, name: &String) -> (file: String)
    ensures
        file@ == page(kind@, name@),
{
    let mut file = kind.to_owned();
    file.append(name.as_str());
    file.append(".html");
    file
}

fn page_of_named(kind: &str, name: &Option<String>) -> (file: Option<String>)
    ensures
        file.deep_view() == page_if_named(kind@, name.deep_view()),
{
    match name {
        Some(name) => Some(page_of(kind, name)),
        None => None,
    }
}

/// The file name that the documentation generator gives to a symbol, such as
/// `struct.Shard.html`.
pub fn get_symbol_filename(definition: &Definition) -> (filename: Option<String>)
    ensures
        filename.deep_view() == symbol_filename(definition@.item),
{
    match &definition.item {
        Item::Struct(name) => Some(page_of("struct.", name)),
        Item::Enum(name) => Some(page_of("enum.", name)),
        Item::Union(name) => Some(page_of("union.", name)),
        Item::Module => Some("index.html".to_owned()),
        Item::Trait(name) => Some(page_of("trait.", name)),
        Item::TypeAlias(name) => Some(page_of("type.", name)),
        Item::BuiltinType(name) => Some(page_of("primitive.", name)),
        Item::Function(name) => Some(page_of("fn.", name)),
        Item::EnumVariant(parent, name) => {
            let mut file = page_of("enum.", parent);
            file.append("#variant.");
            file.append(name.as_str());
            Some(file)
        },
        Item::Const(name) => page_of_named("const.", name),
        Item::Static(name) => page_of_named("static.", name),
        Item::Macro(name) => page_of_named("macro.", name),
        Item::Field | Item::SelfType | Item::Local | Item::TypeParam => None,
    }
}

} // verus!
