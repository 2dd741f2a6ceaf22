//! From a link to the URL of what it names.
//!
//! A link is either a path into the program (`super::gateway::Shard`), to be
//! resolved in the scope of the documented item, or a relative reference into
//! the generated documentation (`../gateway/struct.Shard.html`), to be
//! resolved against the page of the documented item.

use crate::doc_url::{doc_url_of, get_doc_url};
use crate::filename::{get_symbol_filename, symbol_filename};
use crate::namespace::{
    lemma_macro_bang_strips_to_nothing, namespace_of, strip_prefixes_suffixes, stripped, Namespace,
};
use crate::path::{module_path_of, parse_module_path, pieces};
use crate::symbols::{
    binding_of, find_binding, Binding, BindingModel, Definition, DefinitionModel, SymbolDatabase,
    SymbolDatabaseModel,
};
use crate::text::{contains, join_parts, joined, occurs_in, trim_backticks, trim_code_marks};
use crate::urls::{join_url, url_join};
use vstd::prelude::*;
use vstd::string::StringExecFns;

verus! {

/// The target that is resolved: the one written, or the text of the link
/// without its code marks where none is written.
pub open spec fn effective_target(text: Seq<char>, target: Seq<char>) -> Seq<char> {
    if target.len() == 0 {
        trim_backticks(text)
    } else {
        target
    }
}

/// The symbol that a link means among the candidates of its path, and the
/// namespace it was found in. Without a disambiguator a type goes before a
/// value; with one only that namespace counts; macros are never selected.
pub open spec fn selected(namespace: Option<Namespace>, binding: Option<BindingModel>) -> Option<
    (DefinitionModel, Namespace),
> {
    match binding {
        None => None,
        Some(binding) => match namespace {
            None => match binding.types {
                Some(definition) => Some((definition, Namespace::Types)),
                None => match binding.values {
                    Some(definition) => Some((definition, Namespace::Values)),
                    None => None,
                },
            },
            Some(Namespace::Types) => match binding.types {
                Some(definition) => Some((definition, Namespace::Types)),
                None => None,
            },
            Some(Namespace::Values) => match binding.values {
                Some(definition) => Some((definition, Namespace::Values)),
                None => None,
            },
            Some(Namespace::Macros) => None,
        },
    }
}

/// The path under which a symbol is exported in a namespace.
pub open spec fn import_path(definition: DefinitionModel, namespace: Namespace) -> Option<
    Seq<Seq<char>>,
> {
    match namespace {
        Namespace::Types => definition.type_path,
        Namespace::Values => definition.value_path,
        Namespace::Macros => None,
    }
}

/// `base` joined with each reference in turn; `None` as soon as one join
/// fails.
pub open spec fn url_join_each(base: Seq<char>, references: Seq<Seq<char>>) -> Option<Seq<char>>
    decreases references.len(),
{
    if references.len() == 0 {
        Some(base)
    } else {
        match url_join_each(base, references.drop_last()) {
            Some(url) => url_join(url, references.last()),
            None => None,
        }
    }
}

/// The URL of a symbol's page: the root URL of its unit, joined with the
/// unit's name and a slash, then with the exported path, its names separated
/// by slashes, then with the file name of the page.
pub open spec fn symbol_url(definition: DefinitionModel, namespace: Namespace) -> Option<
    Seq<char>,
> {
    match definition.unit {
        None => None,
        Some(unit) => match (
            import_path(definition, namespace),
            doc_url_of(unit),
            unit.name,
            symbol_filename(definition.item),
        ) {
            (Some(path), Some(root), Some(name), Some(file)) => url_join_each(
                root,
                seq![name + "/"@, joined(path, "/"@), file],
            ),
            _ => None,
        },
    }
}

/// What an intra-doc link resolves to: the URL of the page of the symbol
/// that its path names, and its text without disambiguators.
pub open spec fn intra_resolution(
    db: SymbolDatabaseModel,
    text: Seq<char>,
    target: Seq<char>,
) -> Option<(Seq<char>, Seq<char>)> {
    let target = effective_target(text, target);
    match (module_path_of(stripped(target)), db.scope) {
        (Some(path), Some(bindings)) => match selected(
            namespace_of(target),
            binding_of(bindings, path),
        ) {
            Some((definition, namespace)) => match symbol_url(definition, namespace) {
                Some(url) => Some((url, stripped(text))),
                None => None,
            },
            None => None,
        },
        _ => None,
    }
}

/// Whether a link looks like a reference into generated documentation.
pub open spec fn is_path_link(link: Seq<char>) -> bool {
    occurs_in("#"@, link) || occurs_in(".html"@, link)
}

/// What a path-based link resolves to: the link, resolved against the page
/// of the documented item, which is found under the root URL of its unit at
/// the unit's name and the item's exported path.
pub open spec fn path_resolution(definition: DefinitionModel, link: Seq<char>) -> Option<
    Seq<char>,
> {
    if is_path_link(link) && definition.item.is_module_item() {
        match definition.unit {
            None => None,
            Some(unit) => match (
                unit.name,
                definition.type_path,
                doc_url_of(unit),
                symbol_filename(definition.item),
            ) {
                (Some(name), Some(path), Some(root), Some(file)) => url_join_each(
                    root,
                    seq![joined(seq![name] + path, "/"@), file, link],
                ),
                _ => None,
            },
        }
    } else {
        None
    }
}

/// What a link is rewritten to: target and text as they are where the target
/// holds `://`; else what the intra-doc resolution gives; else the URL of the
/// path-based resolution with the text as it is; else target and text as they
/// are.
pub open spec fn link_resolution(
    db: SymbolDatabaseModel,
    definition: DefinitionModel,
    target: Seq<char>,
    text: Seq<char>,
) -> (Seq<char>, Seq<char>) {
    if occurs_in("://"@, target) {
        (target, text)
    } else {
        match intra_resolution(db, text, target) {
            Some(resolved) => resolved,
            None => match path_resolution(definition, target) {
                Some(url) => (url, text),
                None => (target, text),
            },
        }
    }
}

/// A value is selected wherever the path names one and the link either asks
/// for a value, whether or not the path names a type too, or asks for
/// nothing while the path names no type.
pub proof fn lemma_value_is_selected(namespace: Option<Namespace>, binding: BindingModel)
    requires
        binding.values is Some,
        namespace == Some(Namespace::Values) || (namespace is None && binding.types is None),
    ensures
        selected(namespace, Some(binding)) == Some((binding.values.unwrap(), Namespace::Values)),
{
}

/// A link that asks for a macro selects nothing, whatever its path names.
pub proof fn lemma_macro_is_never_selected(binding: Option<BindingModel>)
    ensures
        selected(Some(Namespace::Macros), binding) is None,
{
}

/// A target that strips to nothing is never resolved as a path into the
/// program, whatever the scope holds.
pub proof fn lemma_bare_target_unresolved(db: SymbolDatabaseModel, text: Seq<char>, target: Seq<char>)
    requires
        stripped(effective_target(text, target)).len() == 0,
    ensures
        intra_resolution(db, text, target) is None,
{
    let bare = stripped(effective_target(text, target));
    assert(bare =~= Seq::<char>::empty());
    assert(pieces(bare).len() == 1);
    assert(pieces(bare)[0].len() == 0);
}

/// The target `macro!` is never resolved as a path into the program,
/// whatever the scope holds and whatever the text of the link is.
pub proof fn lemma_macro_bang_unresolved(db: SymbolDatabaseModel, text: Seq<char>)
    ensures
        intra_resolution(db, text, "macro!"@) is None,
{
    reveal_strlit("macro!");
    lemma_macro_bang_strips_to_nothing();
    lemma_bare_target_unresolved(db, text, "macro!"@);
}

/// Picks the symbol that a link means among the candidates of its path.
///
/// An explicit namespace decides alone: with `Values` the value is taken,
/// whether or not a type of the same spelling exists, and with `Macros`
/// nothing is.
pub fn select_candidate<'a>(namespace: Option<Namespace>, binding: Option<&'a Binding>) -> (chosen:
    Option<(&'a Definition, Namespace)>)
    ensures
        chosen.deep_view() == selected(namespace, binding.deep_view()),
{
    let binding = match binding {
        Some(binding) => binding,
        None => {
            return None;
        },
    };
    match namespace {
        None => match &binding.types {
            Some(definition) => Some((definition, Namespace::Types)),
            None => match &binding.values {
                Some(definition) => Some((definition, Namespace::Values)),
                None => None,
            },
        },
        Some(Namespace::Types) => match &binding.types {
            Some(definition) => Some((definition, Namespace::Types)),
            None => None,
        },
        Some(Namespace::Values) => match &binding.values {
            Some(definition) => Some((definition, Namespace::Values)),
            None => None,
        },
        Some(Namespace::Macros) => None,
    }
}

/// Joins `base` with each reference in turn.
pub fn join_each(base: &str, references: &Vec<String>) -> (url: Option<String>)
    ensures
        url.deep_view() == url_join_each(base@, references.deep_view()),
{
    let ghost all = references.deep_view();
    let ghost start = base@;
    let mut url = base.to_owned();
    let mut i: usize = 0;
    while i < references.len()
        invariant
            i <= references.len(),
            all == references.deep_view(),
            start == base@,
            url_join_each(start, all.take(i as int)) == Some(url@),
        decreases references.len() - i,
    {
        assert(all.take(i + 1).drop_last() =~= all.take(i as int));
        assert(all.take(i + 1).last() == references@[i as int]@);
        match join_url(url.as_str(), references[i].as_str()) {
            Some(next) => {
                url = next;
            },
            None => {
                proof {
                    assert(url_join_each(start, all.take(i + 1)) is None);
                    lemma_join_each_fails(start, all, i + 1);
                }
                return None;
            },
        }
        i += 1;
    }
    assert(all.take(references.len() as int) =~= all);
    Some(url)
}

/// Once a join has failed, the rest fails.
pub proof fn lemma_join_each_fails(base: Seq<char>, references: Seq<Seq<char>>, n: int)
    requires
        0 <= n <= references.len(),
        url_join_each(base, references.take(n)) is None,
    ensures
        url_join_each(base, references) is None,
    decreases references.len() - n,
{
    if n < references.len() {
        assert(references.take(n + 1).drop_last() =~= references.take(n));
        lemma_join_each_fails(base, references, n + 1);
    } else {
        assert(references.take(n) =~= references);
    }
}

/// The URL of the page of a symbol found in `namespace`.
pub fn get_symbol_url(definition: &Definition, namespace: Namespace) -> (url: Option<String>)
    ensures
        url.deep_view() == symbol_url(definition@, namespace),
{
    let unit = match &definition.unit {
        Some(unit) => unit,
        None => {
            return None;
        },
    };
    let path = match namespace {
        Namespace::Types => &definition.type_path,
        Namespace::Values => &definition.value_path,
        Namespace::Macros => {
            return None;
        },
    };
    let path = match path {
        Some(path) => path,
        None => {
            return None;
        },
    };
    let root = match get_doc_url(unit) {
        Some(root) => root,
        None => {
            return None;
        },
    };
    let name = match &unit.name {
        Some(name) => name,
        None => {
            return None;
        },
    };
    let file = match get_symbol_filename(definition) {
        Some(file) => file,
        None => {
            return None;
        },
    };
    let mut folder = name.clone();
    folder.append("/");
    let mut references: Vec<String> = Vec::new();
    references.push(folder);
    references.push(join_parts(path, "/"));
    references.push(file);
    assert(references.deep_view() =~= seq![
        name@ + "/"@,
        joined(path.deep_view(), "/"@),
        file@,
    ]);
    join_each(root.as_str(), &references)
}

/// Tries to resolve a link as a path into the program, such as
/// `super::gateway::Shard`.
///
/// Returns the URL of the page of the symbol that the path names in the scope
/// of `db`, and the text of the link without disambiguators; `None` where the
/// target spells no path, nothing can be resolved in the scope, the path
/// names nothing in the namespace asked for, the symbol has no unit, no
/// exported path or no page, or a URL cannot be made.
pub fn try_resolve_intra(db: &SymbolDatabase, link_text: &str, link_target: &str) -> (resolved:
    Option<(String, String)>)
    ensures
        resolved.deep_view() == intra_resolution(db@, link_text@, link_target@),
{
    let target = if link_target.is_empty() {
        trim_code_marks(link_text)
    } else {
        link_target
    };
    let namespace = Namespace::from_intra_spec(target);
    let path = match parse_module_path(strip_prefixes_suffixes(target)) {
        Some(path) => path,
        None => {
            return None;
        },
    };
    let bindings = match &db.scope {
        Some(bindings) => bindings,
        None => {
            return None;
        },
    };
    let (definition, namespace) = match select_candidate(namespace, find_binding(bindings, &path)) {
        Some(chosen) => chosen,
        None => {
            return None;
        },
    };
    match get_symbol_url(definition, namespace) {
        Some(url) => Some((url, strip_prefixes_suffixes(link_text).to_owned())),
        None => None,
    }
}

/// Tries to resolve a link as a reference into generated documentation, such
/// as `../gateway/struct.Shard.html`.
///
/// Only a link that holds `#` or `.html` is tried, and only for a documented
/// item that is declared in a module. The link is resolved against the page
/// of that item.
pub fn try_resolve_path(definition: &Definition, link: &str) -> (resolved: Option<String>)
    ensures
        resolved.deep_view() == path_resolution(definition@, link@),
{
    if !contains(link, "#") && !contains(link, ".html") {
        return None;
    }
    if !definition.item.is_module_item() {
        return None;
    }
    let unit = match &definition.unit {
        Some(unit) => unit,
        None => {
            return None;
        },
    };
    let name = match &unit.name {
        Some(name) => name,
        None => {
            return None;
        },
    };
    let path = match &definition.type_path {
        Some(path) => path,
        None => {
            return None;
        },
    };
    let root = match get_doc_url(unit) {
        Some(root) => root,
        None => {
            return None;
        },
    };
    let file = match get_symbol_filename(definition) {
        Some(file) => file,
        None => {
            return None;
        },
    };
    let mut parts: Vec<String> = Vec::new();
    parts.push(name.clone());
    let mut i: usize = 0;
    while i < path.len()
        invariant
            i <= path.len(),
            parts.len() == i + 1,
            parts@[0]@ == name@,
            forall|k: int| 1 <= k <= i ==> (#[trigger] parts@[k])@ == path@[k - 1]@,
        decreases path.len() - i,
    {
        parts.push(path[i].clone());
        i += 1;
    }
    assert(parts.deep_view() =~= seq![name@] + path.deep_view());
    let mut references: Vec<String> = Vec::new();
    references.push(join_parts(&parts, "/"));
    references.push(file);
    references.push(link.to_owned());
    assert(references.deep_view() =~= seq![
        joined(seq![name@] + path.deep_view(), "/"@),
        file@,
        link@,
    ]);
    join_each(root.as_str(), &references)
}

/// Decides what a link is rewritten to.
///
/// A target that holds `://` is taken for a URL and left alone. Any other is
/// tried as a path into the program, then as a reference into generated
/// documentation; where neither resolves it, target and text stay as they
/// are.
pub fn resolve_link(db: &SymbolDatabase, definition: &Definition, target: &str, text: &str) -> (link:
    (String, String))
    ensures
        link.deep_view() == link_resolution(db@, definition@, target@, text@),
        occurs_in("://"@, target@) ==> link.0@ == target@ && link.1@ == text@,
        intra_resolution(db@, text@, target@) is None && path_resolution(definition@, target@)
            is None ==> link.0@ == target@ && link.1@ == text@,
{
    if contains(target, "://") {
        return (target.to_owned(), text.to_owned());
    }
    match try_resolve_intra(db, text, target) {
        Some(resolved) => resolved,
        None => match try_resolve_path(definition, target) {
            Some(url) => (url, text.to_owned()),
            None => (target.to_owned(), text.to_owned()),
        },
    }
}

} // verus!
