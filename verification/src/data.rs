//! The data model of an analysis: package identity, modules, items, and the
//! aggregate result, together with the structural properties the analyzer
//! guarantees of every successful result.

use vstd::prelude::*;

verus! {

/// Identity of the analyzed package: its name and version.
#[derive(Debug, Clone)]
pub struct Crate {
    pub name: String,
    pub version: String,
}

/// One module of the package.
///
/// `path` is the full chain of identifiers from the package root identifier
/// down to and including this module's own identifier; the root module's
/// path is the single element `[package name]`. `declarations` lists the
/// names of the submodules this module declares as public, in source order;
/// it does not imply they were resolved to a file. `file` is the file the
/// module was read from; it is `None` only for values built by hand, never
/// for a module produced by the analyzer.
#[derive(Debug, Clone)]
pub struct Module {
    pub file: Option<String>,
    pub path: Vec<String>,
    pub docstring: Option<String>,
    pub declarations: Vec<String>,
}

/// A public struct declaration: the owning module's path with the struct's
/// own name appended, its doc comment, and its field descriptors.
#[derive(Debug, Clone)]
pub struct Struct {
    pub path: Vec<String>,
    pub docstring: Option<String>,
    pub fields: Vec<String>,
}

/// A public enum declaration, analogous to [`Struct`].
#[derive(Debug, Clone)]
pub struct Enum {
    pub path: Vec<String>,
    pub docstring: Option<String>,
    pub variants: Vec<String>,
}

/// A public function declaration, analogous to [`Struct`].
#[derive(Debug, Clone)]
pub struct Function {
    pub path: Vec<String>,
    pub docstring: Option<String>,
}

/// Result from a crate analysis.
#[derive(Debug, Clone)]
pub struct AnalysisResult {
    pub crate_: Crate,
    pub modules: Vec<Module>,
    pub structs: Vec<Struct>,
    pub enums: Vec<Enum>,
    pub functions: Vec<Function>,
}

impl AnalysisResult {
    /// An analysis of the given package that has not visited any file yet:
    /// the identity alone, with all item lists empty.
    pub fn new(crate_: Crate) -> (r: Self)
        ensures
            r.crate_ == crate_,
            r.modules@ == Seq::<Module>::empty(),
            r.structs@ == Seq::<Struct>::empty(),
            r.enums@ == Seq::<Enum>::empty(),
            r.functions@ == Seq::<Function>::empty(),
    {
        Self {
            crate_,
            modules: vec![],
            structs: vec![],
            enums: vec![],
            functions: vec![],
        }
    }
}

/// `q` is the path of a direct child of the entity whose path is `p`: it is
/// `p` with exactly one identifier appended.
pub open spec fn extends_by_one(p: Seq<Seq<char>>, q: Seq<Seq<char>>) -> bool {
    q.len() == p.len() + 1 && q.drop_last() == p
}

/// The module at position `i` of the result has a parent module listed
/// before it: some earlier module's path, extended by one identifier, is
/// this module's path.
pub open spec fn has_parent_before(r: AnalysisResult, i: int) -> bool {
    exists|j: int| 0 <= j < i && extends_by_one(
        #[trigger] r.modules@[j].path.deep_view(),
        r.modules@[i].path.deep_view(),
    )
}

/// Tree consistency: the first module is the package root, whose path is the
/// single identifier `crate_.name`, and every later module's path is the
/// path of some earlier module with exactly one identifier appended.
pub open spec fn modules_form_tree(r: AnalysisResult) -> bool {
    &&& r.modules.len() > 0 ==> r.modules@[0].path.deep_view()
        == seq![r.crate_.name@]
    &&& forall|i: int| 1 <= i < r.modules.len() ==> #[trigger] has_parent_before(r, i)
}

/// The path `p` belongs to an item owned by a module of `r`: all but its
/// last identifier equal the path of some module present in the result.
pub open spec fn owned_by_module(r: AnalysisResult, p: Seq<Seq<char>>) -> bool {
    exists|j: int| 0 <= j < r.modules.len() && extends_by_one(
        #[trigger] r.modules@[j].path.deep_view(),
        p,
    )
}

/// Ownership: every struct, enum and function path is a module path of the
/// result with the item's own name appended.
pub open spec fn items_owned(r: AnalysisResult) -> bool {
    &&& forall|i: int| #![auto] 0 <= i < r.structs.len()
        ==> owned_by_module(r, r.structs@[i].path.deep_view())
    &&& forall|i: int| #![auto] 0 <= i < r.enums.len()
        ==> owned_by_module(r, r.enums@[i].path.deep_view())
    &&& forall|i: int| #![auto] 0 <= i < r.functions.len()
        ==> owned_by_module(r, r.functions@[i].path.deep_view())
}

/// File-level deduplication: every module records the file it was read
/// from, and no two modules were read from the same file.
pub open spec fn files_unique(r: AnalysisResult) -> bool {
    &&& forall|i: int| 0 <= i < r.modules.len() ==> (#[trigger] r.modules@[i].file) is Some
    &&& forall|i: int, j: int| #![auto] 0 <= i < j < r.modules.len()
        ==> r.modules@[i].file.deep_view() != r.modules@[j].file.deep_view()
}

} // verus!
