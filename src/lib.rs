//! Resolution of CSS-module class names for `styleName` attributes: stylesheet
//! export tables, a per-module registry of aliases, the per-element rewrite
//! decision and the placement of the runtime lookup declarations.
use vstd::prelude::*;

pub mod paths;
pub mod registry;
pub mod rewrite;
pub mod stylesheet;
pub mod text;
pub mod transform;

pub use registry::{StyleMapRegistry, StyleTable};
pub use rewrite::{rewrite_element, Attr, AttrKind, AttrValue, ClassValue, ElementRewrite};
pub use stylesheet::{ClassExport, ComposedReference, CssModuleParser, NameSource};
pub use transform::{AutoMapCssModules, Config, Diagnostic, DiagnosticKind, ImportAction, ImportBinding};

verus! {

} // verus!
