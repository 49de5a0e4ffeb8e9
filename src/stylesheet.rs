//! Stylesheet analysis: the exports of a CSS module, the names each export
//! is made of, and the final class string of each.
use vstd::prelude::*;
use lightningcss::css_modules::{Config, CssModuleReference, Pattern};
use lightningcss::printer::PrinterOptions;
use lightningcss::stylesheet::{ParserOptions, StyleSheet};
use crate::paths::{absolutize_path, absolutized, has_root, is_rooted, parent_of, parent_path};
use crate::registry::{distinct_keys, table_view};
use crate::text::{join_spaced, join_with_spaces, trim, trim_text, views};
use vstd::string::StringExecFns;

verus! {

/// A class that an export composes.
#[derive(Debug)]
pub enum ComposedReference {
    /// A class of the same stylesheet.
    Local { name: String },
    /// A global class name, used as it is.
    Global { name: String },
    /// A class of another stylesheet, named by a specifier relative to this one.
    Dependency { name: String, specifier: String },
}

/// One class of a stylesheet and the classes it composes, in declaration order.
#[derive(Debug)]
pub struct ClassExport {
    pub local_name: String,
    pub composes: Vec<ComposedReference>,
}

/// Where one part of a final class string comes from.
#[derive(Debug)]
pub enum NameSource {
    /// The name generator, applied to a local name and a canonical stylesheet path.
    Generate { name: String, path: String },
    /// The name itself.
    Verbatim { name: String },
}

/// A composed reference as (variant, name, specifier): 0 local, 1 global,
/// 2 dependency; the specifier is empty but for a dependency.
pub open spec fn reference_view(r: ComposedReference) -> (nat, Seq<char>, Seq<char>) {
    match r {
        ComposedReference::Local { name } => (0, name@, seq![]),
        ComposedReference::Global { name } => (1, name@, seq![]),
        ComposedReference::Dependency { name, specifier } => (2, name@, specifier@),
    }
}

pub open spec fn references_view(v: Seq<ComposedReference>) -> Seq<(nat, Seq<char>, Seq<char>)> {
    v.map_values(|r: ComposedReference| reference_view(r))
}

pub open spec fn raw_exports_view(v: Seq<(String, Vec<ComposedReference>)>) -> Seq<(Seq<char>, Seq<(nat, Seq<char>, Seq<char>)>)> {
    v.map_values(|p: (String, Vec<ComposedReference>)| (p.0@, references_view(p.1@)))
}

pub open spec fn class_exports_view(v: Seq<ClassExport>) -> Seq<(Seq<char>, Seq<(nat, Seq<char>, Seq<char>)>)> {
    v.map_values(|e: ClassExport| (e.local_name@, references_view(e.composes@)))
}

/// The map from local name to composed references that a list of exports holds.
pub open spec fn exports_map(s: Seq<(Seq<char>, Seq<(nat, Seq<char>, Seq<char>)>)>) -> Map<Seq<char>, Seq<(nat, Seq<char>, Seq<char>)>> {
    Map::new(
        |k: Seq<char>| exists|i: int| 0 <= i < s.len() && s[i].0 == k,
        |k: Seq<char>| s[choose|i: int| 0 <= i < s.len() && s[i].0 == k].1,
    )
}

/// What lightningcss makes of a CSS module's text and file name: each
/// exported local name with the references it composes, or `None` where the
/// text does not parse or print.
pub uninterp spec fn parsed_exports(code: Seq<char>, filename: Seq<char>) -> Option<Map<Seq<char>, Seq<(nat, Seq<char>, Seq<char>)>>>;

pub open spec fn distinct_names(v: Seq<(String, Vec<ComposedReference>)>) -> bool {
    forall|i: int, j: int| 0 <= i < j < v.len() ==> v[i].0@ != v[j].0@
}

pub open spec fn distinct_exports(v: Seq<ClassExport>) -> bool {
    forall|i: int, j: int| 0 <= i < j < v.len() ==> v[i].local_name@ != v[j].local_name@
}

#[verifier::external_type_specification]
#[verifier::external_body]
pub struct ExCssModuleReference(CssModuleReference);

/// Relies on lightningcss's `CssModuleReference`: each variant moved into the
/// variant of the same name.
#[verifier::external_body]
fn reference_of(r: CssModuleReference) -> ComposedReference {
    match r {
        CssModuleReference::Local { name } => ComposedReference::Local { name },
        CssModuleReference::Global { name } => ComposedReference::Global { name },
        CssModuleReference::Dependency { name, specifier } => ComposedReference::Dependency { name, specifier },
    }
}

/// Relies on lightningcss's `StyleSheet::parse` with CSS modules on and the
/// pattern `[local]`, then `StyleSheet::to_css`: the exports, each with what it
/// composes. The result depends on the text and file name alone; the exports
/// come from a map keyed by the local name, so the names are distinct, and
/// their order is not fixed.
#[verifier::external_body]
fn css_module_exports(code: &str, filename: &str) -> (r: Result<Vec<(String, Vec<ComposedReference>)>, String>)
    ensures
        r is Ok <==> parsed_exports(code@, filename@) is Some,
        r matches Ok(v) ==> distinct_names(v@) && parsed_exports(code@, filename@) == Some(
            exports_map(raw_exports_view(v@)),
        ),
{
    let modules = Config { pattern: Pattern::parse("[local]").unwrap(), ..Config::default() };
    let options = ParserOptions { filename: filename.to_string(), css_modules: Some(modules), ..ParserOptions::default() };
    let sheet = StyleSheet::parse(code, options).map_err(|e| e.to_string())?;
    let printed = sheet.to_css(PrinterOptions::default()).map_err(|e| e.to_string())?;
    let exports = printed.exports.unwrap_or_default().into_iter();
    Ok(exports.map(|(k, v)| (k, v.composes.into_iter().map(reference_of).collect())).collect())
}

/// The final class string of an export from its generated parts: the export's
/// own name, a space, the composed names joined with spaces, trimmed.
pub open spec fn export_string(parts: Seq<Seq<char>>) -> Seq<char> {
    trim(parts[0] + seq![' '] + join_spaced(parts.skip(1)))
}

/// Where a composed reference's name comes from, for a stylesheet at `full_path`.
pub open spec fn reference_source(r: ComposedReference, full_path: Seq<char>) -> Option<(bool, Seq<char>, Seq<char>)> {
    match r {
        ComposedReference::Local { name } => Some((true, name@, full_path)),
        ComposedReference::Global { name } => Some((false, name@, seq![])),
        ComposedReference::Dependency { name, specifier } => match parent_of(full_path) {
            Some(dir) => if is_rooted(dir) {
                Some((true, name@, absolutized(specifier@, dir)))
            } else {
                None
            },
            None => None,
        },
    }
}

/// `v` lists the sources of an export's parts: its own name, generated
/// against `full_path`, then each composed reference in order.
pub open spec fn sources_for(export: ClassExport, full_path: Seq<char>, v: Seq<NameSource>) -> bool {
    &&& v.len() == export.composes@.len() + 1
    &&& source_view(v[0]) == (true, export.local_name@, full_path)
    &&& forall|k: int|
        0 <= k < export.composes@.len() ==> Some(source_view(#[trigger] v[k + 1])) == reference_source(
            export.composes@[k],
            full_path,
        )
}

/// A dependency can be placed: the stylesheet's path has a rooted parent.
pub open spec fn dependency_base(full_path: Seq<char>) -> bool {
    parent_of(full_path) matches Some(d) && is_rooted(d)
}

/// A name source as (generated?, name, path).
pub open spec fn source_view(s: NameSource) -> (bool, Seq<char>, Seq<char>) {
    match s {
        NameSource::Generate { name, path } => (true, name@, path@),
        NameSource::Verbatim { name } => (false, name@, seq![]),
    }
}

pub struct CssModuleParser {
    /// The pattern handed to the name generator.
    pub pattern: String,
    /// The project root.
    pub context: String,
    pub hash_prefix: String,
    /// The path through which the stylesheet can be read.
    pub fs_path: String,
    /// The canonical path of the stylesheet, which generated names depend on.
    pub full_path: String,
}

impl CssModuleParser {
    pub fn new(pattern: String, context: String, hash_prefix: String, fs_path: String, full_path: String) -> (r: Self)
        ensures
            r.pattern == pattern,
            r.context == context,
            r.hash_prefix == hash_prefix,
            r.fs_path == fs_path,
            r.full_path == full_path,
    {
        CssModuleParser { pattern, context, hash_prefix, fs_path, full_path }
    }

    /// The exports of the stylesheet text `contents`, parsed as a CSS module
    /// named by the canonical path; the error text where it does not parse or print.
    pub fn module_exports(&self, contents: &str) -> (r: Result<Vec<ClassExport>, String>)
        ensures
            r is Ok <==> parsed_exports(contents@, self.full_path@) is Some,
            r matches Ok(v) ==> distinct_exports(v@) && parsed_exports(contents@, self.full_path@) == Some(
                exports_map(class_exports_view(v@)),
            ),
    {
        let raw = match css_module_exports(contents, self.full_path.as_str()) {
            Ok(raw) => raw,
            Err(e) => return Err(e),
        };
        let mut out: Vec<ClassExport> = Vec::new();
        let mut rest = raw;
        let ghost all = rest@;
        while rest.len() > 0
            invariant
                distinct_names(all),
                out@.len() + rest@.len() == all.len(),
                rest@ == all.skip(out@.len() as int),
                class_exports_view(out@) == raw_exports_view(all).take(out@.len() as int),
                forall|k: int| 0 <= k < out@.len() ==> #[trigger] out@[k].local_name@ == all[k].0@,
            decreases rest@.len(),
        {
            let ghost n: int = out@.len() as int;
            let ghost before = class_exports_view(out@);
            let (local_name, composes) = rest.remove(0);
            assert(rest@ =~= all.skip(n + 1));
            out.push(ClassExport { local_name, composes });
            assert(class_exports_view(out@) =~= before.push(raw_exports_view(all)[n]));
            assert(class_exports_view(out@) =~= raw_exports_view(all).take(n + 1));
        }
        assert(class_exports_view(out@) =~= raw_exports_view(all));
        assert forall|i: int, j: int| 0 <= i < j < out@.len() implies out@[i].local_name@ != out@[j].local_name@ by {
            assert(out@[i].local_name@ == all[i].0@);
            assert(out@[j].local_name@ == all[j].0@);
        }
        Ok(out)
    }

    /// The sources of the parts of an export's final class string: its own
    /// name, then each composed class in order. `None` where a dependency
    /// cannot be placed because the stylesheet's path has no rooted parent.
    pub fn name_sources(&self, export: &ClassExport) -> (r: Option<Vec<NameSource>>)
        ensures
            r is Some <==> forall|k: int|
                0 <= k < export.composes@.len() ==> (#[trigger] reference_source(export.composes@[k], self.full_path@)) is Some,
            r matches Some(v) ==> sources_for(*export, self.full_path@, v@),
    {
        let mut v: Vec<NameSource> = Vec::new();
        v.push(NameSource::Generate { name: export.local_name.clone(), path: self.full_path.clone() });
        let mut i: usize = 0;
        while i < export.composes.len()
            invariant
                i <= export.composes@.len(),
                v@.len() == i + 1,
                source_view(v@[0]) == (true, export.local_name@, self.full_path@),
                forall|k: int| 0 <= k < i ==> (#[trigger] reference_source(export.composes@[k], self.full_path@)) is Some,
                forall|k: int|
                    0 <= k < i ==> Some(source_view(#[trigger] v@[k + 1])) == reference_source(
                        export.composes@[k],
                        self.full_path@,
                    ),
            decreases export.composes@.len() - i,
        {
            let source = match &export.composes[i] {
                ComposedReference::Local { name } => NameSource::Generate { name: name.clone(), path: self.full_path.clone() },
                ComposedReference::Global { name } => {
                    NameSource::Verbatim { name: name.clone() }
                },
                ComposedReference::Dependency { name, specifier } => {
                    let dir = match parent_path(self.full_path.as_str()) {
                        Some(d) => d,
                        None => return None,
                    };
                    if !has_root(dir.as_str()) {
                        return None;
                    }
                    let path = absolutize_path(specifier.as_str(), dir.as_str());
                    NameSource::Generate { name: name.clone(), path }
                },
            };
            proof {
                reveal_strlit("");
            }
            assert(Some(source_view(source)) == reference_source(export.composes@[i as int], self.full_path@));
            v.push(source);
            i = i + 1;
        }
        Some(v)
    }

    /// The final class string of an export from its parts, in the order that
    /// `name_sources` gives them.
    pub fn css_module_exports_to_str(&self, parts: &Vec<String>) -> (r: String)
        requires
            parts@.len() >= 1,
        ensures
            r@ == export_string(views(parts@)),
    {
        let mut composed: Vec<String> = Vec::new();
        let mut i: usize = 1;
        while i < parts.len()
            invariant
                1 <= i <= parts@.len(),
                views(composed@) == views(parts@).subrange(1, i as int),
            decreases parts@.len() - i,
        {
            let ghost before = composed@;
            composed.push(parts[i].clone());
            assert(composed@ =~= before.push(parts@[i as int]));
            assert(views(composed@) =~= views(before).push(parts@[i as int]@));
            assert(views(composed@) =~= views(parts@).subrange(1, i + 1));
            i = i + 1;
        }
        assert(views(parts@).skip(1) =~= views(parts@).subrange(1, parts@.len() as int));
        let mut line = parts[0].clone();
        proof {
            reveal_strlit(" ");
        }
        line.append(" ");
        let tail = join_with_spaces(&composed);
        line.append(tail.as_str());
        assert(line@ =~= views(parts@)[0] + seq![' '] + join_spaced(views(parts@).skip(1)));
        trim_text(line.as_str())
    }

    /// The style table of a stylesheet: each export's local name with its
    /// final class string, where `generated[i]` holds the parts of export `i`.
    pub fn generate_style_name_map(&self, exports: &Vec<ClassExport>, generated: &Vec<Vec<String>>) -> (r: Vec<(String, String)>)
        requires
            generated@.len() == exports@.len(),
            forall|i: int| 0 <= i < generated@.len() ==> (#[trigger] generated@[i])@.len() >= 1,
            distinct_exports(exports@),
        ensures
            distinct_keys(table_view(r@)),
            r@.len() == exports@.len(),
            forall|i: int|
                0 <= i < r@.len() ==> (#[trigger] r@[i]).0@ == exports@[i].local_name@ && r@[i].1@
                    == export_string(views(generated@[i]@)),
    {
        let mut r: Vec<(String, String)> = Vec::new();
        let mut i: usize = 0;
        while i < exports.len()
            invariant
                i <= exports@.len(),
                generated@.len() == exports@.len(),
                forall|k: int| 0 <= k < generated@.len() ==> (#[trigger] generated@[k])@.len() >= 1,
                r@.len() == i,
                forall|k: int|
                    0 <= k < i ==> (#[trigger] r@[k]).0@ == exports@[k].local_name@ && r@[k].1@
                        == export_string(views(generated@[k]@)),
            decreases exports@.len() - i,
        {
            let s = self.css_module_exports_to_str(&generated[i]);
            r.push((exports[i].local_name.clone(), s));
            i = i + 1;
        }
        assert forall|a: int, b: int| 0 <= a < b < r@.len() implies table_view(r@)[a].0 != table_view(r@)[b].0 by {
            assert(r@[a].0@ == exports@[a].local_name@);
            assert(r@[b].0@ == exports@[b].local_name@);
        }
        r
    }
}

} // verus!
