//! The transform of one module: its configuration, the state threaded
//! through the pass (registry, helper flag, diagnostics), import handling,
//! element handling and the placement of the injected declarations.
use vstd::prelude::*;
use vstd::string::StrSliceExecFns;
use vstd::string::StringExecFns;
use crate::paths::{
    absolutize_path, absolutized, dirs_of, get_dirs, has_root, is_rooted, lemma_pushed_rooted, parent_of,
    stripped,
};
use crate::registry::{distinct_keys, first_match, inserted, table_view, StyleMapRegistry, StyleTable};
use crate::rewrite::{last_of_kind, rewrite_element, rewrite_of, value_of_kind, Attr, AttrKind, AttrValue, ElementRewrite};
use crate::stylesheet::{
    class_exports_view, dependency_base, distinct_exports, reference_source, export_string, exports_map, parsed_exports, sources_for,
    ClassExport, CssModuleParser, NameSource,
};
use crate::text::{same_text, views};

verus! {

/// The transform's settings.
#[derive(Debug)]
pub struct Config {
    /// Project root; the working directory when empty.
    pub root: String,
    /// Pattern handed to the name generator.
    pub generate_scoped_name: String,
    pub hash_prefix: String,
    /// Ending of the specifiers that name style modules.
    pub css_modules_suffix: String,
}

#[derive(PartialEq, Eq, Structural, Clone, Copy, Debug)]
pub enum DiagnosticKind {
    ConfigurationError,
    UnsupportedImportForm,
    FileReadFailure,
    CssProcessingFailure,
    UnresolvedStyleName,
}

impl DiagnosticKind {
    /// Whether the diagnostic fails the module's compilation.
    pub fn is_error(&self) -> (r: bool)
        ensures
            r == !(*self is UnresolvedStyleName),
    {
        !matches!(self, DiagnosticKind::UnresolvedStyleName)
    }
}

/// A diagnostic and what it is about (a token, a specifier, an error text).
#[derive(Debug)]
pub struct Diagnostic {
    pub kind: DiagnosticKind,
    pub subject: String,
}

/// A binding of an import statement.
#[derive(Debug)]
pub enum ImportBinding {
    Default(String),
    Namespace(String),
    Named,
}

/// What an import statement asks of the transform.
#[derive(Debug)]
pub enum ImportAction {
    /// Not a style module.
    Ignore,
    /// A style module imported with named bindings.
    Reject,
    /// A style module, registered under each of these aliases.
    Register(Vec<String>),
}

pub open spec fn ends_with(s: Seq<char>, suffix: Seq<char>) -> bool {
    suffix.len() <= s.len() && s.skip(s.len() - suffix.len()) == suffix
}

pub open spec fn binding_alias(b: ImportBinding) -> Seq<char> {
    match b {
        ImportBinding::Default(a) => a@,
        ImportBinding::Namespace(a) => a@,
        ImportBinding::Named => seq![],
    }
}

pub open spec fn has_named(bs: Seq<ImportBinding>) -> bool {
    exists|i: int| 0 <= i < bs.len() && bs[i] is Named
}

/// The aliases a style import registers: the empty alias for a bare import,
/// else each binding's local name in order.
pub open spec fn import_aliases(bs: Seq<ImportBinding>) -> Seq<Seq<char>> {
    if bs.len() == 0 {
        seq![seq![]]
    } else {
        bs.map_values(|b: ImportBinding| binding_alias(b))
    }
}

pub fn text_ends_with(s: &str, suffix: &str) -> (r: bool)
    ensures
        r == ends_with(s@, suffix@),
{
    let n = s.unicode_len();
    let m = suffix.unicode_len();
    if m > n {
        return false;
    }
    let tail = s.substring_char(n - m, n);
    assert(tail@ =~= s@.skip(n - m));
    same_text(tail, suffix)
}

/// Classifies an import of `specifier` with `bindings`.
pub fn classify_import(specifier: &str, suffix: &str, bindings: &Vec<ImportBinding>) -> (r: ImportAction)
    ensures
        !ends_with(specifier@, suffix@) ==> r is Ignore,
        ends_with(specifier@, suffix@) && has_named(bindings@) ==> r is Reject,
        ends_with(specifier@, suffix@) && !has_named(bindings@) ==> (r matches ImportAction::Register(v)
            && views(v@) == import_aliases(bindings@)),
{
    if !text_ends_with(specifier, suffix) {
        return ImportAction::Ignore;
    }
    let mut aliases: Vec<String> = Vec::new();
    if bindings.len() == 0 {
        aliases.push(String::new());
        assert(views(aliases@) =~= import_aliases(bindings@));
        assert(!has_named(bindings@));
        return ImportAction::Register(aliases);
    }
    let mut i: usize = 0;
    while i < bindings.len()
        invariant
            i <= bindings@.len(),
            bindings@.len() > 0,
            ends_with(specifier@, suffix@),
            forall|k: int| 0 <= k < i ==> !(bindings@[k] is Named),
            views(aliases@) == import_aliases(bindings@).take(i as int),
        decreases bindings@.len() - i,
    {
        let ghost before = views(aliases@);
        match &bindings[i] {
            ImportBinding::Default(a) => aliases.push(a.clone()),
            ImportBinding::Namespace(a) => aliases.push(a.clone()),
            ImportBinding::Named => {
                assert(bindings@[i as int] is Named);
                assert(has_named(bindings@));
                return ImportAction::Reject;
            },
        }
        assert(views(aliases@) =~= before.push(binding_alias(bindings@[i as int])));
        assert(views(aliases@) =~= import_aliases(bindings@).take(i + 1));
        i = i + 1;
    }
    assert(import_aliases(bindings@).take(i as int) =~= import_aliases(bindings@));
    assert(!has_named(bindings@));
    ImportAction::Register(aliases)
}

/// The project root that a configuration and a working directory give: the
/// configured root, or the working directory when that is empty.
pub open spec fn context_of(config_root: Seq<char>, cwd: Seq<char>) -> Seq<char> {
    if config_root.len() == 0 {
        cwd
    } else {
        config_root
    }
}

/// Index of the first item that is not an import.
pub open spec fn first_non_import(is_import: Seq<bool>) -> Option<int>
    decreases is_import.len(),
{
    if is_import.len() == 0 {
        None
    } else if !is_import[0] {
        Some(0)
    } else {
        match first_non_import(is_import.drop_first()) {
            Some(i) => Some(i + 1),
            None => None,
        }
    }
}

/// The injection point is the end of the leading run of imports: every
/// item before it is an import and the item at it is not, so an import that
/// follows other code does not move it; with no such item there is none.
pub proof fn lemma_injection_point(is_import: Seq<bool>)
    ensures
        first_non_import(is_import) matches Some(i) ==> 0 <= i < is_import.len() && !is_import[i]
            && forall|k: int| 0 <= k < i ==> is_import[k],
        first_non_import(is_import) is None ==> forall|k: int| 0 <= k < is_import.len() ==> is_import[k],
    decreases is_import.len(),
{
    if is_import.len() > 0 && is_import[0] {
        lemma_injection_point(is_import.drop_first());
        assert forall|k: int| 1 <= k < is_import.len() implies is_import[k] == is_import.drop_first()[k - 1] by {}
    }
}

pub struct AutoMapCssModules {
    /// Directory of the file being transformed.
    pub dir: String,
    /// Directory through which its neighbours are read.
    pub virtual_dir: String,
    /// Project root.
    pub context: String,
    pub config: Config,
    /// Tables registered so far.
    pub style_maps_for_file: StyleMapRegistry,
    /// Whether an element used a dynamic `styleName`.
    pub is_runtime_helper_req: bool,
    pub diagnostics: Vec<Diagnostic>,
}

impl AutoMapCssModules {
    pub open spec fn wf(&self) -> bool {
        &&& self.style_maps_for_file.wf()
        &&& is_rooted(self.dir@)
        &&& is_rooted(self.virtual_dir@)
    }

    /// The transform of the file at `filepath`, run from `cwd`, with reads
    /// made under `read_root` (the project root when `None`). Fails with a
    /// configuration error where the project root or the read root is not
    /// absolute, or where the file's directories cannot be derived (see
    /// `dirs_of`).
    pub fn new(cwd: &str, filepath: &str, config: Config, read_root: Option<String>) -> (r: Result<Self, Diagnostic>)
        ensures
            ({
                let context = context_of(config.root@, cwd@);
                let rr = match read_root {
                    Some(x) => x@,
                    None => context,
                };
                let d = dirs_of(context, filepath@, rr);
                &&& (r is Ok <==> is_rooted(context) && is_rooted(rr) && d is Some)
                &&& r matches Ok(t) ==> {
                    &&& t.wf()
                    &&& (t.dir@, t.virtual_dir@) == d->0
                    &&& t.context@ == context
                    &&& t.config == config
                    &&& t.style_maps_for_file@.len() == 0
                    &&& !t.is_runtime_helper_req
                    &&& t.diagnostics@.len() == 0
                }
                &&& r matches Err(e) ==> e.kind == DiagnosticKind::ConfigurationError
            }),
    {
        let context = if config.root.unicode_len() == 0 {
            cwd.to_owned()
        } else {
            config.root.clone()
        };
        let rr = match read_root {
            Some(x) => x,
            None => context.clone(),
        };
        if !has_root(context.as_str()) || !has_root(rr.as_str()) {
            return Err(Diagnostic { kind: DiagnosticKind::ConfigurationError, subject: context });
        }
        match get_dirs(context.as_str(), filepath, rr.as_str()) {
            Some((dir, virtual_dir)) => {
                proof {
                    lemma_pushed_rooted(context@, parent_of(filepath@)->0);
                    lemma_pushed_rooted(rr@, parent_of(filepath@)->0);
                    if is_rooted(parent_of(filepath@)->0) {
                        lemma_pushed_rooted(rr@, stripped(parent_of(filepath@)->0, context@)->0);
                    }
                }
                Ok(AutoMapCssModules {
                    dir,
                    virtual_dir,
                    context,
                    config,
                    style_maps_for_file: StyleMapRegistry::new(),
                    is_runtime_helper_req: false,
                    diagnostics: Vec::new(),
                })
            },
            None => Err(Diagnostic { kind: DiagnosticKind::ConfigurationError, subject: filepath.to_owned() }),
        }
    }

    /// The stylesheet analysis for an import of `specifier`: read through
    /// the virtual directory, named by the canonical path.
    pub fn add_import(&self, specifier: &str) -> (r: CssModuleParser)
        requires
            self.wf(),
        ensures
            r.fs_path@ == absolutized(specifier@, self.virtual_dir@),
            r.full_path@ == absolutized(specifier@, self.dir@),
            r.pattern == self.config.generate_scoped_name,
            r.context == self.context,
            r.hash_prefix == self.config.hash_prefix,
    {
        let full_path = absolutize_path(specifier, self.dir.as_str());
        let fs_path = absolutize_path(specifier, self.virtual_dir.as_str());
        CssModuleParser::new(
            self.config.generate_scoped_name.clone(),
            self.context.clone(),
            self.config.hash_prefix.clone(),
            fs_path,
            full_path,
        )
    }

    /// An import statement: the aliases to analyse, with the analysis of
    /// each. Named bindings on a style import are reported and nothing is
    /// registered for the statement.
    pub fn visit_mut_import_decl(&mut self, specifier: &str, bindings: &Vec<ImportBinding>) -> (r: Vec<(String, CssModuleParser)>)
        requires
            old(self).wf(),
        ensures
            final(self).wf(),
            final(self).style_maps_for_file@ == old(self).style_maps_for_file@,
            final(self).is_runtime_helper_req == old(self).is_runtime_helper_req,
            final(self).dir == old(self).dir,
            final(self).virtual_dir == old(self).virtual_dir,
            final(self).context == old(self).context,
            final(self).config == old(self).config,
            !ends_with(specifier@, old(self).config.css_modules_suffix@) ==> r@.len() == 0
                && final(self).diagnostics@ == old(self).diagnostics@,
            ends_with(specifier@, old(self).config.css_modules_suffix@) && has_named(bindings@) ==> r@.len()
                == 0 && final(self).diagnostics@ == old(self).diagnostics@.push(final(self).diagnostics@.last())
                && final(self).diagnostics@.last().kind == DiagnosticKind::UnsupportedImportForm
                && final(self).diagnostics@.last().subject@ == specifier@,
            ends_with(specifier@, old(self).config.css_modules_suffix@) && !has_named(bindings@) ==> {
                &&& final(self).diagnostics@ == old(self).diagnostics@
                &&& r@.len() == import_aliases(bindings@).len()
                &&& forall|k: int|
                    0 <= k < r@.len() ==> (#[trigger] r@[k]).0@ == import_aliases(bindings@)[k]
                        && r@[k].1.full_path@ == absolutized(specifier@, old(self).dir@)
                        && r@[k].1.fs_path@ == absolutized(specifier@, old(self).virtual_dir@)
                        && r@[k].1.pattern == old(self).config.generate_scoped_name
                        && r@[k].1.context == old(self).context
                        && r@[k].1.hash_prefix == old(self).config.hash_prefix
            },
    {
        let mut r: Vec<(String, CssModuleParser)> = Vec::new();
        match classify_import(specifier, self.config.css_modules_suffix.as_str(), bindings) {
            ImportAction::Ignore => {},
            ImportAction::Reject => {
                let ghost before = self.diagnostics@;
                self.diagnostics.push(
                    Diagnostic { kind: DiagnosticKind::UnsupportedImportForm, subject: specifier.to_owned() },
                );
                assert(self.diagnostics@ =~= before.push(self.diagnostics@.last()));
            },
            ImportAction::Register(aliases) => {
                let mut i: usize = 0;
                while i < aliases.len()
                    invariant
                        self.wf(),
                        i <= aliases@.len(),
                        r@.len() == i,
                        forall|k: int|
                            0 <= k < i ==> (#[trigger] r@[k]).0@ == aliases@[k]@ && r@[k].1.full_path@
                                == absolutized(specifier@, self.dir@) && r@[k].1.fs_path@ == absolutized(
                                specifier@,
                                self.virtual_dir@,
                            ) && r@[k].1.pattern == self.config.generate_scoped_name && r@[k].1.context
                                == self.context && r@[k].1.hash_prefix == self.config.hash_prefix,
                    decreases aliases@.len() - i,
                {
                    let parser = self.add_import(specifier);
                    r.push((aliases[i].clone(), parser));
                    i = i + 1;
                }
                assert(forall|k: int| 0 <= k < aliases@.len() ==> views(aliases@)[k] == aliases@[k]@);
            },
        }
        r
    }

    /// Registers the table of a style import under `alias`, replacing one
    /// already there.
    pub fn register(&mut self, alias: String, table: StyleTable)
        requires
            old(self).wf(),
            distinct_keys(table_view(table@)),
        ensures
            final(self).wf(),
            inserted(old(self).style_maps_for_file@, (alias@, table_view(table@)), final(self).style_maps_for_file@),
            final(self).dir == old(self).dir,
            final(self).virtual_dir == old(self).virtual_dir,
            final(self).context == old(self).context,
            final(self).config == old(self).config,
            first_match(final(self).style_maps_for_file@, alias@) == Some(table_view(table@)),
            forall|a: Seq<char>|
                a != alias@ ==> first_match(final(self).style_maps_for_file@, a) == first_match(
                    old(self).style_maps_for_file@,
                    a,
                ),
            final(self).diagnostics@ == old(self).diagnostics@,
            final(self).is_runtime_helper_req == old(self).is_runtime_helper_req,
    {
        let ghost before = self.style_maps_for_file@;
        let ghost e = (alias@, table_view(table@));
        self.style_maps_for_file.insert(alias, table);
        proof {
            assert forall|a: Seq<char>| a != e.0 implies first_match(self.style_maps_for_file@, a)
                == first_match(before, a) by {
                if exists|i: int| 0 <= i < before.len() && before[i].0 == e.0 && self.style_maps_for_file@ == before.update(i, e) {
                    let i = choose|i: int| 0 <= i < before.len() && before[i].0 == e.0 && self.style_maps_for_file@ == before.update(i, e);
                    lemma_first_match_update(before, i, e, a);
                } else {
                    lemma_first_match_push(before, e, a);
                }
            }
        }
    }

    /// A style import whose stylesheet could not be read or processed: the
    /// failure is reported and `alias` maps to an empty table.
    fn register_failure(&mut self, alias: String, kind: DiagnosticKind, message: String)
        requires
            old(self).wf(),
            kind is FileReadFailure || kind is CssProcessingFailure,
        ensures
            final(self).wf(),
            inserted(
                old(self).style_maps_for_file@,
                (alias@, Seq::<(Seq<char>, Seq<char>)>::empty()),
                final(self).style_maps_for_file@,
            ),
            final(self).dir == old(self).dir,
            final(self).virtual_dir == old(self).virtual_dir,
            final(self).context == old(self).context,
            final(self).config == old(self).config,
            first_match(final(self).style_maps_for_file@, alias@) == Some(Seq::<(Seq<char>, Seq<char>)>::empty()),
            final(self).diagnostics@ == old(self).diagnostics@.push(Diagnostic { kind, subject: message }),
            final(self).is_runtime_helper_req == old(self).is_runtime_helper_req,
    {
        let empty: StyleTable = Vec::new();
        assert(table_view(empty@) =~= Seq::<(Seq<char>, Seq<char>)>::empty());
        self.style_maps_for_file.insert(alias, empty);
        self.diagnostics.push(Diagnostic { kind, subject: message });
    }

    /// The analysis of a style import's stylesheet, up to the name
    /// generator. `contents` is the stylesheet's text, `None` where it could
    /// not be read. On success the exports come back with the sources of
    /// each one's parts, and nothing changes yet. Otherwise the failure is
    /// reported (a read failure, or a processing failure where the text does
    /// not parse or a dependency cannot be placed) and `alias` maps to an
    /// empty table.
    pub fn analyse_stylesheet(&mut self, alias: &String, parser: &CssModuleParser, contents: Option<&str>) -> (r:
        Option<(Vec<ClassExport>, Vec<Vec<NameSource>>)>)
        requires
            old(self).wf(),
        ensures
            final(self).wf(),
            final(self).dir == old(self).dir,
            final(self).virtual_dir == old(self).virtual_dir,
            final(self).context == old(self).context,
            final(self).config == old(self).config,
            final(self).is_runtime_helper_req == old(self).is_runtime_helper_req,
            contents is None ==> r is None,
            contents matches Some(c) && parsed_exports(c@, parser.full_path@) is None ==> r is None,
            contents matches Some(c) && parsed_exports(c@, parser.full_path@) is Some && dependency_base(
                parser.full_path@,
            ) ==> r is Some,
            r matches Some(p) ==> {
                &&& final(self).style_maps_for_file@ == old(self).style_maps_for_file@
                &&& final(self).diagnostics@ == old(self).diagnostics@
                &&& distinct_exports(p.0@)
                &&& contents matches Some(c) && parsed_exports(c@, parser.full_path@) == Some(
                    exports_map(class_exports_view(p.0@)),
                )
                &&& p.1@.len() == p.0@.len()
                &&& forall|i: int| 0 <= i < p.0@.len() ==> sources_for(#[trigger] p.0@[i], parser.full_path@, p.1@[i]@)
            },
            r is None ==> {
                &&& inserted(
                    old(self).style_maps_for_file@,
                    (alias@, Seq::<(Seq<char>, Seq<char>)>::empty()),
                    final(self).style_maps_for_file@,
                )
                &&& final(self).diagnostics@ == old(self).diagnostics@.push(final(self).diagnostics@.last())
                &&& final(self).diagnostics@.last().kind == if contents is None {
                    DiagnosticKind::FileReadFailure
                } else {
                    DiagnosticKind::CssProcessingFailure
                }
            },
    {
        let c = match contents {
            Some(c) => c,
            None => {
                let mut msg = String::new();
                msg.append("Could not read ");
                msg.append(parser.full_path.as_str());
                self.register_failure(alias.clone(), DiagnosticKind::FileReadFailure, msg);
                return None;
            },
        };
        let exports = match parser.module_exports(c) {
            Ok(e) => e,
            Err(e) => {
                self.register_failure(alias.clone(), DiagnosticKind::CssProcessingFailure, e);
                return None;
            },
        };
        let mut sources: Vec<Vec<NameSource>> = Vec::new();
        let mut i: usize = 0;
        while i < exports.len()
            invariant
                self.wf(),
                self.dir == old(self).dir,
                self.virtual_dir == old(self).virtual_dir,
                self.context == old(self).context,
                self.config == old(self).config,
                self.is_runtime_helper_req == old(self).is_runtime_helper_req,
                self.style_maps_for_file@ == old(self).style_maps_for_file@,
                self.diagnostics@ == old(self).diagnostics@,
                contents == Some(c),
                distinct_exports(exports@),
                parsed_exports(c@, parser.full_path@) == Some(exports_map(class_exports_view(exports@))),
                i <= exports@.len(),
                sources@.len() == i,
                forall|k: int| 0 <= k < i ==> sources_for(#[trigger] exports@[k], parser.full_path@, sources@[k]@),
            decreases exports@.len() - i,
        {
            match parser.name_sources(&exports[i]) {
                Some(v) => sources.push(v),
                None => {
                    proof {
                        if dependency_base(parser.full_path@) {
                            assert forall|k: int| 0 <= k < exports@[i as int].composes@.len() implies (
                            #[trigger] reference_source(exports@[i as int].composes@[k], parser.full_path@)) is Some by {}
                        }
                    }
                    let mut msg = String::new();
                    msg.append("Cannot place a composed dependency of ");
                    msg.append(parser.full_path.as_str());
                    self.register_failure(alias.clone(), DiagnosticKind::CssProcessingFailure, msg);
                    return None;
                },
            }
            i = i + 1;
        }
        Some((exports, sources))
    }

    /// Registers the table of an analysed stylesheet under `alias`, where
    /// `generated[i]` holds the generated parts of export `i`.
    pub fn finish_stylesheet(
        &mut self,
        alias: String,
        parser: &CssModuleParser,
        exports: &Vec<ClassExport>,
        generated: &Vec<Vec<String>>,
    )
        requires
            old(self).wf(),
            distinct_exports(exports@),
            generated@.len() == exports@.len(),
            forall|i: int| 0 <= i < generated@.len() ==> (#[trigger] generated@[i])@.len() >= 1,
        ensures
            final(self).wf(),
            final(self).dir == old(self).dir,
            final(self).virtual_dir == old(self).virtual_dir,
            final(self).context == old(self).context,
            final(self).config == old(self).config,
            final(self).diagnostics@ == old(self).diagnostics@,
            final(self).is_runtime_helper_req == old(self).is_runtime_helper_req,
            exists|t: Seq<(String, String)>|
                {
                    &&& t.len() == exports@.len()
                    &&& forall|i: int|
                        0 <= i < t.len() ==> (#[trigger] t[i]).0@ == exports@[i].local_name@ && t[i].1@
                            == export_string(views(generated@[i]@))
                    &&& inserted(old(self).style_maps_for_file@, (alias@, table_view(t)), final(self).style_maps_for_file@)
                },
    {
        let table = parser.generate_style_name_map(exports, generated);
        self.register(alias, table);
    }

    /// An element with attributes `attrs`: its rewrite (see
    /// `rewrite_element`), each unresolved token reported as a warning, and
    /// the helper flag set where the `styleName` value is an expression.
    pub fn visit_mut_jsx_opening_element(&mut self, attrs: &Vec<Attr>) -> (r: Option<ElementRewrite>)
        requires
            old(self).wf(),
        ensures
            final(self).wf(),
            final(self).style_maps_for_file@ == old(self).style_maps_for_file@,
            r is None <==> last_of_kind(attrs@, AttrKind::StyleName) is None,
            final(self).is_runtime_helper_req == (old(self).is_runtime_helper_req || value_of_kind(
                attrs@,
                AttrKind::StyleName,
            ) matches Some(AttrValue::Expr(_))),
            final(self).dir == old(self).dir,
            final(self).virtual_dir == old(self).virtual_dir,
            final(self).context == old(self).context,
            final(self).config == old(self).config,
            r matches Some(e) ==> rewrite_of(old(self).style_maps_for_file@, attrs@, e),
            r matches Some(e) ==> {
                &&& final(self).diagnostics@.len() == old(self).diagnostics@.len() + e.unresolved@.len()
                &&& forall|k: int|
                    0 <= k < e.unresolved@.len() ==> (#[trigger] final(self).diagnostics@[old(
                        self,
                    ).diagnostics@.len() + k]).kind == DiagnosticKind::UnresolvedStyleName
                        && final(self).diagnostics@[old(self).diagnostics@.len() + k].subject
                        == e.unresolved@[k]
                &&& forall|k: int|
                    0 <= k < old(self).diagnostics@.len() ==> #[trigger] final(self).diagnostics@[k]
                        == old(self).diagnostics@[k]
            },
            r is None ==> final(self).diagnostics@ == old(self).diagnostics@,
    {
        let r = rewrite_element(&self.style_maps_for_file, attrs);
        match &r {
            Some(e) => {
                if e.dynamic {
                    self.is_runtime_helper_req = true;
                }
                let ghost start = self.diagnostics@;
                let ghost reg0 = self.style_maps_for_file@;
                let ghost flag0 = self.is_runtime_helper_req;
                let mut i: usize = 0;
                while i < e.unresolved.len()
                    invariant
                        self.wf(),
                        self.style_maps_for_file@ == reg0,
                        self.is_runtime_helper_req == flag0,
                        self.dir == old(self).dir,
                        self.virtual_dir == old(self).virtual_dir,
                        self.context == old(self).context,
                        self.config == old(self).config,
                        i <= e.unresolved@.len(),
                        self.diagnostics@.len() == start.len() + i,
                        forall|k: int| 0 <= k < start.len() ==> #[trigger] self.diagnostics@[k] == start[k],
                        forall|k: int|
                            0 <= k < i ==> (#[trigger] self.diagnostics@[start.len() + k]).kind
                                == DiagnosticKind::UnresolvedStyleName && self.diagnostics@[start.len()
                                + k].subject == e.unresolved@[k],
                    decreases e.unresolved@.len() - i,
                {
                    self.diagnostics.push(
                        Diagnostic { kind: DiagnosticKind::UnresolvedStyleName, subject: e.unresolved[i].clone() },
                    );
                    i = i + 1;
                }
            },
            None => {},
        }
        r
    }

    /// Where the helper import and the registry literal go, in that order:
    /// before the first item that is not an import, and only where a dynamic
    /// `styleName` was seen. A module of imports alone gets nothing.
    pub fn visit_mut_module(&self, is_import: &Vec<bool>) -> (r: Option<usize>)
        ensures
            !self.is_runtime_helper_req ==> r is None,
            self.is_runtime_helper_req ==> as_int_opt(r) == first_non_import(is_import@),
    {
        if !self.is_runtime_helper_req {
            return None;
        }
        let mut i: usize = 0;
        assert(is_import@.skip(0) =~= is_import@);
        while i < is_import.len()
            invariant
                i <= is_import@.len(),
                self.is_runtime_helper_req,
                first_non_import(is_import@) == match first_non_import(is_import@.skip(i as int)) {
                    Some(j) => Some(j + i),
                    None => None,
                },
            decreases is_import@.len() - i,
        {
            assert(is_import@.skip(i as int).drop_first() =~= is_import@.skip(i + 1));
            assert(is_import@.skip(i as int)[0] == is_import@[i as int]);
            if !is_import[i] {
                assert(first_non_import(is_import@.skip(i as int)) == Some(0int));
                return Some(i);
            }
            i = i + 1;
        }
        assert(is_import@.skip(i as int).len() == 0);
        None
    }
}

pub open spec fn as_int_opt(o: Option<usize>) -> Option<int> {
    match o {
        Some(k) => Some(k as int),
        None => None,
    }
}

proof fn lemma_first_match_push<V>(before: Seq<(Seq<char>, V)>, e: (Seq<char>, V), a: Seq<char>)
    requires
        e.0 != a,
    ensures
        first_match(before.push(e), a) == first_match(before, a),
    decreases before.len(),
{
    if before.len() == 0 {
        assert(before.push(e).drop_first().len() == 0);
        assert(before.push(e)[0] == e);
        assert(first_match(before.push(e).drop_first(), a) is None);
    } else {
        assert(before.push(e)[0] == before[0]);
        assert(before.push(e).drop_first() =~= before.drop_first().push(e));
        lemma_first_match_push(before.drop_first(), e, a);
    }
}

proof fn lemma_first_match_update<V>(before: Seq<(Seq<char>, V)>, i: int, e: (Seq<char>, V), a: Seq<char>)
    requires
        0 <= i < before.len(),
        before[i].0 == e.0,
        e.0 != a,
    ensures
        first_match(before.update(i, e), a) == first_match(before, a),
    decreases i,
{
    if i > 0 {
        assert(before.update(i, e).drop_first() =~= before.drop_first().update(i - 1, e));
        lemma_first_match_update(before.drop_first(), i - 1, e, a);
    } else {
        assert(before.update(i, e).drop_first() =~= before.drop_first());
    }
}

} // verus!
