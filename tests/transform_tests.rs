use react_css_modules::transform::classify_import;
use react_css_modules::{
    Attr, AttrValue, AutoMapCssModules, Config, DiagnosticKind, ImportAction, ImportBinding,
};

fn config() -> Config {
    Config {
        root: "/project".to_string(),
        generate_scoped_name: "[local]_1".to_string(),
        hash_prefix: "".to_string(),
        css_modules_suffix: ".module.css".to_string(),
    }
}

fn transform() -> AutoMapCssModules {
    AutoMapCssModules::new("/cwd", "src/app.jsx", config(), None).unwrap()
}

fn dynamic_element(handle: u64) -> Vec<Attr> {
    vec![Attr::Named { name: "styleName".to_string(), value: AttrValue::Expr(handle) }]
}

#[test]
fn directories_of_a_relative_file() {
    let t = transform();
    assert_eq!(t.dir, "/project/src");
    assert_eq!(t.virtual_dir, "/project/src");
    let t = AutoMapCssModules::new("/cwd", "/project/src/app.jsx", config(), Some("/sandbox".to_string())).unwrap();
    assert_eq!(t.dir, "/project/src");
    assert_eq!(t.virtual_dir, "/sandbox/src");
}

#[test]
fn empty_root_falls_back_to_working_directory() {
    let mut c = config();
    c.root = String::new();
    let t = AutoMapCssModules::new("/work", "a/b.jsx", c, None).unwrap();
    assert_eq!(t.context, "/work");
    assert_eq!(t.dir, "/work/a");
}

#[test]
fn unusable_paths_are_a_configuration_error() {
    let err = AutoMapCssModules::new("/cwd", "/elsewhere/app.jsx", config(), None).err().unwrap();
    assert_eq!(err.kind, DiagnosticKind::ConfigurationError);
    let mut c = config();
    c.root = String::new();
    assert!(AutoMapCssModules::new("cwd", "src/app.jsx", c, None).is_err());
    assert!(AutoMapCssModules::new("/cwd", "src/app.jsx", config(), Some("sandbox".to_string())).is_err());
}

#[test]
fn configured_root_is_taken_as_given() {
    let r = AutoMapCssModules::new("/cwd", "src/app.jsx", config(), None).unwrap();
    assert_eq!(r.context, "/project");
    let mut c = config();
    c.root = "web".to_string();
    let err = AutoMapCssModules::new("/cwd", "src/app.jsx", c, None).err().unwrap();
    assert_eq!(err.kind, DiagnosticKind::ConfigurationError);
}

#[test]
fn named_import_is_rejected() {
    let mut t = transform();
    let r = t.visit_mut_import_decl("x.module.css", &vec![ImportBinding::Named]);
    assert!(r.is_empty());
    assert_eq!(t.diagnostics.len(), 1);
    assert_eq!(t.diagnostics[0].kind, DiagnosticKind::UnsupportedImportForm);
    assert!(t.diagnostics[0].kind.is_error());
    assert!(t.style_maps_for_file.entries().is_empty());
    let bindings = vec![ImportBinding::Default("s".to_string()), ImportBinding::Named];
    assert!(matches!(classify_import("x.module.css", ".module.css", &bindings), ImportAction::Reject));
}

#[test]
fn style_imports_resolve_paths_per_alias() {
    let mut t = transform();
    let r = t.visit_mut_import_decl("./a.module.css", &vec![ImportBinding::Default("styles".to_string())]);
    assert_eq!(r.len(), 1);
    assert_eq!(r[0].0, "styles");
    assert_eq!(r[0].1.full_path, "/project/src/a.module.css");
    assert_eq!(r[0].1.fs_path, "/project/src/a.module.css");
    let r = t.visit_mut_import_decl("../b.module.css", &vec![]);
    assert_eq!(r.len(), 1);
    assert_eq!(r[0].0, "");
    assert_eq!(r[0].1.full_path, "/project/b.module.css");
    let r = t.visit_mut_import_decl("./a.css", &vec![ImportBinding::Namespace("s".to_string())]);
    assert!(r.is_empty());
    assert!(t.diagnostics.is_empty());
}

#[test]
fn failed_stylesheet_registers_an_empty_table() {
    let mut t = transform();
    let parser = t.visit_mut_import_decl("./a.module.css", &vec![ImportBinding::Default("s".to_string())]).remove(0).1;
    assert!(t.analyse_stylesheet(&"s".to_string(), &parser, None).is_none());
    assert_eq!(t.diagnostics.len(), 1);
    assert_eq!(t.diagnostics[0].kind, DiagnosticKind::FileReadFailure);
    assert_eq!(t.diagnostics[0].subject, "Could not read /project/src/a.module.css");
    let e = t.style_maps_for_file.entries();
    assert_eq!(e.len(), 1);
    assert_eq!(e[0].0, "s");
    assert!(e[0].1.is_empty());
}

#[test]
fn unresolved_name_is_a_warning() {
    let mut t = transform();
    t.register("".to_string(), vec![("a".to_string(), "x1".to_string())]);
    let attrs = vec![Attr::Named { name: "styleName".to_string(), value: AttrValue::Text("a gone".to_string()) }];
    let e = t.visit_mut_jsx_opening_element(&attrs).unwrap();
    assert_eq!(e.style_index, 0);
    match e.class_name {
        Some(react_css_modules::ClassValue::Text(s)) => assert_eq!(s, "x1 "),
        _ => panic!("expected a literal class"),
    }
    assert_eq!(t.diagnostics.len(), 1);
    assert_eq!(t.diagnostics[0].kind, DiagnosticKind::UnresolvedStyleName);
    assert_eq!(t.diagnostics[0].subject, "gone");
    assert!(!t.diagnostics[0].kind.is_error());
    assert!(!t.is_runtime_helper_req);
}

#[test]
fn two_dynamic_elements_give_one_injection() {
    let mut t = transform();
    t.visit_mut_jsx_opening_element(&dynamic_element(1));
    assert!(t.is_runtime_helper_req);
    t.visit_mut_jsx_opening_element(&dynamic_element(2));
    assert!(t.is_runtime_helper_req);
    assert_eq!(t.visit_mut_module(&vec![true, true, false, true, false]), Some(2));
}

#[test]
fn no_injection_without_dynamic_style() {
    let t = transform();
    assert_eq!(t.visit_mut_module(&vec![true, false]), None);
}

#[test]
fn module_of_imports_alone_gets_no_injection() {
    let mut t = transform();
    t.visit_mut_jsx_opening_element(&dynamic_element(1));
    assert!(t.is_runtime_helper_req);
    assert_eq!(t.visit_mut_module(&vec![true, true]), None);
    assert_eq!(t.visit_mut_module(&vec![]), None);
}

#[test]
fn unparsable_stylesheet_is_a_processing_failure() {
    let mut t = transform();
    let parser = t.visit_mut_import_decl("./a.module.css", &vec![]).remove(0).1;
    assert!(t.analyse_stylesheet(&"".to_string(), &parser, Some("div { composes: a; }")).is_none());
    assert_eq!(t.diagnostics.len(), 1);
    assert_eq!(t.diagnostics[0].kind, DiagnosticKind::CssProcessingFailure);
    assert_eq!(t.style_maps_for_file.entries().len(), 1);
}

#[test]
fn analysed_stylesheet_is_registered() {
    let mut t = transform();
    let parser = t.visit_mut_import_decl("./a.module.css", &vec![ImportBinding::Default("s".to_string())]).remove(0).1;
    let (exports, sources) = t.analyse_stylesheet(&"s".to_string(), &parser, Some(".a{} .b{composes: a;}")).unwrap();
    assert!(t.diagnostics.is_empty());
    assert!(t.style_maps_for_file.entries().is_empty());
    let generated: Vec<Vec<String>> = sources
        .iter()
        .map(|parts| {
            parts
                .iter()
                .map(|p| match p {
                    react_css_modules::NameSource::Generate { name, .. } => format!("{}_h", name),
                    react_css_modules::NameSource::Verbatim { name } => name.clone(),
                })
                .collect()
        })
        .collect();
    t.finish_stylesheet("s".to_string(), &parser, &exports, &generated);
    assert_eq!(t.style_maps_for_file.resolve_token("s.b"), Some("b_h a_h".to_string()));
    assert_eq!(t.style_maps_for_file.resolve_token("a"), Some("a_h".to_string()));
}
