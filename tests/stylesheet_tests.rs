use react_css_modules::{ClassExport, ComposedReference, CssModuleParser, NameSource};

fn parser() -> CssModuleParser {
    CssModuleParser::new(
        "[local]_1".to_string(),
        "/project".to_string(),
        "".to_string(),
        "/cwd/src/a.module.css".to_string(),
        "/project/src/a.module.css".to_string(),
    )
}

/// A stand-in name generator: the local name followed by `_1`.
fn generate(sources: &[NameSource]) -> Vec<String> {
    sources
        .iter()
        .map(|s| match s {
            NameSource::Generate { name, .. } => format!("{}_1", name),
            NameSource::Verbatim { name } => name.clone(),
        })
        .collect()
}

fn table_of(css: &str) -> Vec<(String, String)> {
    let p = parser();
    let exports = p.module_exports(css).unwrap();
    let generated: Vec<Vec<String>> =
        exports.iter().map(|e| generate(&p.name_sources(e).unwrap())).collect();
    let mut t = p.generate_style_name_map(&exports, &generated);
    t.sort();
    t
}

#[test]
fn composition_round_trip() {
    let t = table_of(".bar{} .baz{composes: bar;}");
    assert_eq!(
        t,
        vec![("bar".to_string(), "bar_1".to_string()), ("baz".to_string(), "baz_1 bar_1".to_string())]
    );
}

#[test]
fn global_composition_passes_through() {
    let t = table_of(".a{composes: shared from global;}");
    assert_eq!(t, vec![("a".to_string(), "a_1 shared".to_string())]);
}

#[test]
fn composes_outside_a_class_selector_is_an_error() {
    assert!(parser().module_exports("div { composes: a; }").is_err());
}

#[test]
fn dependency_is_resolved_from_the_stylesheet_directory() {
    let p = parser();
    let e = ClassExport {
        local_name: "x".to_string(),
        composes: vec![
            ComposedReference::Dependency { name: "y".to_string(), specifier: "../lib/b.css".to_string() },
            ComposedReference::Local { name: "z".to_string() },
            ComposedReference::Global { name: "g".to_string() },
        ],
    };
    let s = p.name_sources(&e).unwrap();
    assert_eq!(s.len(), 4);
    match &s[0] {
        NameSource::Generate { name, path } => {
            assert_eq!(name, "x");
            assert_eq!(path, "/project/src/a.module.css");
        }
        _ => panic!("own name is generated"),
    }
    match &s[1] {
        NameSource::Generate { name, path } => {
            assert_eq!(name, "y");
            assert_eq!(path, "/project/lib/b.css");
        }
        _ => panic!("dependency is generated"),
    }
    match &s[2] {
        NameSource::Generate { name, path } => {
            assert_eq!(name, "z");
            assert_eq!(path, "/project/src/a.module.css");
        }
        _ => panic!("local is generated"),
    }
    assert!(matches!(&s[3], NameSource::Verbatim { name } if name == "g"));
}

#[test]
fn final_string_is_trimmed() {
    let p = parser();
    assert_eq!(p.css_module_exports_to_str(&vec!["own".to_string()]), "own");
    assert_eq!(
        p.css_module_exports_to_str(&vec!["own".to_string(), "a".to_string(), "b".to_string()]),
        "own a b"
    );
    assert_eq!(p.css_module_exports_to_str(&vec!["".to_string(), "a".to_string()]), "a");
}
