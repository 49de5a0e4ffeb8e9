use react_css_modules::registry::StyleMapRegistry;

fn table(pairs: &[(&str, &str)]) -> Vec<(String, String)> {
    pairs.iter().map(|(k, v)| (k.to_string(), v.to_string())).collect()
}

fn get(reg: &StyleMapRegistry, token: &str) -> Option<String> {
    reg.resolve_token(token)
}

#[test]
fn qualified_resolves_only_within_its_alias() {
    let mut reg = StyleMapRegistry::new();
    reg.insert("styles".to_string(), table(&[("foo", "s_foo")]));
    reg.insert("other".to_string(), table(&[("foo", "o_foo"), ("bar", "o_bar")]));
    assert_eq!(get(&reg, "styles.foo"), Some("s_foo".to_string()));
    assert_eq!(get(&reg, "other.foo"), Some("o_foo".to_string()));
    assert_eq!(get(&reg, "styles.bar"), None);
    assert_eq!(get(&reg, "missing.foo"), None);
}

#[test]
fn unqualified_prefers_anonymous_then_registration_order() {
    let mut reg = StyleMapRegistry::new();
    reg.insert("first".to_string(), table(&[("foo", "f_foo"), ("bar", "f_bar")]));
    reg.insert("second".to_string(), table(&[("bar", "s_bar"), ("baz", "s_baz")]));
    assert_eq!(get(&reg, "bar"), Some("f_bar".to_string()));
    assert_eq!(get(&reg, "baz"), Some("s_baz".to_string()));
    reg.insert("".to_string(), table(&[("baz", "anon_baz")]));
    assert_eq!(get(&reg, "baz"), Some("anon_baz".to_string()));
    assert_eq!(get(&reg, "foo"), Some("f_foo".to_string()));
    assert_eq!(get(&reg, "nothing"), None);
}

#[test]
fn more_than_one_separator_never_resolves() {
    let mut reg = StyleMapRegistry::new();
    reg.insert("a".to_string(), table(&[("b.c", "x")]));
    assert_eq!(get(&reg, "a.b.c"), None);
}

#[test]
fn reimport_replaces_the_table_wholesale() {
    let mut reg = StyleMapRegistry::new();
    reg.insert("s".to_string(), table(&[("foo", "one")]));
    reg.insert("t".to_string(), table(&[("qux", "t_qux")]));
    reg.insert("s".to_string(), table(&[("bar", "two")]));
    assert_eq!(get(&reg, "s.foo"), None);
    assert_eq!(get(&reg, "s.bar"), Some("two".to_string()));
    let aliases: Vec<&str> = reg.entries().iter().map(|(a, _)| a.as_str()).collect();
    assert_eq!(aliases, vec!["s", "t"]);
}

#[test]
fn static_value_joins_resolved_tokens() {
    let mut reg = StyleMapRegistry::new();
    reg.insert("".to_string(), table(&[("a", "x1"), ("b", "x2")]));
    let (s, missing) = reg.resolve_style_names("a\tb\n");
    assert_eq!(s, "x1 x2");
    assert!(missing.is_empty());
    let (s, missing) = reg.resolve_style_names("");
    assert_eq!(s, "");
    assert!(missing.is_empty());
    let (s, missing) = reg.resolve_style_names("zz a");
    assert_eq!(s, " x1");
    assert_eq!(missing, vec!["zz".to_string()]);
}
