use react_css_modules::registry::StyleMapRegistry;
use react_css_modules::{rewrite_element, Attr, AttrValue, ClassValue};

fn table(pairs: &[(&str, &str)]) -> Vec<(String, String)> {
    pairs.iter().map(|(k, v)| (k.to_string(), v.to_string())).collect()
}

fn named(name: &str, value: AttrValue) -> Attr {
    Attr::Named { name: name.to_string(), value }
}

fn text(s: &str) -> AttrValue {
    AttrValue::Text(s.to_string())
}

fn registry() -> StyleMapRegistry {
    let mut reg = StyleMapRegistry::new();
    reg.insert("".to_string(), table(&[("a", "x1"), ("b", "x2")]));
    reg
}

#[test]
fn static_merge_puts_prior_text_first() {
    let attrs = vec![named("className", text("existing")), named("styleName", text("a b"))];
    let e = rewrite_element(&registry(), &attrs).unwrap();
    assert!(e.kept.is_empty());
    assert!(!e.dynamic);
    match e.class_name {
        Some(ClassValue::Text(s)) => assert_eq!(s, "existing x1 x2"),
        _ => panic!("expected a literal class"),
    }
}

#[test]
fn static_without_prior_class() {
    let attrs = vec![named("id", text("k")), named("styleName", text("  b   a "))];
    let e = rewrite_element(&registry(), &attrs).unwrap();
    assert_eq!(e.kept, vec![0]);
    match e.class_name {
        Some(ClassValue::Text(s)) => assert_eq!(s, "x2 x1"),
        _ => panic!("expected a literal class"),
    }
}

#[test]
fn static_after_prior_expression() {
    let attrs = vec![named("className", AttrValue::Expr(3)), named("styleName", text("a"))];
    let e = rewrite_element(&registry(), &attrs).unwrap();
    match e.class_name {
        Some(ClassValue::ExprThenText(3, s)) => assert_eq!(s, "x1"),
        _ => panic!("expected `${{e}} x1`"),
    }
}

#[test]
fn unresolved_token_is_empty_and_reported() {
    let attrs = vec![named("styleName", text("a nope b"))];
    let e = rewrite_element(&registry(), &attrs).unwrap();
    assert_eq!(e.unresolved, vec!["nope".to_string()]);
    match e.class_name {
        Some(ClassValue::Text(s)) => assert_eq!(s, "x1  x2"),
        _ => panic!("expected a literal class"),
    }
}

#[test]
fn dynamic_without_prior_is_a_helper_call() {
    let attrs = vec![named("styleName", AttrValue::Expr(9)), Attr::Spread];
    let e = rewrite_element(&registry(), &attrs).unwrap();
    assert!(e.dynamic);
    assert_eq!(e.kept, vec![1]);
    assert!(matches!(e.class_name, Some(ClassValue::Helper(9))));
}

#[test]
fn dynamic_after_prior_text_and_expression() {
    let attrs = vec![named("className", text("base")), named("styleName", AttrValue::Expr(4))];
    let e = rewrite_element(&registry(), &attrs).unwrap();
    match e.class_name {
        Some(ClassValue::TextThenHelper(s, 4)) => assert_eq!(s, "base"),
        _ => panic!("expected `base ${{helper}}`"),
    }
    let attrs = vec![named("styleName", AttrValue::Expr(4)), named("className", AttrValue::Expr(2))];
    let e = rewrite_element(&registry(), &attrs).unwrap();
    assert!(matches!(e.class_name, Some(ClassValue::ExprThenHelper(2, 4))));
}

#[test]
fn element_without_style_name_is_untouched() {
    let attrs = vec![named("className", text("a")), Attr::Spread];
    assert!(rewrite_element(&registry(), &attrs).is_none());
}

#[test]
fn style_name_without_value_drops_both_attributes() {
    let attrs = vec![named("className", text("a")), named("styleName", AttrValue::Missing), named("x", text("y"))];
    let e = rewrite_element(&registry(), &attrs).unwrap();
    assert_eq!(e.kept, vec![2]);
    assert!(e.class_name.is_none());
}

#[test]
fn prior_class_without_value() {
    let attrs = vec![named("className", AttrValue::Missing), named("styleName", text("a"))];
    let e = rewrite_element(&registry(), &attrs).unwrap();
    assert!(e.kept.is_empty());
    assert!(e.class_name.is_none());
    let attrs = vec![named("className", AttrValue::Missing), named("styleName", AttrValue::Expr(5))];
    let e = rewrite_element(&registry(), &attrs).unwrap();
    match e.class_name {
        Some(ClassValue::Text(s)) => assert_eq!(s, ""),
        _ => panic!("expected an empty literal"),
    }
}
