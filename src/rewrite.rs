//! The rewrite of one element's `styleName` / `className` attributes, and the
//! classification of style-module imports.
use vstd::prelude::*;
use vstd::string::StrSliceExecFns;
use crate::registry::{static_classes, unresolved, StyleMapRegistry};
use crate::text::{same_text, views, words};
use vstd::string::StringExecFns;

verus! {

/// The attribute names the rewrite acts on.
#[derive(Debug)]
pub enum AttrKind {
    StyleName,
    ClassName,
    Other,
}

/// The value of an attribute.
#[derive(Debug)]
pub enum AttrValue {
    /// A string literal.
    Text(String),
    /// An expression, by a handle that the caller gives it.
    Expr(u64),
    /// No value, or one that is neither (an empty expression, an element).
    Missing,
}

/// An attribute of an element.
#[derive(Debug)]
pub enum Attr {
    Named { name: String, value: AttrValue },
    Spread,
}

/// The new class attribute's value. `helper(e)` stands for a call of the
/// runtime lookup helper on expression `e` and the emitted registry literal.
#[derive(Debug)]
pub enum ClassValue {
    /// `"s"`
    Text(String),
    /// `{helper(e)}`
    Helper(u64),
    /// `` `s ${helper(e)}` ``
    TextThenHelper(String, u64),
    /// `` `${e} s` ``
    ExprThenText(u64, String),
    /// `` `${e} ${helper(f)}` ``
    ExprThenHelper(u64, u64),
}

/// What to do to one element that carries a `styleName` attribute.
#[derive(Debug)]
pub struct ElementRewrite {
    /// Indices of the attributes that stay, in order.
    pub kept: Vec<usize>,
    /// The class attribute appended after them, if any.
    pub class_name: Option<ClassValue>,
    /// Tokens of a static `styleName` that did not resolve.
    pub unresolved: Vec<String>,
    /// Whether the `styleName` value is an expression.
    pub dynamic: bool,
    /// Index of the `styleName` attribute that decided the rewrite.
    pub style_index: usize,
}

pub open spec fn style_attr_name() -> Seq<char> {
    seq!['s', 't', 'y', 'l', 'e', 'N', 'a', 'm', 'e']
}

pub open spec fn class_attr_name() -> Seq<char> {
    seq!['c', 'l', 'a', 's', 's', 'N', 'a', 'm', 'e']
}

pub open spec fn kind_of_name(name: Seq<char>) -> AttrKind {
    if name == style_attr_name() {
        AttrKind::StyleName
    } else if name == class_attr_name() {
        AttrKind::ClassName
    } else {
        AttrKind::Other
    }
}

pub open spec fn attr_kind(a: Attr) -> AttrKind {
    match a {
        Attr::Named { name, .. } => kind_of_name(name@),
        Attr::Spread => AttrKind::Other,
    }
}

pub open spec fn attr_value(a: Attr) -> AttrValue {
    match a {
        Attr::Named { value, .. } => value,
        Attr::Spread => AttrValue::Missing,
    }
}

/// Index of the last attribute of kind `k`.
pub open spec fn last_of_kind(attrs: Seq<Attr>, k: AttrKind) -> Option<int>
    decreases attrs.len(),
{
    if attrs.len() == 0 {
        None
    } else if attr_kind(attrs.last()) == k {
        Some(attrs.len() - 1)
    } else {
        last_of_kind(attrs.drop_last(), k)
    }
}

/// The value of the last attribute of kind `k`.
pub open spec fn value_of_kind(attrs: Seq<Attr>, k: AttrKind) -> Option<AttrValue> {
    match last_of_kind(attrs, k) {
        Some(i) => Some(attr_value(attrs[i])),
        None => None,
    }
}

/// The value of the last prior `className` attribute.
pub open spec fn prior_class(attrs: Seq<Attr>) -> Option<AttrValue> {
    value_of_kind(attrs, AttrKind::ClassName)
}

/// Whether a class attribute comes out: a `styleName` with no usable value
/// gives none, and neither does a literal `styleName` after a `className`
/// with no usable value.
pub open spec fn gives_class(style: AttrValue, prior: Option<AttrValue>) -> bool {
    match style {
        AttrValue::Text(_) => prior != Some(AttrValue::Missing),
        AttrValue::Expr(_) => true,
        AttrValue::Missing => false,
    }
}

/// The class value for a `styleName` value `style`, a prior class value
/// `prior` and the resolved static class string `resolved`. An expression
/// after a `className` with no usable value gives the empty string.
pub open spec fn class_for(c: ClassValue, style: AttrValue, prior: Option<AttrValue>, resolved: Seq<char>) -> bool {
    match style {
        AttrValue::Text(_) => match prior {
            Some(AttrValue::Text(p)) => c is Text && c->Text_0@ == p@ + seq![' '] + resolved,
            Some(AttrValue::Expr(e)) => c is ExprThenText && c->ExprThenText_0 == e && c->ExprThenText_1@
                == resolved,
            _ => c is Text && c->Text_0@ == resolved,
        },
        AttrValue::Expr(x) => match prior {
            Some(AttrValue::Text(p)) => c is TextThenHelper && c->TextThenHelper_0@ == p@ && c->TextThenHelper_1
                == x,
            Some(AttrValue::Expr(e)) => c == ClassValue::ExprThenHelper(e, x),
            Some(AttrValue::Missing) => c is Text && c->Text_0@.len() == 0,
            None => c == ClassValue::Helper(x),
        },
        AttrValue::Missing => false,
    }
}

/// The attribute indices that are neither `styleName` nor `className`, in order.
pub open spec fn kept_indices(attrs: Seq<Attr>) -> Seq<usize>
    decreases attrs.len(),
{
    if attrs.len() == 0 {
        seq![]
    } else {
        kept_indices(attrs.drop_last()) + if attr_kind(attrs.last()) == AttrKind::Other {
            seq![(attrs.len() - 1) as usize]
        } else {
            seq![]
        }
    }
}

proof fn lemma_last_of_kind(attrs: Seq<Attr>, k: AttrKind)
    ensures
        last_of_kind(attrs, k) matches Some(i) ==> 0 <= i < attrs.len() && attr_kind(attrs[i]) == k,
    decreases attrs.len(),
{
    if attrs.len() > 0 && attr_kind(attrs.last()) != k {
        lemma_last_of_kind(attrs.drop_last(), k);
    }
}

pub open spec fn as_int(o: Option<usize>) -> Option<int> {
    match o {
        Some(k) => Some(k as int),
        None => None,
    }
}

pub fn attr_kind_of(a: &Attr) -> (r: AttrKind)
    ensures
        r == attr_kind(*a),
{
    match a {
        Attr::Named { name, .. } => {
            proof {
                reveal_strlit("styleName");
                reveal_strlit("className");
                assert("styleName"@ =~= style_attr_name());
                assert("className"@ =~= class_attr_name());
            }
            if same_text(name.as_str(), "styleName") {
                AttrKind::StyleName
            } else if same_text(name.as_str(), "className") {
                AttrKind::ClassName
            } else {
                AttrKind::Other
            }
        },
        Attr::Spread => AttrKind::Other,
    }
}

/// What a rewrite holds for an element with attributes `attrs` that has a
/// `styleName` attribute, against registry view `reg`.
pub open spec fn rewrite_of(
    reg: Seq<(Seq<char>, Seq<(Seq<char>, Seq<char>)>)>,
    attrs: Seq<Attr>,
    e: ElementRewrite,
) -> bool {
    let style = value_of_kind(attrs, AttrKind::StyleName)->0;
    let prior = prior_class(attrs);
    &&& last_of_kind(attrs, AttrKind::StyleName) == Some(e.style_index as int)
    &&& e.kept@ == kept_indices(attrs)
    &&& e.dynamic == style is Expr
    &&& (e.class_name is Some <==> gives_class(style, prior))
    &&& match style {
        AttrValue::Text(v) => {
            &&& e.class_name matches Some(c) ==> class_for(c, style, prior, static_classes(reg, v@))
            &&& views(e.unresolved@) == unresolved(reg, words(v@))
        },
        AttrValue::Expr(_) => e.class_name matches Some(c) && class_for(c, style, prior, seq![])
            && e.unresolved@.len() == 0,
        AttrValue::Missing => e.unresolved@.len() == 0,
    }
}

/// The rewrite of an element with attributes `attrs` against `reg`: `None`
/// where no attribute is `styleName` (the element stays as it is). Otherwise
/// every `styleName` and `className` attribute goes, and the last `styleName`
/// decides the new class attribute: a string literal is resolved token by
/// token (an unresolved token gives the empty string and is reported), an
/// expression becomes a call of the runtime helper; either merges after the
/// last prior `className` value (see `class_for` and `gives_class` for a
/// `className` with no usable value).
pub fn rewrite_element(reg: &StyleMapRegistry, attrs: &Vec<Attr>) -> (r: Option<ElementRewrite>)
    ensures
        r is None <==> last_of_kind(attrs@, AttrKind::StyleName) is None,
        r matches Some(e) ==> rewrite_of(reg@, attrs@, e),
{
    let mut style: Option<usize> = None;
    let mut class: Option<usize> = None;
    let mut kept: Vec<usize> = Vec::new();
    let mut i: usize = 0;
    while i < attrs.len()
        invariant
            i <= attrs@.len(),
            as_int(style) == last_of_kind(attrs@.take(i as int), AttrKind::StyleName),
            as_int(class) == last_of_kind(attrs@.take(i as int), AttrKind::ClassName),
            kept@ == kept_indices(attrs@.take(i as int)),
        decreases attrs@.len() - i,
    {
        let ghost next = attrs@.take(i + 1);
        assert(next.drop_last() =~= attrs@.take(i as int));
        assert(next.last() == attrs@[i as int]);
        match attr_kind_of(&attrs[i]) {
            AttrKind::StyleName => {
                style = Some(i);
            },
            AttrKind::ClassName => {
                class = Some(i);
            },
            AttrKind::Other => {
                kept.push(i);
            },
        }
        assert(kept@ =~= kept_indices(next));
        i = i + 1;
    }
    assert(attrs@.take(attrs@.len() as int) =~= attrs@);
    proof {
        lemma_last_of_kind(attrs@, AttrKind::StyleName);
        lemma_last_of_kind(attrs@, AttrKind::ClassName);
    }
    let s = match style {
        Some(s) => s,
        None => return None,
    };
    let ghost style_v = value_of_kind(attrs@, AttrKind::StyleName)->0;
    let ghost prior = prior_class(attrs@);
    let prior_value: Option<&AttrValue> = match class {
        Some(c) => match &attrs[c] {
            Attr::Named { value, .. } => Some(value),
            Attr::Spread => None,
        },
        None => None,
    };
    assert(prior_value matches Some(p) ==> prior == Some(*p));
    assert(prior_value is None ==> prior is None);
    let style_value: &AttrValue = match &attrs[s] {
        Attr::Named { value, .. } => value,
        Attr::Spread => {
            assert(false);
            return None;
        },
    };
    match style_value {
        AttrValue::Text(v) => {
            let (resolved, missing) = reg.resolve_style_names(v.as_str());
            let c = match prior_value {
                Some(AttrValue::Text(p)) => {
                    let mut t = p.clone();
                    proof {
                        reveal_strlit(" ");
                        assert(" "@ =~= seq![' ']);
                    }
                    t.append(" ");
                    t.append(resolved.as_str());
                    assert(t@ =~= p@ + seq![' '] + resolved@);
                    ClassValue::Text(t)
                },
                Some(AttrValue::Expr(e)) => ClassValue::ExprThenText(*e, resolved),
                Some(AttrValue::Missing) => {
                    return Some(
                        ElementRewrite { kept, class_name: None, unresolved: missing, dynamic: false, style_index: s },
                    );
                },
                None => ClassValue::Text(resolved),
            };
            Some(ElementRewrite { kept, class_name: Some(c), unresolved: missing, dynamic: false, style_index: s })
        },
        AttrValue::Expr(x) => {
            let c = match prior_value {
                Some(AttrValue::Text(p)) => ClassValue::TextThenHelper(p.clone(), *x),
                Some(AttrValue::Expr(e)) => ClassValue::ExprThenHelper(*e, *x),
                Some(AttrValue::Missing) => ClassValue::Text(String::new()),
                None => ClassValue::Helper(*x),
            };
            Some(ElementRewrite { kept, class_name: Some(c), unresolved: Vec::new(), dynamic: true, style_index: s })
        },
        AttrValue::Missing => Some(ElementRewrite { kept, class_name: None, unresolved: Vec::new(), dynamic: false, style_index: s }),
    }
}

} // verus!
