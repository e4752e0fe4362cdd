use maple_attributes::attribute::{Attribute, Op};
use maple_attributes::binding::{resolve, ValueKind};
use maple_attributes::directive::AttributeType;
use maple_attributes::error::ErrorKind;
use maple_attributes::list::{split_at_commas, AttributeList};
use maple_attributes::name::AttributeName;
use maple_attributes::token::{Delimiter, TokenRange, TokenTree};

fn ident(s: &str) -> TokenTree {
    TokenTree::Ident(s.to_string())
}

fn punct(c: char) -> TokenTree {
    TokenTree::Punct(c)
}

/// Tokens of a source fragment: identifiers, and one-character punctuation.
fn toks(src: &str) -> Vec<TokenTree> {
    let mut out = Vec::new();
    let mut word = String::new();
    for c in src.chars() {
        if c.is_alphanumeric() || c == '_' {
            word.push(c);
            continue;
        }
        if !word.is_empty() {
            out.push(ident(&word));
            word.clear();
        }
        if !c.is_whitespace() {
            out.push(punct(c));
        }
    }
    if !word.is_empty() {
        out.push(ident(&word));
    }
    out
}

fn parse_type(src: &str) -> Result<(AttributeType, usize), maple_attributes::error::AttributeError> {
    let ts = toks(src);
    AttributeType::parse(&ts, 0, ts.len())
}

fn name_of(src: &str) -> String {
    let ts = toks(src);
    let (name, end) = AttributeName::parse(&ts, 0, ts.len()).unwrap();
    assert_eq!(end, ts.len());
    name.to_string()
}

#[test]
fn name_round_trips_single_segment() {
    assert_eq!(name_of("a"), "a");
}

#[test]
fn name_round_trips_two_segments() {
    assert_eq!(name_of("a-b"), "a-b");
}

#[test]
fn name_round_trips_three_segments() {
    assert_eq!(name_of("a-b-c"), "a-b-c");
}

#[test]
fn name_tag_may_be_a_keyword() {
    assert_eq!(name_of("type"), "type");
}

#[test]
fn name_hyphen_before_keyword_is_an_error() {
    let ts = toks("data-type");
    let e = AttributeName::parse(&ts, 0, ts.len()).unwrap_err();
    assert_eq!(e.kind, ErrorKind::ExpectedIdent);
    assert_eq!(e.at, 2);
}

#[test]
fn name_trailing_hyphen_is_an_error() {
    let ts = toks("data- = x");
    let e = AttributeName::parse(&ts, 0, ts.len()).unwrap_err();
    assert_eq!(e.kind, ErrorKind::ExpectedIdent);
    assert_eq!(e.at, 2);
}

#[test]
fn name_stops_before_other_punctuation() {
    let ts = toks("data-id = x");
    let (name, end) = AttributeName::parse(&ts, 0, ts.len()).unwrap();
    assert_eq!(end, 3);
    assert_eq!(name.tag, "data");
    assert_eq!(name.extended, vec!["id".to_string()]);
}

#[test]
fn ref_alone_is_ref() {
    let (ty, end) = parse_type("ref").unwrap();
    assert!(matches!(ty, AttributeType::Ref));
    assert_eq!(end, 1);
}

#[test]
fn ref_reads_no_qualifier() {
    let (ty, end) = parse_type("ref = r").unwrap();
    assert!(matches!(ty, AttributeType::Ref));
    assert_eq!(end, 1);
    let ts = toks("ref:x = r");
    let e = Attribute::parse(&ts, 0, ts.len()).unwrap_err();
    assert_eq!(e.kind, ErrorKind::ExpectedEquals);
    assert_eq!(e.at, 1);
}

#[test]
fn on_click_is_event() {
    let (ty, end) = parse_type("on:click = handler").unwrap();
    match ty {
        AttributeType::Event { event } => assert_eq!(event, "click"),
        other => panic!("unexpected {:?}", other),
    }
    assert_eq!(end, 3);
}

#[test]
fn bind_value_is_bind() {
    let (ty, _) = parse_type("bind:value = cell").unwrap();
    match ty {
        AttributeType::Bind { prop } => assert_eq!(prop, "value"),
        other => panic!("unexpected {:?}", other),
    }
}

#[test]
fn bind_unknown_property_is_unsupported() {
    let ts = toks("bind:unknownprop = cell");
    let a = Attribute::parse(&ts, 0, ts.len()).unwrap();
    let e = a.lower().unwrap_err();
    assert_eq!(e.kind, ErrorKind::UnsupportedProperty);
    assert_eq!(e.name, "unknownprop");
    assert_eq!(e.at, 2);
    assert_eq!(e.message(), "property `unknownprop` is not supported with bind:");
}

#[test]
fn qualifier_must_be_an_identifier() {
    let e = parse_type("on:= h").unwrap_err();
    assert_eq!(e.kind, ErrorKind::ExpectedIdent);
    assert_eq!(e.at, 2);
}

#[test]
fn class_is_dom_attribute() {
    let (ty, _) = parse_type("class = expr").unwrap();
    match ty {
        AttributeType::DomAttribute { name } => assert_eq!(name.to_string(), "class"),
        other => panic!("unexpected {:?}", other),
    }
}

#[test]
fn data_foo_is_dom_attribute() {
    let (ty, _) = parse_type("data-foo = expr").unwrap();
    match ty {
        AttributeType::DomAttribute { name } => assert_eq!(name.to_string(), "data-foo"),
        other => panic!("unexpected {:?}", other),
    }
}

#[test]
fn hyphenated_tag_before_colon_is_unknown_directive() {
    let e = parse_type("data-on:click = h").unwrap_err();
    assert_eq!(e.kind, ErrorKind::UnknownDirective);
    assert_eq!(e.name, "data-on");
    assert_eq!(e.at, 0);
    assert_eq!(e.message(), "unknown directive `data-on`");
}

#[test]
fn other_tag_before_colon_is_unknown_directive() {
    let e = parse_type("style:color = c").unwrap_err();
    assert_eq!(e.kind, ErrorKind::UnknownDirective);
    assert_eq!(e.name, "style");
}

#[test]
fn resolve_checked() {
    let d = resolve(&"checked".to_string()).unwrap();
    assert_eq!(d.event, "change");
    assert_eq!(d.kind, ValueKind::Boolean);
}

#[test]
fn resolve_value() {
    let d = resolve(&"value".to_string()).unwrap();
    assert_eq!(d.event, "input");
    assert_eq!(d.kind, ValueKind::String);
}

#[test]
fn resolve_other_fails_naming_it() {
    let u = resolve(&"hidden".to_string()).unwrap_err();
    assert_eq!(u.prop, "hidden");
}

#[test]
fn missing_equals_is_an_error() {
    let ts = toks("class expr");
    let e = Attribute::parse(&ts, 0, ts.len()).unwrap_err();
    assert_eq!(e.kind, ErrorKind::ExpectedEquals);
    assert_eq!(e.at, 1);
}

#[test]
fn missing_expression_is_an_error() {
    let ts = toks("class =");
    let e = Attribute::parse(&ts, 0, ts.len()).unwrap_err();
    assert_eq!(e.kind, ErrorKind::ExpectedExpr);
    assert_eq!(e.at, 2);
}

#[test]
fn list_needs_parentheses() {
    let e = AttributeList::parse(TokenTree::Group(Delimiter::Brace, toks("a = b"))).unwrap_err();
    assert_eq!(e.kind, ErrorKind::ExpectedParens);
    let e = AttributeList::parse(ident("a")).unwrap_err();
    assert_eq!(e.kind, ErrorKind::ExpectedParens);
}

#[test]
fn split_keeps_groups_whole() {
    let mut ts = toks("a = f");
    ts.push(TokenTree::Group(Delimiter::Parenthesis, toks("x, y")));
    ts.extend(toks(", b = c"));
    let segs = split_at_commas(&ts);
    assert_eq!(segs, vec![TokenRange { start: 0, end: 4 }, TokenRange { start: 5, end: 8 }]);
}

#[test]
fn split_of_empty_is_one_empty_span() {
    assert_eq!(split_at_commas(&Vec::new()), vec![TokenRange { start: 0, end: 0 }]);
}

#[test]
fn failing_attribute_leaves_sibling_whole() {
    let mut content = vec![TokenTree::Literal("1".to_string())];
    content.extend(toks("= x, class = y"));
    let list = AttributeList::parse(TokenTree::Group(Delimiter::Parenthesis, content)).unwrap();
    let groups = list.lower();
    assert_eq!(groups.len(), 2);
    let errors: Vec<_> = groups.iter().filter(|g| g.is_err()).collect();
    assert_eq!(errors.len(), 1);
    let e = groups[0].as_ref().unwrap_err();
    assert_eq!(e.kind, ErrorKind::ExpectedIdent);
    assert_eq!(e.at, 0);
    let ops = groups[1].as_ref().unwrap();
    assert_eq!(ops.len(), 1);
    match &ops[0] {
        Op::AttributeEffect { name, value } => {
            assert_eq!(name, "class");
            assert_eq!(*value, TokenRange { start: 6, end: 7 });
        }
        other => panic!("unexpected {:?}", other),
    }
}

#[test]
fn trailing_comma_is_a_diagnostic() {
    let list = AttributeList::parse(TokenTree::Group(Delimiter::Parenthesis, toks("a = b,"))).unwrap();
    let groups = list.lower();
    assert_eq!(groups.len(), 2);
    assert!(groups[0].is_ok());
    assert_eq!(groups[1].as_ref().unwrap_err().kind, ErrorKind::ExpectedIdent);
}

#[test]
fn end_to_end_four_groups_in_order() {
    let content = toks("value=my_signal, on:click=my_handler, data-id=computed_expr, ref=my_ref");
    let list = AttributeList::parse(TokenTree::Group(Delimiter::Parenthesis, content)).unwrap();
    let groups: Vec<Vec<Op>> = list.lower().into_iter().map(|g| g.unwrap()).collect();
    assert_eq!(groups.len(), 4);

    // `value` is no binding directive: a plain attribute set reactively.
    assert_eq!(groups[0].len(), 1);
    match &groups[0][0] {
        Op::AttributeEffect { name, value } => {
            assert_eq!(name, "value");
            assert_eq!(*value, TokenRange { start: 2, end: 3 });
        }
        other => panic!("unexpected {:?}", other),
    }
    assert_eq!(groups[1].len(), 1);
    match &groups[1][0] {
        Op::EventHandler { event, handler } => {
            assert_eq!(event, "click");
            assert_eq!(*handler, TokenRange { start: 8, end: 9 });
        }
        other => panic!("unexpected {:?}", other),
    }
    assert_eq!(groups[2].len(), 1);
    match &groups[2][0] {
        Op::AttributeEffect { name, value } => {
            assert_eq!(name, "data-id");
            assert_eq!(*value, TokenRange { start: 14, end: 15 });
        }
        other => panic!("unexpected {:?}", other),
    }
    assert_eq!(groups[3].len(), 1);
    match &groups[3][0] {
        Op::AssignRef { target } => assert_eq!(*target, TokenRange { start: 18, end: 19 }),
        other => panic!("unexpected {:?}", other),
    }
}

#[test]
fn end_to_end_with_two_way_binding() {
    let content = toks("bind:value=my_signal, on:click=my_handler, data-id=computed_expr, ref=my_ref");
    let list = AttributeList::parse(TokenTree::Group(Delimiter::Parenthesis, content)).unwrap();
    let groups: Vec<Vec<Op>> = list.lower().into_iter().map(|g| g.unwrap()).collect();
    assert_eq!(groups.len(), 4);
    assert_eq!(groups[0].len(), 3);
    match &groups[0][0] {
        Op::BindCell { cell, kind } => {
            assert_eq!(*cell, TokenRange { start: 4, end: 5 });
            assert_eq!(*kind, ValueKind::String);
        }
        other => panic!("unexpected {:?}", other),
    }
    match &groups[0][1] {
        Op::PropertyEffect { prop, kind } => {
            assert_eq!(prop, "value");
            assert_eq!(*kind, ValueKind::String);
        }
        other => panic!("unexpected {:?}", other),
    }
    match &groups[0][2] {
        Op::WriteBack { event, prop, kind } => {
            assert_eq!(event, "input");
            assert_eq!(prop, "value");
            assert_eq!(*kind, ValueKind::String);
        }
        other => panic!("unexpected {:?}", other),
    }
    assert!(matches!(groups[1][0], Op::EventHandler { .. }));
    assert!(matches!(groups[2][0], Op::AttributeEffect { .. }));
    assert!(matches!(groups[3][0], Op::AssignRef { .. }));
}

#[test]
fn bind_checked_lowers_to_boolean_on_change() {
    let ts = toks("bind:checked = done");
    let ops = Attribute::parse(&ts, 0, ts.len()).unwrap().lower().unwrap();
    match &ops[2] {
        Op::WriteBack { event, prop, kind } => {
            assert_eq!(event, "change");
            assert_eq!(prop, "checked");
            assert_eq!(*kind, ValueKind::Boolean);
        }
        other => panic!("unexpected {:?}", other),
    }
}
