use string_template::Expr;
use string_template::ParseEvent;
use string_template::Rule;
use string_template::TemplateParser;

fn event(rule: Rule, start: usize, end: usize) -> ParseEvent {
    ParseEvent { rule, start, end }
}

#[test]
fn parse_structure() {
    let events = TemplateParser::parse_events("<greeting> <person.name>! <message()>")
        .expect("unexpectedly failed to parse template");
    assert_eq!(
        events,
        vec![
            event(Rule::TemplateBody, 0, 37),
            event(Rule::Literal, 0, 0),
            event(Rule::Expression, 0, 10),
            event(Rule::FieldReference, 1, 9),
            event(Rule::Identifier, 1, 9),
            event(Rule::Literal, 10, 11),
            event(Rule::Expression, 11, 24),
            event(Rule::FieldReference, 12, 23),
            event(Rule::Identifier, 12, 18),
            event(Rule::Identifier, 19, 23),
            event(Rule::Literal, 24, 26),
            event(Rule::Expression, 26, 37),
            event(Rule::TemplateInclude, 27, 36),
            event(Rule::Identifier, 27, 34),
            event(Rule::Literal, 37, 37),
        ]
    );
}

#[test]
fn expressions_of_compiles_the_same_template() {
    let exprs = TemplateParser::expressions_of("<greeting> <person.name>! <message()>")
        .expect("unexpectedly failed to parse template");
    assert_eq!(
        exprs,
        vec![
            Expr::Literal("".to_string()),
            Expr::Attribute("greeting".to_string()),
            Expr::Literal(" ".to_string()),
            Expr::AttributePath("person".to_string(), vec!["name".to_string()]),
            Expr::Literal("! ".to_string()),
            Expr::Include("message".to_string(), vec![]),
            Expr::Literal("".to_string()),
        ]
    );
}

#[test]
fn include_argument_names_are_captured_but_never_bound() {
    let exprs = TemplateParser::expressions_of("<f(a,b)>")
        .expect("unexpectedly failed to parse template");
    assert_eq!(
        exprs,
        vec![
            Expr::Literal("".to_string()),
            Expr::Include("f".to_string(), vec!["a".to_string(), "b".to_string()]),
            Expr::Literal("".to_string()),
        ]
    );
}
