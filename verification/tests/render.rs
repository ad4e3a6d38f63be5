use string_template::CompiledTemplate;
use string_template::Context;
use string_template::Error;
use string_template::Group;
use string_template::Template;
use string_template::Value;

fn parse_template(template: &str) -> Template {
    Template::from_compiled(
        CompiledTemplate::from_str(template).expect("unexpectedly failed to parse template"),
    )
}

fn add_expect(template: &mut Template, name: &str, value: Value) {
    template
        .add(name.to_string(), value)
        .expect("unexpectedly failed to add attribute to template");
}

#[test]
fn tests_renders_hello_world() {
    let mut hello = parse_template("Hello, <name>!");
    add_expect(&mut hello, "name", Value::Str("World".to_string()));
    assert_eq!("Hello, World!", format!("{}", hello.render()));
}

#[test]
fn tests_renders_multiple_attributes() {
    let mut hello = parse_template("Hello, <title><name>!");
    add_expect(&mut hello, "name", Value::Str("World".to_string()));
    add_expect(&mut hello, "title", Value::Str("Old ".to_string()));
    assert_eq!("Hello, Old World!", format!("{}", hello.render()));
}

#[test]
fn tests_renders_missing_attributes_as_empty_string() {
    let mut hello = parse_template("Hello, <title><name>!");
    add_expect(&mut hello, "name", Value::Str("World".to_string()));
    assert_eq!("Hello, World!", format!("{}", hello.render()));
}

#[test]
fn tests_renders_chained_attributes() {
    let mut template = parse_template("<x>:<names>!");
    add_expect(&mut template, "names", Value::Str("Ter".to_string()));
    add_expect(&mut template, "names", Value::Str("Tom".to_string()));
    add_expect(&mut template, "x", Value::Int(1));
    assert_eq!("1:TerTom!", template.render());
}

#[test]
fn renders_multiple_chained_attributes() {
    let mut template = parse_template("<names>!");
    add_expect(&mut template, "names", Value::Str("Ter".to_string()));
    add_expect(&mut template, "names", Value::Str("Tom".to_string()));
    add_expect(&mut template, "names", Value::Int(1));
    assert_eq!("TerTom1!", template.render());
}

#[test]
fn tests_renders_nested_attributes() {
    let mut hello = parse_template("Hello, <person.name>!");
    let john = Value::Object(vec![("name".to_string(), Value::Str("John".to_string()))]);
    add_expect(&mut hello, "person", john);
    assert_eq!("Hello, John!", format!("{}", hello.render()));
}

#[test]
fn tests_renders_an_attribute_list_concatenated() {
    let mut hello = parse_template("Hello, <names>!");
    let names = Value::List(vec![
        Value::Str("Jeff".to_string()),
        Value::Str("John".to_string()),
        Value::Str("Carl".to_string()),
    ]);
    add_expect(&mut hello, "names", names);
    assert_eq!("Hello, JeffJohnCarl!", format!("{}", hello.render()));
}

fn parse_group(group: &str) -> Group {
    match Group::from_str(group) {
        Ok(group) => group,
        Err(error) => panic!(
            "unexpectedly failed to parse Group: {}",
            match error {
                Error::Parse(e) => e.to_string(),
                _ => "unexpected error kind".to_string(),
            }
        ),
    }
}

fn get_template(group: &Group, name: &str) -> Template {
    group
        .get(name)
        .unwrap_or_else(|| panic!("unexpectedly failed to get template {}", name))
}

#[test]
fn tests_renders_template_from_group() {
    let group = parse_group("\na() ::= \"FOO\"\n");
    let a = get_template(&group, "a");
    assert_eq!("FOO", a.render());
}

#[test]
fn tests_renders_template_with_attribute_from_group() {
    let group = parse_group("\na(x) ::= \"FOO<x>\"\n");
    let mut a = get_template(&group, "a");
    add_expect(&mut a, "x", Value::Str("BAR".to_string()));
    assert_eq!("FOOBAR", a.render());
}

#[test]
fn tests_renders_template_with_include() {
    let group = parse_group("\na() ::= \"FOO<b()>\"\nb() ::= \"BAR\"\n");
    let a = get_template(&group, "a");
    assert_eq!("FOOBAR", a.render());
}

#[test]
fn tests_renders_template_with_include_missing_inner_template() {
    let group = parse_group("\na() ::= \"FOO<b()>\"\n");
    let a = get_template(&group, "a");
    assert_eq!("FOO", a.render());
}

#[test]
fn renders_self_include_as_empty_when_depth_runs_out() {
    let group = parse_group("\na() ::= \"<a()>\"\n");
    let a = get_template(&group, "a");
    assert_eq!("", a.render());
}

#[test]
fn render_is_pure_across_repeated_calls() {
    let mut template = parse_template("Hello, <name>!");
    add_expect(&mut template, "name", Value::Str("World".to_string()));
    let first = template.render();
    let second = template.render();
    assert_eq!(first, second);
    assert_eq!("Hello, World!", second);
}

#[test]
fn rejects_undeclared_attribute_and_keeps_prior_attributes() {
    let group = parse_group("\na(x) ::= \"FOO<x><y>\"\n");
    let mut a = get_template(&group, "a");
    add_expect(&mut a, "x", Value::Str("BAR".to_string()));
    let rejected = a.add("y".to_string(), Value::Str("NOPE".to_string()));
    assert_eq!(Err(Error::NoSuchAttribute("y".to_string())), rejected);
    assert_eq!("FOOBAR", a.render());
}

#[test]
fn empty_argument_list_forbids_every_attribute() {
    let group = parse_group("\na() ::= \"FOO\"\n");
    let mut a = get_template(&group, "a");
    let rejected = a.add("y".to_string(), Value::Str("NOPE".to_string()));
    assert_eq!(Err(Error::NoSuchAttribute("y".to_string())), rejected);
    assert_eq!("FOO", a.render());
}

#[test]
fn context_renders_its_value() {
    let c = Context::new(Value::List(vec![
        Value::Str("a".to_string()),
        Value::Int(2),
        Value::Bool(false),
    ]));
    assert_eq!("a2false", c.render_string());
}

#[test]
fn literal_template_renders_byte_identical() {
    let body = "bar \"things\" { () } () baz => ";
    let template = parse_template(body);
    assert_eq!(body, template.render());
}

#[test]
fn renders_numbers_booleans_null_and_maps() {
    let mut t = parse_template("<a>|<b>|<c>|<d>|<e>");
    add_expect(&mut t, "a", Value::Int(0));
    add_expect(&mut t, "b", Value::Int(i64::MIN));
    add_expect(&mut t, "c", Value::Bool(true));
    add_expect(&mut t, "d", Value::Null);
    add_expect(&mut t, "e", Value::Object(vec![]));
    assert_eq!("0|-9223372036854775808|true||[object]", t.render());
}

#[test]
fn renders_empty_list_as_empty() {
    let mut t = parse_template("[<xs>]");
    add_expect(&mut t, "xs", Value::List(vec![]));
    assert_eq!("[]", t.render());
}

#[test]
fn navigates_missing_field_and_non_map_to_empty() {
    let mut t = parse_template("<p.age>|<q.name>");
    add_expect(
        &mut t,
        "p",
        Value::Object(vec![("name".to_string(), Value::Str("John".to_string()))]),
    );
    add_expect(&mut t, "q", Value::Str("plain".to_string()));
    assert_eq!("|", t.render());
}

#[test]
fn include_arguments_are_not_forwarded() {
    // An included template gets its own fresh, empty attributes: the
    // caller's bindings never reach it, even for declared arguments.
    let group = parse_group("\na(x) ::= \"A<b(x)>\"\nb(x) ::= \"B<x>\"\n");
    let mut a = get_template(&group, "a");
    add_expect(&mut a, "x", Value::Str("V".to_string()));
    assert_eq!("AB", a.render());
}
