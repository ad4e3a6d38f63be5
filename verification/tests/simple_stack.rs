use string_template::Group;
use string_template::StaticGroup;
use string_template::Template;
use string_template::Value;
use string_template::simple::St;
use string_template::simple::StGroup;

#[test]
fn simple_renders_hello_world() {
    let mut hello = St::new("Hello, <name>!".to_string());
    hello.add("name".to_string(), "World".to_string());
    assert_eq!("Hello, World!", format!("{}", hello.render()));
}

#[test]
fn simple_renders_multiple_attributes() {
    let mut hello = St::new("Hello, <title><name>!".to_string());
    hello.add("name".to_string(), "World".to_string());
    hello.add("title".to_string(), "Old ".to_string());
    assert_eq!("Hello, Old World!", format!("{}", hello.render()));
}

#[test]
fn simple_renders_missing_attributes_as_empty_string() {
    let mut hello = St::new("Hello, <title><name>!".to_string());
    hello.add("name".to_string(), "World".to_string());
    assert_eq!("Hello, World!", format!("{}", hello.render()));
}

#[test]
fn simple_add_accumulates_in_call_order() {
    let mut template = St::new("<names>!".to_string());
    template.add("names".to_string(), "Ter".to_string());
    template.add("names".to_string(), "Tom".to_string());
    assert_eq!("TerTom!", template.render());
}

#[test]
fn simple_try_new_checks_the_delimiters() {
    assert!(St::try_new("Hello <name".to_string()).is_none());
    let st = St::try_new("Hello, <name>!".to_string()).expect("balanced template");
    assert_eq!("Hello, !", st.render());
}

#[test]
fn simple_stray_close_delimiter_ends_an_attribute() {
    // The plain scanner closes an attribute at every `>`, even with
    // no opening `<`: the run before it becomes the attribute name.
    let st = St::new("a>b".to_string());
    assert_eq!("b", st.render());
}

#[test]
fn simple_group_returns_fresh_copies() {
    let mut a = St::new("Hello, <name>!".to_string());
    a.add("name".to_string(), "World".to_string());
    let group = StGroup::new(vec![("a".to_string(), a)]);
    let found = group.get("a").expect("unexpectedly failed to get template");
    assert_eq!("Hello, World!", found.render());
    assert!(group.get("missing").is_none());
}

fn get_template(group: &Group, name: &str) -> Template {
    group
        .get(name)
        .unwrap_or_else(|| panic!("unexpectedly failed to find template {}", name))
}

fn runtime_group(source: &str) -> Group {
    let parsed = StaticGroup::parse_str(source).expect("unexpectedly failed to parse group");
    Group::from_body(parsed.group)
}

#[test]
fn simple_parse_literal_group() {
    let group = runtime_group(
        "static ref literal_group {\n a() ::= \"foo\"\n b() ::= <<bar \"things\" { () } () baz => >>\n }",
    );
    let a = get_template(&group, "a");
    assert_eq!("foo", format!("{}", a.render()));

    let b = get_template(&group, "b");
    assert_eq!("bar \"things\" { () } () baz => ", format!("{}", b.render()));
}

#[test]
fn render_attributes() {
    let group = runtime_group("static ref attribute_group {\n c(x) ::= \"<x>\"\n }");
    let mut c = get_template(&group, "c");
    c.add("x".to_string(), Value::Str("Things".to_string()))
        .expect("unexpectedly failed to add attribute");
    assert_eq!("Things", c.render());
}

#[test]
fn render_multiple_attributes() {
    let group = runtime_group("static ref attribute_group {\n d(x,y) ::= \"<y><x>\"\n }");
    let mut d = get_template(&group, "d");
    d.add("x".to_string(), Value::Str("Moe".to_string()))
        .expect("unexpectedly failed to add attribute");
    d.add("y".to_string(), Value::Str("Curly".to_string()))
        .expect("unexpectedly failed to add attribute");
    assert_eq!("CurlyMoe", d.render());
}

#[test]
fn later_declarations_replace_earlier_ones() {
    let group = runtime_group("static ref g {\n a() ::= \"first\"\n a() ::= \"second\"\n }");
    let a = get_template(&group, "a");
    assert_eq!("second", a.render());
}

#[test]
fn comments_are_skipped_in_group_sources() {
    let group = runtime_group(
        "static ref g { // a leading note\n a() ::= \"foo\" /* a /* nested */ block */\n b() ::= \"bar\"\n }",
    );
    assert_eq!("foo", get_template(&group, "a").render());
    assert_eq!("bar", get_template(&group, "b").render());
}

#[test]
fn string_escapes_decode_in_bodies() {
    let group = runtime_group("static ref g {\n a() ::= \"x\\ny\\t\\\"z\\\"\"\n }");
    let a = get_template(&group, "a");
    assert_eq!("x\ny\t\"z\"", a.render());
}
