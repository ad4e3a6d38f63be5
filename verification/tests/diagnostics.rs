use string_template::StaticGroup;
use string_template::Visibility;
use string_template::simple::StaticStGroup;

fn error_message(template: &str) -> String {
    match StaticGroup::parse_str(template) {
        Ok(_) => panic!("unexpectedly parsed invalid template: {}", template),
        Err(error) => error.to_string(),
    }
}

fn simple_error_message(template: &str) -> String {
    match StaticStGroup::parse_str(template) {
        Ok(_) => panic!("unexpectedly parsed invalid template: {}", template),
        Err(error) => error.to_string(),
    }
}

#[test]
fn error_show_error_in_single_line_template() {
    assert_eq!(
        "\nstatic bunny ref group_a { a() ::= \"foo\" }\n       ^^^^^ expected `ref`",
        error_message("\nstatic bunny ref group_a { a() ::= \"foo\" }")
    );
}

#[test]
fn error_show_single_line_error_in_multi_line_template() {
    assert_eq!(
        "\nstatic ref group_a {\n a() lemons ::= \"foo\"\n     ^^^^^^ expected `::`",
        error_message("\nstatic ref group_a {\n a() lemons ::= \"foo\"\n}")
    );
}

#[test]
fn error_show_multi_line_error_in_multi_line_template() {
    assert_eq!(
        "\nstatic ref group_a { (\n a() ) ::= \"foo\"     ^\n     ^               |\n     |---------------| expected identifier",
        error_message("\nstatic ref group_a { (\n a() ) ::= \"foo\"\n}")
    );
}

#[test]
fn error_show_multi_line_error_in_multi_line_template_with_longer_vertical_lines() {
    assert_eq!(
        "\nstatic ref group_a { (\n                     ^\n++++++++++++++++++++++++++++++\n a() ) ::= \"foo\"     |\n     ^               |\n     |---------------| expected identifier",
        error_message("\nstatic ref group_a { (\n\n++++++++++++++++++++++++++++++\n a() ) ::= \"foo\"\n}")
    );
}

#[test]
fn error_show_multi_line_error_in_multi_line_template_with_long_arrow_line() {
    assert_eq!(
        "\nstatic ref group_a { (\n++++++++++++++++++++++++++++++\n a() ) ::= \"foo\"     ^\n     ^               |\n     |---------------| expected identifier",
        error_message("\nstatic ref group_a { (\n++++++++++++++++++++++++++++++\n a() ) ::= \"foo\"\n}")
    );
}

#[test]
fn lib_show_error_in_single_line_template() {
    assert_eq!(
        "\nstatic bunny ref group_a { a() ::= \"foo\" }\n       ^^^^^ expected `ref`",
        simple_error_message("\nstatic bunny ref group_a { a() ::= \"foo\" }")
    );
}

#[test]
fn lib_show_single_line_error_in_multi_line_template() {
    assert_eq!(
        "\nstatic ref group_a {\n a() lemons ::= \"foo\"\n     ^^^^^^ expected `::`",
        simple_error_message("\nstatic ref group_a {\n a() lemons ::= \"foo\"\n}")
    );
}

#[test]
fn lib_show_multi_line_error_in_multi_line_template() {
    assert_eq!(
        "\nstatic ref group_a { (\n a() ) ::= \"foo\"     ^\n     ^               |\n     |---------------| expected identifier",
        simple_error_message("\nstatic ref group_a { (\n a() ) ::= \"foo\"\n}")
    );
}

#[test]
fn lib_show_multi_line_error_in_multi_line_template_with_longer_vertical_lines() {
    assert_eq!(
        "\nstatic ref group_a { (\n                     ^\n++++++++++++++++++++++++++++++\n a() ) ::= \"foo\"     |\n     ^               |\n     |---------------| expected identifier",
        simple_error_message("\nstatic ref group_a { (\n\n++++++++++++++++++++++++++++++\n a() ) ::= \"foo\"\n}")
    );
}

#[test]
fn lib_show_multi_line_error_in_multi_line_template_with_long_arrow_line() {
    assert_eq!(
        "\nstatic ref group_a { (\n++++++++++++++++++++++++++++++\n a() ) ::= \"foo\"     ^\n     ^               |\n     |---------------| expected identifier",
        simple_error_message("\nstatic ref group_a { (\n++++++++++++++++++++++++++++++\n a() ) ::= \"foo\"\n}")
    );
}

#[test]
fn lib_parse_no_arg_template() {
    let parsed = StaticStGroup::parse_str("static ref group_a { a() ::= \"foo\" }")
        .expect("unexpectedly failed to parse template");
    assert_eq!(
        parsed,
        StaticStGroup::new(Visibility::Public, "group_a".to_string())
    );
}

#[test]
fn parse_no_arg_literal_template() {
    let parsed = StaticGroup::parse_str("static ref group_a { a() ::= \"foo\" }")
        .expect("unexpectedly failed to parse template");
    assert_eq!(
        parsed,
        StaticGroup::new(Visibility::Public, "group_a".to_string())
    );
}

#[test]
fn unfinished_template_expression_is_a_compile_error() {
    let err = match string_template::CompiledTemplate::from_str("Hello <name") {
        Ok(_) => panic!("unexpectedly compiled an unfinished expression"),
        Err(e) => e,
    };
    let text = match err {
        string_template::Error::Parse(pe) => pe.to_string(),
        _ => panic!("unexpected error kind"),
    };
    assert_eq!("Hello <name\n           ^ unfinished template expression", text);
}

#[test]
fn unterminated_string_literal_is_a_compile_error() {
    assert!(StaticGroup::parse_str("static ref g { a() ::= \"foo }").is_err());
}

#[test]
fn unterminated_block_comment_is_a_compile_error() {
    assert!(StaticGroup::parse_str("static ref g { /* a() ::= \"foo\" }").is_err());
}

#[test]
fn missing_argument_list_is_a_compile_error() {
    let text = error_message("static ref g { a ::= \"foo\" }");
    assert!(text.ends_with("expected `(`"));
}
