use gptcommit::prompt::{
    find_binding, format_prompt, is_plain_template, placeholders, provided_names, rendered_or_error, same_names,
    substitute, FormatError,
};

fn bind(pairs: &[(&str, &str)]) -> Vec<(String, String)> {
    pairs.iter().map(|(name, value)| (name.to_string(), value.to_string())).collect()
}

fn names(list: &[&str]) -> Vec<String> {
    list.iter().map(|name| name.to_string()).collect()
}

#[test]
fn format_substitutes_every_occurrence() {
    let template = "{{ A }} and {{ B }}, then {{A}} again";
    let formatted = format_prompt(template, &bind(&[("A", "one"), ("B", "two")])).unwrap();
    assert_eq!(formatted, "one and two, then one again");
}

#[test]
fn format_fails_on_a_missing_binding() {
    let template = "{{ A }} and {{ B }}";
    match format_prompt(template, &bind(&[("A", "one")])) {
        Err(FormatError::PlaceholderMismatch { required, provided }) => {
            assert_eq!(required, names(&["A", "B"]));
            assert_eq!(provided, names(&["A"]));
        }
        other => panic!("expected a mismatch, got {:?}", other),
    }
}

#[test]
fn format_fails_on_an_extra_binding() {
    let template = "{{ A }} and {{ B }}";
    match format_prompt(template, &bind(&[("A", "one"), ("B", "two"), ("C", "three")])) {
        Err(FormatError::PlaceholderMismatch { required, provided }) => {
            assert_eq!(required, names(&["A", "B"]));
            assert_eq!(provided, names(&["A", "B", "C"]));
        }
        other => panic!("expected a mismatch, got {:?}", other),
    }
}

#[test]
fn format_binds_in_any_order() {
    let template = "{{ A }}-{{ B }}";
    assert_eq!(format_prompt(template, &bind(&[("B", "2"), ("A", "1")])).unwrap(), "1-2");
}

#[test]
fn format_without_placeholders_needs_no_bindings() {
    assert_eq!(format_prompt("plain text", &bind(&[])).unwrap(), "plain text");
    assert!(matches!(
        format_prompt("plain text", &bind(&[("A", "1")])),
        Err(FormatError::PlaceholderMismatch { .. })
    ));
}

#[test]
fn format_does_not_escape_or_substitute_again() {
    let template = "<p>{{ body }}</p>";
    let formatted = format_prompt(template, &bind(&[("body", "a < b && {{ body }} \"q\"")])).unwrap();
    assert_eq!(formatted, "<p>a < b && {{ body }} \"q\"</p>");
}

#[test]
fn format_reports_what_the_engine_refuses() {
    let template = "{{ A }} {% if %}";
    match format_prompt(template, &bind(&[("A", "one")])) {
        Err(FormatError::Render { message }) => assert!(!message.is_empty()),
        other => panic!("expected a render error, got {:?}", other),
    }
}

#[test]
fn rendered_text_is_taken_where_it_is_the_expected_text() {
    assert_eq!(rendered_or_error(Ok("text".to_string()), "text").unwrap(), "text");
    match rendered_or_error(Ok("text".to_string()), "other") {
        Err(FormatError::Render { message }) => {
            assert_eq!(message, "the template holds more than placeholders and plain text")
        }
        other => panic!("expected a render error, got {:?}", other),
    }
    let failure = tera::Tera::one_off("{{", &tera::Context::new(), false);
    assert!(failure.is_err());
    assert!(matches!(rendered_or_error(failure, ""), Err(FormatError::Render { .. })));
}

#[test]
fn format_refuses_what_is_more_than_a_placeholder() {
    let bindings = bind(&[("A", "one")]);
    for template in [
        "{% if true %}yes{% endif %} {{ A }}",
        "{# a comment #}{{ A }}",
        "{{ A }} {{ 1 + 1 }}",
        "{{ A }}{% raw %}{{ A }}{% endraw %}",
    ] {
        assert!(
            matches!(format_prompt(template, &bindings), Err(FormatError::Render { .. })),
            "{}",
            template
        );
    }
}

#[test]
fn format_keeps_the_text_between_the_placeholders() {
    let bindings = bind(&[("x", "V\n")]);
    for (template, expected) in [
        ("a {{ x }}\n\n", "a V\n\n\n"),
        ("\n\n  {{x}}  \n", "\n\n  V\n  \n"),
        ("{{ x }}{{ x }}", "V\nV\n"),
        ("} {{ x }} { }} {", "} V\n { }} {"),
        ("\t{{\tx\n}}\r\n", "\tV\n\r\n"),
        ("{{ x }} \u{e9} \\ \" ' {", "V\n \u{e9} \\ \" ' {"),
    ] {
        assert_eq!(format_prompt(template, &bindings).unwrap(), expected);
        assert_eq!(substitute(template, &bindings), expected);
    }
}

#[test]
fn substitute_takes_the_last_binding_of_a_name() {
    let bindings = bind(&[("a", "1"), ("b", "2"), ("a", "3")]);
    assert_eq!(find_binding(&bindings, "a").map(String::as_str), Some("3"));
    assert_eq!(find_binding(&bindings, "b").map(String::as_str), Some("2"));
    assert_eq!(find_binding(&bindings, "c"), None);
    assert_eq!(substitute("{{ a }}{{ b }}{{ c }}.", &bindings), "32.");
    assert_eq!(format_prompt("{{ a }}{{ b }}", &bindings).unwrap(), "32");
    assert_eq!(substitute("", &bindings), "");
    assert_eq!(substitute("{{ a }", &bindings), "{{ a }");
}

#[test]
fn placeholders_are_listed_once_in_order() {
    assert_eq!(placeholders("{{ b }} {{a}} {{ b }} {{\ta\n}} {{ _c1 }}"), names(&["b", "a", "_c1"]));
    assert_eq!(placeholders(""), names(&[]));
    assert_eq!(placeholders("{{}}"), names(&[]));
}

#[test]
fn placeholders_follow_the_closed_convention() {
    assert_eq!(placeholders("{{ 1a }} { { a } } {{ a.b }} {{ a | upper }} {{ a b }} {a}"), names(&[]));
    assert_eq!(placeholders("{{{ a }}}"), names(&["a"]));
    assert_eq!(placeholders("{{ a }"), names(&[]));
    assert_eq!(placeholders("{{ {{ a }}"), names(&["a"]));
    assert_eq!(placeholders("{{ \u{e9} }}{{ x }}"), names(&["x"]));
}

#[test]
fn provided_names_keep_the_order_of_the_bindings() {
    assert_eq!(provided_names(&bind(&[("b", "1"), ("a", "2"), ("b", "3")])), names(&["b", "a", "b"]));
}

#[test]
fn same_names_compares_as_sets() {
    assert!(same_names(&names(&["a", "b"]), &names(&["b", "a", "b"])));
    assert!(!same_names(&names(&["a", "b"]), &names(&["a"])));
    assert!(!same_names(&names(&["a"]), &names(&["a", "b"])));
    assert!(same_names(&names(&[]), &names(&[])));
}

#[test]
fn mismatch_message_names_both_sides() {
    let error = FormatError::PlaceholderMismatch {
        required: names(&["A", "B"]),
        provided: names(&["A"]),
    };
    assert_eq!(
        error.message(),
        "placeholder mismatch: the template requires [A, B], the bindings provide [A]"
    );
    let error = FormatError::Render { message: "bad".to_string() };
    assert_eq!(error.message(), "template error: bad");
}

#[test]
fn plain_templates_hold_placeholders_and_text_only() {
    for template in ["", "text", "{{ a }}", "x {{a}}{{ b }} y", "{ {a} } }} {", "{{\ta\n}}"] {
        assert!(is_plain_template(template), "{}", template);
    }
    for template in [
        "{% if a %}",
        "{# note #}",
        "{{ a }} {%",
        "{{ 1 }}",
        "{{ a | upper }}",
        "{{- a }}",
        "{{{ a }}",
        "{{ a",
        "{{",
    ] {
        assert!(!is_plain_template(template), "{}", template);
    }
}

#[test]
fn format_keeps_computations_away_from_the_engine() {
    let bindings = bind(&[("summary_points", "x")]);
    for template in [
        "{{ summary_points }}{{ -9223372036854775808 % -1 }}",
        "{{ summary_points }}{{ 1.0e999 }}",
        "{{ summary_points }}{{ 9223372036854775807 + 1 }}",
        "{{ summary_points }}{% set x = 1 / 0 %}",
    ] {
        match format_prompt(template, &bindings) {
            Err(FormatError::Render { message }) => {
                assert_eq!(message, "the template holds more than placeholders and plain text")
            }
            other => panic!("expected a render error for {}, got {:?}", template, other),
        }
    }
}

#[test]
fn format_leaves_the_reading_of_a_name_to_the_engine() {
    // the engine reads these words as truth values, not as names
    for word in ["true", "false", "True", "False"] {
        let template = format!("is {{{{ {} }}}}", word);
        assert_eq!(placeholders(&template), names(&[word]));
        assert!(is_plain_template(&template));
        assert_eq!(substitute(&template, &bind(&[(word, "x")])), "is x");
        match format_prompt(&template, &bind(&[(word, "x")])) {
            Err(FormatError::Render { message }) => {
                assert_eq!(message, "the template holds more than placeholders and plain text")
            }
            other => panic!("expected a render error for {}, got {:?}", word, other),
        }
        assert!(matches!(
            format_prompt(&template, &bind(&[])),
            Err(FormatError::PlaceholderMismatch { .. })
        ));
    }
    // a name that only begins with such a word is refused by the engine
    assert!(matches!(
        format_prompt("{{ true_count }}", &bind(&[("true_count", "3")])),
        Err(FormatError::Render { .. })
    ));
    // other names are names to the engine too
    for name in ["truth", "t", "_true", "nothing", "isolated", "order", "android", "x1"] {
        let template = format!("{{{{ {} }}}}!", name);
        assert_eq!(format_prompt(&template, &bind(&[(name, "v")])).unwrap(), "v!", "{}", name);
    }
}

#[test]
fn format_succeeds_exactly_where_names_fit_and_the_engine_agrees() {
    let template = "{{ A }}{{ B }}{{ A }}";
    assert_eq!(format_prompt(template, &bind(&[("A", "a"), ("B", "b")])).unwrap(), "aba");
    assert_eq!(format_prompt(template, &bind(&[("B", "{{ A }}"), ("A", "<&>")])).unwrap(), "<&>{{ A }}<&>");
    assert!(format_prompt(template, &bind(&[("A", "a")])).is_err());
    assert!(format_prompt(template, &bind(&[("A", "a"), ("B", "b"), ("C", "c")])).is_err());
    assert!(format_prompt("{{ A }}{{ B }}{# #}", &bind(&[("A", "a"), ("B", "b")])).is_err());
}
