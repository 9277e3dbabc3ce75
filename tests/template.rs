use rebar::template::{RebarError, Template, TemplateComponent, TemplateError};

fn vars(pairs: &[(&str, &str)]) -> Vec<(String, String)> {
    pairs.iter().map(|(k, v)| (k.to_string(), v.to_string())).collect()
}

#[test]
fn it_parses_template() {
    assert_eq!(
        Template::create_from_string("Hello there, {{ name }}! This is a working template!"),
        Ok(Template {
            template: vec![
                TemplateComponent::TemplatePart("Hello there, ".into()),
                TemplateComponent::InputPart("name".into()),
                TemplateComponent::TemplatePart("! This is a working template!".into()),
            ]
        })
    );
    assert_eq!(
        Template::create_from_string("Hello there,  name }! This is a working template!"),
        Ok(Template {
            template: vec![TemplateComponent::TemplatePart(
                "Hello there,  name }! This is a working template!".into()
            ),]
        })
    );
    assert_eq!(
        Template::create_from_string("Hello there, {{ name }}! I can have {{n}} more variables!"),
        Ok(Template {
            template: vec![
                TemplateComponent::TemplatePart("Hello there, ".into()),
                TemplateComponent::InputPart("name".into()),
                TemplateComponent::TemplatePart("! I can have ".into()),
                TemplateComponent::InputPart("n".into()),
                TemplateComponent::TemplatePart(" more variables!".into()),
            ]
        })
    );
    assert_eq!(
        Template::create_from_string("{{_}}"),
        Ok(Template {
            template: vec![TemplateComponent::InputPart("_".into()),]
        })
    );
    assert_eq!(
        Template::create_from_string("double open bracket but it's escaped \\{{{_}}"),
        Ok(Template {
            template: vec![
                TemplateComponent::TemplatePart("double open bracket but it's escaped {".into()),
                TemplateComponent::InputPart("_".into()),
            ]
        })
    );
    assert_eq!(
        Template::create_from_string("Hello there, { name }! This is a working template!"),
        Ok(Template {
            template: vec![TemplateComponent::TemplatePart(
                "Hello there, { name }! This is a working template!".into()
            ),]
        })
    );
    assert_eq!(
        Template::create_from_string("Hello there, {{ name }}! I can have {n} more variables!"),
        Ok(Template {
            template: vec![
                TemplateComponent::TemplatePart("Hello there, ".into()),
                TemplateComponent::InputPart("name".into()),
                TemplateComponent::TemplatePart("! I can have {n} more variables!".into()),
            ]
        })
    );
    assert_eq!(
        Template::create_from_string("{_}"),
        Ok(Template {
            template: vec![TemplateComponent::TemplatePart("{_}".into()),]
        })
    );
    assert_eq!(
        Template::create_from_string("more escaping  \\{{_}}"),
        Ok(Template {
            template: vec![TemplateComponent::TemplatePart("more escaping  {{_}}".into())]
        })
    );
    assert_eq!(
        Template::create_from_string("Hello there, {{ name}}}! This is a working template!"),
        Ok(Template {
            template: vec![
                TemplateComponent::TemplatePart("Hello there, ".into()),
                TemplateComponent::InputPart("name".into()),
                TemplateComponent::TemplatePart("}! This is a working template!".into()),
            ]
        })
    );
}

#[test]
fn it_fails_templating() {
    assert_eq!(
        Template::create_from_string("Hello there, {{{ name }}! This is a working template!"),
        Err(RebarError::TemplateError(TemplateError::InvalidChar('{')))
    );
    assert_eq!(
        Template::create_from_string(
            "Hello there, {{ name}}}! This is a working template! {{ another_var }"
        ),
        Err(RebarError::TemplateError(TemplateError::UnexpectedEof))
    );
    assert_eq!(
        Template::create_from_string("Hello there, {{ }}! This is a working template!"),
        Err(RebarError::TemplateError(TemplateError::EmptyVariableName))
    );
    assert_eq!(
        Template::create_from_string("Hello there, {{ -}}! This is a working template!"),
        Err(RebarError::TemplateError(TemplateError::InvalidChar('-')))
    );
    assert_eq!(
        Template::create_from_string("Hello there, {{ unclosed"),
        Err(RebarError::TemplateError(TemplateError::UnterminatedBraces))
    );
}

#[test]
fn it_soaks_template() {
    let template =
        Template::create_from_string("Hello there, {{ name }}! This is a working template!")
            .unwrap();

    assert_eq!(
        template.soak(&vars(&[("name", "Template Monster")])),
        Ok("Hello there, Template Monster! This is a working template!".into())
    );

    assert_eq!(
        template.soak(&vars(&[("name", "<Template Monster>")])),
        Ok("Hello there, &lt;Template Monster&gt;! This is a working template!".into())
    );

    assert_eq!(
        template.soak_raw(&vars(&[("name", "<Template Monster>")])),
        Ok("Hello there, <Template Monster>! This is a working template!".into())
    );
}

#[test]
fn it_fails_soaking() {
    let template =
        Template::create_from_string("Hello there, {{ name }}! This is a working template!")
            .unwrap();

    assert_eq!(
        template.soak(&vars(&[("nam", "Template Monster")])),
        Err(RebarError::TemplateError(TemplateError::MissingVariable(
            "name".to_string()
        )))
    );
}

#[test]
fn sanitize_escapes_each_special_character() {
    assert_eq!(
        Template::sanitize("a&b<c>d\"e'f(g)h"),
        "a&amp;b&lt;c&gt;d&quot;e&#39;f&#40;g&#41;h"
    );
    assert_eq!(Template::sanitize(""), "");
    assert_eq!(Template::sanitize("plain"), "plain");
}

#[test]
fn the_last_pair_for_a_name_is_used() {
    let template = Template::create_from_string("{{a}}-{{b}}").unwrap();
    assert_eq!(
        template.soak_raw(&vars(&[("a", "1"), ("b", "2"), ("a", "3")])),
        Ok("3-2".to_owned())
    );
}

#[test]
fn first_missing_variable_is_reported() {
    let template = Template::create_from_string("{{a}}{{b}}").unwrap();
    assert_eq!(
        template.soak_raw(&vars(&[])),
        Err(RebarError::TemplateError(TemplateError::MissingVariable("a".to_string())))
    );
}

#[test]
fn digits_are_not_allowed_in_names() {
    assert_eq!(
        Template::create_from_string("{{ a1 }}"),
        Err(RebarError::TemplateError(TemplateError::InvalidChar('1')))
    );
    assert_eq!(Template::create_from_string(""), Ok(Template { template: vec![] }));
}

#[test]
fn parsing_follows_the_given_alphabetic_flags() {
    assert_eq!(
        Template::parse_template_with("{{ab}}", &vec![false, false, true, true, false, false]),
        Ok(Template {
            template: vec![TemplateComponent::InputPart("ab".into())]
        })
    );
    assert_eq!(
        Template::parse_template_with("{{ab}}", &vec![false; 6]),
        Err(RebarError::TemplateError(TemplateError::InvalidChar('a')))
    );
    assert_eq!(
        Template::parse_template_with("x{{1}}", &vec![false, false, false, true, false, false]),
        Ok(Template {
            template: vec![
                TemplateComponent::TemplatePart("x".into()),
                TemplateComponent::InputPart("1".into()),
            ]
        })
    );
}
