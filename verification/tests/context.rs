use stamp::context::{is_offered, read_answer, Answer, RunContext};
use stamp::manifest::{Choice, DefaultValue, Inputs, Meta, Question, TemplateManifest};
use stamp::render::{unescaped, Renderer};

fn question(id: &str, inputs: Inputs) -> Question {
    Question { id: id.to_string(), prompt: String::new(), default: None, inputs }
}

fn features() -> Question {
    question(
        "features",
        Inputs::MultiSelect {
            choices: vec![
                Choice { id: "docker".to_string(), prompt: String::new(), default: false },
                Choice { id: "ci".to_string(), prompt: String::new(), default: true },
            ],
        },
    )
}

fn render(template: &str, context: &RunContext) -> Result<String, String> {
    Renderer::new()
        .into_engine()
        .render_str(template, context.engine_context())
        .map_err(|_| template.to_string())
}

#[test]
fn new_context_binds_nothing() {
    let context = RunContext::new();
    assert_eq!(render("{{ name }}", &context), Err("{{ name }}".to_string()));
    assert_eq!(render("plain", &context), Ok("plain".to_string()));
}

#[test]
fn text_is_bound_and_replaced() {
    let mut context = RunContext::new();
    context.insert_text("name", "Ada");
    assert_eq!(render("Hello {{ name }}", &context), Ok("Hello Ada".to_string()));
    context.insert_text("name", "Grace");
    assert_eq!(render("Hello {{name}}", &context), Ok("Hello Grace".to_string()));
    assert!(render("{{ other }}", &context).is_err());
}

#[test]
fn flag_is_bound() {
    let mut context = RunContext::new();
    context.insert_flag("git", true);
    context.insert_flag("ci", false);
    let template = "{% if git %}git{% endif %}{% if ci %}ci{% else %}none{% endif %}";
    assert_eq!(render(template, &context), Ok("gitnone".to_string()));
}

#[test]
fn list_is_bound() {
    let mut context = RunContext::new();
    context.insert_list("items", &vec!["a".to_string(), "b".to_string()]);
    let template = "{% for item in items %}<{{ item }}>{% endfor %}";
    assert_eq!(render(template, &context), Ok("<a><b>".to_string()));
}

#[test]
fn nothing_is_escaped() {
    let mut context = RunContext::new();
    context.insert_text("name", "<a href=\"x\">&'</a>");
    assert_eq!(
        render("{{ name }}", &context),
        Ok("<a href=\"x\">&'</a>".to_string())
    );
    assert_eq!(unescaped("<&>"), "<&>");
}

#[test]
fn picked_choices_bind_a_list_and_a_flag_each() {
    let mut context = RunContext::new();
    context.bind(&features(), &Answer::Chosen(vec!["ci".to_string()]));
    let template =
        "{% for f in features %}{{ f }};{% endfor %}{% if docker %}D{% endif %}{% if ci %}C{% endif %}";
    assert_eq!(render(template, &context), Ok("ci;C".to_string()));
}

#[test]
fn answers_bind_under_the_question_id() {
    let mut context = RunContext::new();
    context.bind(&question("name", Inputs::Text), &Answer::Text("Ada".to_string()));
    context.bind(&question("git", Inputs::Flag), &Answer::Flag(true));
    context.bind(
        &question("license", Inputs::Select { options: vec!["mit".to_string()] }),
        &Answer::Text("mit".to_string()),
    );
    assert_eq!(
        render("{{ name }}/{{ license }}/{% if git %}git{% endif %}", &context),
        Ok("Ada/mit/git".to_string())
    );
}

#[test]
fn context_is_built_from_answers_in_manifest_order() {
    let manifest = TemplateManifest {
        meta: Meta { name: None, description: None },
        questions: vec![question("project", Inputs::Text), features()],
    };
    let answers = vec![
        Answer::Text("demo".to_string()),
        Answer::Chosen(vec!["docker".to_string()]),
    ];
    let context = RunContext::from_answers(&manifest, &answers).unwrap();
    assert_eq!(
        render("{{ project }}{% if docker %}+docker{% endif %}{% if ci %}+ci{% endif %}", &context),
        Ok("demo+docker".to_string())
    );
    assert!(RunContext::from_answers(&manifest, &answers[..1].to_vec()).is_none());
    assert!(RunContext::from_answers(&manifest, &Vec::new()).is_none());
}

#[test]
fn renderer_escapes_on_no_template_name() {
    let renderer = Renderer::new();
    assert_eq!(renderer.escaped_suffixes(), Vec::<String>::new());
    let mut engine = renderer.into_engine();
    assert!(engine.autoescape_suffixes.is_empty());
    let mut context = RunContext::new();
    context.insert_text("name", "<Ada & co>");
    assert_eq!(
        engine.render_str("{{ name }}", context.engine_context()).unwrap(),
        "<Ada & co>"
    );
}

#[test]
fn text_question_takes_the_line_or_the_default() {
    let plain = question("name", Inputs::Text);
    assert_eq!(read_answer(&plain, "Ada"), Some(Answer::Text("Ada".to_string())));
    assert_eq!(read_answer(&plain, ""), Some(Answer::Text(String::new())));
    let mut with_default = question("name", Inputs::Text);
    with_default.default = Some(DefaultValue::Text("demo".to_string()));
    assert_eq!(read_answer(&with_default, ""), Some(Answer::Text("demo".to_string())));
    assert_eq!(read_answer(&with_default, "x y"), Some(Answer::Text("x y".to_string())));
}

#[test]
fn flag_question_takes_yes_or_no() {
    let flag = question("git", Inputs::Flag);
    for line in ["y", "yes", "true"] {
        assert_eq!(read_answer(&flag, line), Some(Answer::Flag(true)), "{line}");
    }
    for line in ["n", "no", "false"] {
        assert_eq!(read_answer(&flag, line), Some(Answer::Flag(false)), "{line}");
    }
    for line in ["", "maybe", "Y", "yes please"] {
        assert_eq!(read_answer(&flag, line), None, "{line}");
    }
    let mut with_default = question("git", Inputs::Flag);
    with_default.default = Some(DefaultValue::Flag(false));
    assert_eq!(read_answer(&with_default, ""), Some(Answer::Flag(false)));
    assert_eq!(read_answer(&with_default, "y"), Some(Answer::Flag(true)));
    assert_eq!(read_answer(&with_default, "maybe"), None);
}

#[test]
fn select_question_takes_one_of_the_options() {
    let mut select = question(
        "license",
        Inputs::Select { options: vec!["mit".to_string(), "apache".to_string()] },
    );
    assert_eq!(read_answer(&select, "apache"), Some(Answer::Text("apache".to_string())));
    assert_eq!(read_answer(&select, "gpl"), None);
    assert_eq!(read_answer(&select, ""), None);
    select.default = Some(DefaultValue::Text("mit".to_string()));
    assert_eq!(read_answer(&select, ""), Some(Answer::Text("mit".to_string())));
}

#[test]
fn multi_select_question_takes_ids_of_choices() {
    let multi = features();
    assert_eq!(
        read_answer(&multi, "ci, docker"),
        Some(Answer::Chosen(vec!["ci".to_string(), "docker".to_string()]))
    );
    assert_eq!(
        read_answer(&multi, "docker"),
        Some(Answer::Chosen(vec!["docker".to_string()]))
    );
    assert_eq!(read_answer(&multi, "docker,helm"), None);
    assert_eq!(read_answer(&multi, ""), Some(Answer::Chosen(vec!["ci".to_string()])));
    assert_eq!(read_answer(&multi, ","), Some(Answer::Chosen(Vec::new())));
    if let Inputs::MultiSelect { choices } = &multi.inputs {
        assert!(is_offered(choices, "ci"));
        assert!(!is_offered(choices, "c"));
    }
}
