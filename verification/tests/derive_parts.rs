use interactive_clap::cli_struct::{cli_field_type, field_conversion, for_cli_field, CliFieldType, FieldConversion};
use interactive_clap::context::{ContextDir, InteractiveClapAttrsContext};
use interactive_clap::field_attrs::{
    field_with_skip_default_from_cli, is_field_with_skip_default_input_arg, is_field_with_subargs,
    is_field_without_skip_default_from_cli, is_field_without_skip_default_input_arg,
    is_field_without_subcommand, is_skip_interactive_input,
};
use interactive_clap::from_cli::WhenPromptLeft;
use interactive_clap::input_args::Prompt;
use interactive_clap::interactive_clap_item::fields_named;
use interactive_clap::classic::choose_variant::ClassicChoice;
use interactive_clap::model::{
    starts_with_vec, type_starts_with_vec, Attr, AttrToken, Data, DeriveInput, Field, Segment, Token,
    TokenKind, Ty, Variant, VariantFields,
};
use interactive_clap::scope::{context_scope_for_enum, context_scope_for_struct_field};

fn tok(kind: TokenKind, text: &str) -> Token {
    Token { kind, text: text.to_string() }
}

fn ic_items(stream: &str, items: Vec<Token>) -> Attr {
    Attr {
        path: Some("interactive_clap".to_string()),
        tokens: vec![AttrToken {
            kind: TokenKind::Group,
            text: format!("({stream})"),
            stream: stream.to_string(),
            items,
        }],
        text: format!("#[interactive_clap({stream})]"),
    }
}

fn ic(word: &str) -> Attr {
    ic_items(word, vec![tok(TokenKind::Ident, word)])
}

fn doc(text: &str) -> Attr {
    let lit = format!("\" {text}\"");
    Attr {
        path: Some("doc".to_string()),
        tokens: vec![
            AttrToken { kind: TokenKind::Punct, text: "=".to_string(), stream: String::new(), items: vec![] },
            AttrToken { kind: TokenKind::Literal, text: lit.clone(), stream: String::new(), items: vec![] },
        ],
        text: format!("#[doc = {lit}]"),
    }
}

fn simple_ty(name: &str) -> Ty {
    Ty { text: name.to_string(), segments: Some(vec![Segment { ident: name.to_string(), angle_args: None }]) }
}

fn option_ty(inner: &str) -> Ty {
    Ty {
        text: format!("Option < {inner} >"),
        segments: Some(vec![Segment { ident: "Option".to_string(), angle_args: Some(inner.to_string()) }]),
    }
}

fn field(name: &str, ty: Ty, attrs: Vec<Attr>) -> Field {
    Field { ident: Some(name.to_string()), ty, attrs }
}

fn context_attr(key: &str, ty: &str) -> Attr {
    ic_items(
        &format!("{key} = {ty}"),
        vec![tok(TokenKind::Ident, key), tok(TokenKind::Punct, "="), tok(TokenKind::Ident, ty)],
    )
}

fn item(attrs: Vec<Attr>, data: Data) -> DeriveInput {
    DeriveInput { ident: "Args".to_string(), attrs, data }
}

#[test]
fn context_takes_precedence_over_input_context() {
    let both = item(vec![context_attr("input_context", "In"), context_attr("context", "Ctx")], Data::Union);
    match InteractiveClapAttrsContext::new(&both).get_input_context_dir() {
        ContextDir::Tokens(t) => assert_eq!(t, vec!["Ctx"]),
        ContextDir::Unit => panic!("a context was given"),
    }
    let input_only = item(vec![context_attr("input_context", "In"), context_attr("output_context", "Out")], Data::Union);
    let c = InteractiveClapAttrsContext::new(&input_only);
    assert_eq!(c.output_context_dir.as_deref(), Some(&["Out".to_string()][..]));
    match c.get_input_context_dir() {
        ContextDir::Tokens(t) => assert_eq!(t, vec!["In"]),
        ContextDir::Unit => panic!("an input context was given"),
    }
    let none = item(vec![ic("skip_default_from_cli")], Data::Union);
    let c = InteractiveClapAttrsContext::new(&none);
    assert!(c.is_skip_default_from_cli);
    assert!(matches!(c.get_input_context_dir(), ContextDir::Unit));
}

#[test]
fn field_predicates() {
    let sub = field("submit", simple_ty("Submit"), vec![ic("subcommand")]);
    let named = field("sender", simple_ty("Sender"), vec![ic("named_arg")]);
    let subargs = field("args", simple_ty("Args"), vec![ic("subargs")]);
    let skip_input = field("name", simple_ty("String"), vec![ic("skip_default_input_arg")]);
    let skip_interactive = field("name", simple_ty("String"), vec![ic("skip_interactive_input")]);
    let plain = field("age", simple_ty("u64"), vec![]);
    assert!(!is_field_without_subcommand(&sub));
    assert!(!is_field_without_subcommand(&named));
    assert!(is_field_without_subcommand(&plain));
    assert!(is_field_with_subargs(&subargs));
    assert!(!is_field_with_subargs(&plain));
    assert!(is_field_with_skip_default_input_arg(&skip_input));
    assert!(!is_field_without_skip_default_input_arg(&skip_input));
    assert!(is_field_without_skip_default_input_arg(&plain));
    assert!(is_skip_interactive_input(&skip_interactive));
    assert!(!is_skip_interactive_input(&plain));
    let lvmo = field("env", simple_ty("Vec"), vec![ic("long_vec_multiple_opt")]);
    assert!(is_skip_interactive_input(&lvmo));
    let skip_from_cli = field("x", simple_ty("u8"), vec![ic("skip_default_from_cli")]);
    assert!(!is_field_without_skip_default_from_cli(&skip_from_cli));
    assert!(is_field_without_skip_default_from_cli(&plain));
    assert_eq!(field_with_skip_default_from_cli(&skip_from_cli), Ok(Some("x".to_string())));
    assert_eq!(field_with_skip_default_from_cli(&plain), Ok(None));
}

#[test]
fn cli_types_and_conversions() {
    assert!(matches!(cli_field_type(&simple_ty("bool")), Ok(CliFieldType::Bool)));
    assert!(matches!(cli_field_type(&option_ty("u64")), Ok(CliFieldType::OptionOf(t)) if t == "u64"));
    assert!(matches!(cli_field_type(&simple_ty("String")), Ok(CliFieldType::OptionOf(t)) if t == "String"));
    assert!(type_starts_with_vec(&simple_ty("Vec")));
    assert!(!starts_with_vec(&simple_ty("String")));
    let skip: Vec<String> = vec!["gone".to_string()];
    let flag = field("offline", simple_ty("bool"), vec![]);
    let gone = field("gone", simple_ty("u8"), vec![]);
    let opt = field("maybe", option_ty("u8"), vec![]);
    // the current derive keeps a flag as it is, the classic one wraps it
    assert!(matches!(field_conversion(&flag, &skip), Ok(FieldConversion::Into(_))));
    assert!(matches!(for_cli_field(&flag, &skip), Ok(FieldConversion::SomeInto(_))));
    assert!(matches!(field_conversion(&gone, &skip), Ok(FieldConversion::Skipped)));
    assert!(matches!(field_conversion(&opt, &skip), Ok(FieldConversion::Into(_))));
    assert!(matches!(for_cli_field(&opt, &skip), Ok(FieldConversion::Into(_))));
}

#[test]
fn scopes() {
    let plain = field("age", simple_ty("u64"), vec![]);
    let sub = field("submit", simple_ty("Submit"), vec![ic("subcommand")]);
    let s = context_scope_for_struct_field(&plain).expect("in the scope");
    assert_eq!((s.ident.as_str(), s.ty.as_str()), ("age", "u64"));
    assert!(context_scope_for_struct_field(&sub).is_none());
    let e = context_scope_for_enum("Mode");
    assert_eq!(e.scope_name, "InteractiveClapContextScopeForMode");
    assert_eq!(e.discriminants, "ModeDiscriminants");
    assert!(fields_named(&vec![plain]));
    assert!(!fields_named(&vec![Field { ident: None, ty: simple_ty("u8"), attrs: vec![] }]));
}

fn prompts_fields() -> Vec<Field> {
    vec![
        field("age", simple_ty("u64"), vec![]),
        field("name", simple_ty("String"), vec![doc("What is your name?")]),
        field("hidden", simple_ty("String"), vec![ic("skip_interactive_input")]),
        field("manual", simple_ty("String"), vec![ic("skip_default_input_arg")]),
        field("submit", simple_ty("Submit"), vec![ic("subcommand")]),
    ]
}

#[test]
fn prompts_of_the_current_derive() {
    let ast = item(vec![], Data::Union);
    let fns = interactive_clap::methods::input_arg::vec_fn_input_arg(&ast, &prompts_fields());
    let names: Vec<&str> = fns.iter().map(|f| f.ident.as_str()).collect();
    assert_eq!(names, vec!["age", "name"]);
    assert!(matches!(&fns[0].prompt, Prompt::FieldName(n) if n == "age"));
    assert!(matches!(&fns[1].prompt, Prompt::DocLiterals(l) if l == &vec!["\" What is your name?\"".to_string()]));
}

#[test]
fn prompts_of_the_classic_derive() {
    let ast = item(vec![], Data::Union);
    let fns = interactive_clap::classic::input_arg::vec_input_arg(&ast, &prompts_fields());
    let names: Vec<&str> = fns.iter().map(|f| f.ident.as_str()).collect();
    // the classic derive prompts for `hidden` too, and prompts `age` with an empty text
    assert_eq!(names, vec!["age", "name", "hidden"]);
    assert!(matches!(&fns[0].prompt, Prompt::Text(t) if t.is_empty()));
    assert!(matches!(&fns[1].prompt, Prompt::Text(t) if t == " What is your name?"));
    let skipped = item(vec![ic("skip_default_from_cli")], Data::Union);
    assert!(interactive_clap::classic::input_arg::vec_input_arg(&skipped, &prompts_fields()).is_empty());
}

#[test]
fn getters() {
    let ast = item(vec![], Data::Union);
    let fields = vec![
        field("age", simple_ty("u64"), vec![]),
        field("maybe", option_ty("u8"), vec![]),
        field("kept", simple_ty("u8"), vec![ic("skip_default_from_cli")]),
        field("submit", simple_ty("Submit"), vec![ic("subcommand")]),
    ];
    let current = interactive_clap::methods::get_arg_from_cli_for_struct::from_cli_arg(&ast, &fields)
        .expect("getters");
    let names: Vec<&str> = current.iter().map(|g| g.ident.as_str()).collect();
    assert_eq!(names, vec!["age", "maybe"]);
    // a prompt left without a value: an error for a plain field, passed on for an `Option`
    assert_eq!(current[0].when_left, WhenPromptLeft::Fail);
    assert!(!current[0].optional);
    assert_eq!(current[1].when_left, WhenPromptLeft::PassOn);
    assert!(current[1].optional);
    let classic = interactive_clap::classic::get_arg_from_cli_for_struct::from_cli_arg(&ast, &fields)
        .expect("getters");
    let names: Vec<&str> = classic.iter().map(|g| g.ident.as_str()).collect();
    assert_eq!(names, vec!["age", "maybe"]);
    assert!(classic.iter().all(|g| g.when_left == WhenPromptLeft::PassOn));
    let skipped = item(vec![ic("skip_default_from_cli")], Data::Union);
    assert!(interactive_clap::classic::get_arg_from_cli_for_struct::from_cli_arg(&skipped, &fields)
        .expect("getters")
        .is_empty());
}

fn variants() -> Vec<Variant> {
    vec![
        Variant { ident: "Send".to_string(), attrs: vec![], fields: VariantFields::Unnamed(vec![simple_ty("Args")]) },
        Variant { ident: "Display".to_string(), attrs: vec![], fields: VariantFields::Unit },
    ]
}

fn strum(stream: &str) -> Attr {
    Attr {
        path: Some("strum_discriminants".to_string()),
        tokens: vec![AttrToken {
            kind: TokenKind::Group,
            text: format!("({stream})"),
            stream: stream.to_string(),
            items: vec![],
        }],
        text: format!("#[strum_discriminants({stream})]"),
    }
}

#[test]
fn choose_variant_versions() {
    let spaced = item(vec![strum("derive (EnumMessage , EnumIter)")], Data::Union);
    let exact = item(vec![strum("derive(EnumMessage, EnumIter)")], Data::Union);
    // the current form compares without spaces, the per-item form compares exactly
    let common = interactive_clap::common_methods::choose_variant::fn_choose_variant(&spaced, &variants()).unwrap();
    assert!(common.select.is_some());
    let methods = interactive_clap::methods::choose_variant::fn_choose_variant(&spaced, &variants()).unwrap();
    assert!(methods.select.is_none());
    let methods = interactive_clap::methods::choose_variant::fn_choose_variant(&exact, &variants()).unwrap();
    assert!(methods.select.is_some());

    let classic = interactive_clap::classic::choose_variant::fn_choose_variant(&exact, &variants()).unwrap();
    assert!(matches!(classic.body, ClassicChoice::Select(_)));
    let first_only = item(vec![ic("disable_strum_discriminants")], Data::Union);
    let classic = interactive_clap::classic::choose_variant::fn_choose_variant(&first_only, &variants()).unwrap();
    assert!(matches!(classic.body, ClassicChoice::First(c) if c.ident == "Send" && c.has_arg));
}

#[test]
fn from_cli_of_enums() {
    let with_output = item(vec![context_attr("output_context", "Out")], Data::Union);
    let plan = interactive_clap::methods::from_cli_for_enum::from_cli_for_enum(&with_output, &variants())
        .unwrap()
        .expect("a plan");
    assert_eq!(plan.output_context, Some(vec!["Out".to_string()]));
    assert_eq!(plan.cli_name, "CliArgs");
    let skipped = item(vec![ic("skip_default_from_cli")], Data::Union);
    assert!(interactive_clap::classic::from_cli_for_enum::from_cli_for_enum(&skipped, &variants())
        .unwrap()
        .is_none());
}

#[test]
fn from_cli_of_the_classic_derive() {
    let ast = item(vec![], Data::Union);
    let fields = vec![
        field("age", simple_ty("u64"), vec![]),
        field("sender", simple_ty("Sender"), vec![ic("named_arg")]),
    ];
    let plan = interactive_clap::classic::from_cli_for_struct::from_cli_for_struct(&ast, &fields)
        .unwrap()
        .expect("a plan");
    assert_eq!(plan.values, vec!["age".to_string()]);
    assert_eq!(plan.scope_fields, vec!["age".to_string()]);
    let na = plan.named_arg.expect("the named_arg field");
    assert_eq!(na.enum_name, "ClapNamedArgSenderForArgs");
    assert_eq!(na.variant_name, "Sender");
    let bad = vec![field("sender__x", simple_ty("Sender"), vec![ic("named_arg")])];
    assert!(interactive_clap::classic::from_cli_for_struct::checked_from_cli_for_struct(&ast, &bad).is_none());
}
