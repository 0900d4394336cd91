use interactive_clap::choose_variant::VariantChoice;
use std::collections::VecDeque;
use interactive_clap::cli_args::{push_front_repeated, impl_to_cli_args, CliArgs, InteractiveClapAttrsCliField, ToCliArgsPlan};
use interactive_clap::cli_struct::{ClapAttr, CliFieldDecl, CliFieldType, FieldConversion};
use interactive_clap::context::{ContextDir, InteractiveClapAttrsContext};
use interactive_clap::error::DeriveError;
use interactive_clap::input_args::Prompt;
use interactive_clap::interactive_clap_item::{
    checked_impl_interactive_clap, impl_interactive_clap, EnumItems, InteractiveClapItems, StructItems,
};
use interactive_clap::model::{
    Attr, AttrToken, Data, DeriveInput, Field, Segment, Token, TokenKind, Ty, Variant, VariantFields,
};
use interactive_clap::structs::from_cli_trait::FieldValue;

fn tok(kind: TokenKind, text: &str) -> Token {
    Token { kind, text: text.to_string() }
}

fn group(stream: &str, items: Vec<Token>) -> AttrToken {
    AttrToken { kind: TokenKind::Group, text: format!("({stream})"), stream: stream.to_string(), items }
}

/// `#[path(stream)]`, with the stream's tokens given.
fn attr(path: &str, stream: &str, items: Vec<Token>) -> Attr {
    Attr {
        path: Some(path.to_string()),
        tokens: vec![group(stream, items)],
        text: format!("#[{path}({stream})]"),
    }
}

/// `#[interactive_clap(word)]`.
fn ic(word: &str) -> Attr {
    attr("interactive_clap", word, vec![tok(TokenKind::Ident, word)])
}

/// `/// text`, as the attribute `#[doc = " text"]`.
fn doc(text: &str) -> Attr {
    let lit = format!("\" {text}\"");
    Attr {
        path: Some("doc".to_string()),
        tokens: vec![
            AttrToken { kind: TokenKind::Punct, text: "=".to_string(), stream: String::new(), items: vec![] },
            AttrToken { kind: TokenKind::Literal, text: lit.clone(), stream: String::new(), items: vec![] },
        ],
        text: format!("#[doc = {lit}]"),
    }
}

/// A path type with one segment and no generic arguments.
fn simple_ty(name: &str) -> Ty {
    Ty { text: name.to_string(), segments: Some(vec![Segment { ident: name.to_string(), angle_args: None }]) }
}

fn field(name: &str, ty: Ty, attrs: Vec<Attr>) -> Field {
    Field { ident: Some(name.to_string()), ty, attrs }
}

fn item(name: &str, attrs: Vec<Attr>, data: Data) -> DeriveInput {
    DeriveInput { ident: name.to_string(), attrs, data }
}

fn struct_items(ast: &DeriveInput) -> StructItems {
    match impl_interactive_clap(ast) {
        Ok(InteractiveClapItems::Struct(s)) => s,
        other => panic!("a struct was expected, got {other:?}"),
    }
}

fn enum_items(ast: &DeriveInput) -> EnumItems {
    match impl_interactive_clap(ast) {
        Ok(InteractiveClapItems::Enum(e)) => e,
        other => panic!("an enum was expected, got {other:?}"),
    }
}

#[test]
fn test_simple_struct() {
    let input = item(
        "Args",
        vec![],
        Data::Struct(vec![
            field("age", simple_ty("u64"), vec![]),
            field("first_name", simple_ty("String"), vec![]),
            field("second_name", simple_ty("String"), vec![]),
        ]),
    );
    let s = struct_items(&input);
    assert_eq!(s.name, "Args");
    assert_eq!(s.cli_name, "CliArgs");
    let names: Vec<&str> = s.cli_fields.iter().map(|f| f.ident.as_str()).collect();
    assert_eq!(names, vec!["age", "first_name", "second_name"]);
    assert!(matches!(&s.cli_fields[0].decl, CliFieldDecl::Typed(CliFieldType::OptionOf(t)) if t == "u64"));
    assert!(matches!(&s.cli_fields[1].decl, CliFieldDecl::Typed(CliFieldType::OptionOf(t)) if t == "String"));
    assert!(s.cli_fields.iter().all(|f| f.clap_attrs.is_empty() && f.doc_attrs.is_empty()));
    assert!(s.conversions.iter().all(|c| matches!(c, FieldConversion::SomeInto(_))));
    let prompts: Vec<&str> = s
        .input_args
        .iter()
        .map(|p| match &p.prompt {
            Prompt::FieldName(n) => n.as_str(),
            _ => panic!("a field name prompt was expected"),
        })
        .collect();
    assert_eq!(prompts, vec!["age", "first_name", "second_name"]);
    assert!(s.input_args.iter().all(|p| matches!(p.context, ContextDir::Unit)));
    assert_eq!(s.scope_name, "InteractiveClapContextScopeForArgs");
    assert_eq!(s.scope_fields.len(), 3);
    assert_eq!(s.scope_fields[2].ty, "String");
    let from_cli = s.from_cli.expect("from_cli is generated");
    assert!(from_cli
        .values
        .iter()
        .all(|v| matches!(v, FieldValue::RequiredPrompt(_))));
    assert!(from_cli.named_arg.is_none() && from_cli.subcommand.is_none() && from_cli.subargs.is_none());
    assert!(s.named_arg_enum.is_none());

    let step_one_output = item(
        "CliArgs",
        vec![],
        Data::Struct(vec![
            field("age", simple_ty("Option"), vec![]),
            field("first_name", simple_ty("Option"), vec![]),
            field("second_name", simple_ty("Option"), vec![]),
        ]),
    );
    match impl_to_cli_args(&step_one_output) {
        Ok(ToCliArgsPlan::Struct { cli_name, subcommand, pushes }) => {
            assert_eq!(cli_name, "CliArgs");
            assert!(subcommand.is_none());
            let pushed: Vec<&str> = pushes
                .iter()
                .map(|a| match a {
                    CliArgs::Value(f) => f.as_str(),
                    _ => panic!("a plain value was expected"),
                })
                .collect();
            // pushed at the front one after the other: the last field first
            assert_eq!(pushed, vec!["second_name", "first_name", "age"]);
        }
        other => panic!("a struct plan was expected, got {other:?}"),
    }
}

#[test]
fn test_simple_struct_with_named_arg() {
    let input = item(
        "Account",
        vec![],
        Data::Struct(vec![field("field_name", simple_ty("Sender"), vec![ic("named_arg")])]),
    );
    let s = struct_items(&input);
    assert_eq!(s.cli_fields.len(), 1);
    let f = &s.cli_fields[0];
    assert!(matches!(&f.decl, CliFieldDecl::NamedArg(e) if e == "ClapNamedArgSenderForAccount"));
    assert!(matches!(&f.clap_attrs[..], [ClapAttr::Word(w)] if w == "subcommand"));
    let e = s.named_arg_enum.expect("the helper enum is generated");
    assert_eq!(e.enum_name, "ClapNamedArgSenderForAccount");
    assert_eq!(e.variant_name, "FieldName");
    assert_eq!(e.ty, "Sender");
    // a named_arg field is a subcommand: no prompt and no place in the scope
    assert!(s.input_args.is_empty());
    assert!(s.scope_fields.is_empty());
    let na = s.from_cli.expect("from_cli is generated").named_arg.expect("the named_arg field");
    assert_eq!(na.ident, "field_name");
    assert_eq!(na.variant_name, "FieldName");

    let step_one_output = item(
        "CliAccount",
        vec![],
        Data::Struct(vec![field(
            "field_name",
            simple_ty("Option"),
            vec![attr("clap", "subcommand", vec![tok(TokenKind::Ident, "subcommand")])],
        )]),
    );
    match impl_to_cli_args(&step_one_output) {
        Ok(ToCliArgsPlan::Struct { subcommand, pushes, .. }) => {
            assert_eq!(subcommand.as_deref(), Some("field_name"));
            assert!(pushes.is_empty());
        }
        other => panic!("a struct plan was expected, got {other:?}"),
    }
}

#[test]
fn test_bug_fix_of_to_cli_args_derive() {
    let account_ty = Ty {
        text: "crate :: types :: account_id :: AccountId".to_string(),
        segments: Some(vec![
            Segment { ident: "crate".to_string(), angle_args: None },
            Segment { ident: "types".to_string(), angle_args: None },
            Segment { ident: "account_id".to_string(), angle_args: None },
            Segment { ident: "AccountId".to_string(), angle_args: None },
        ]),
    };
    let input = item(
        "ViewAccountSummary",
        vec![],
        Data::Struct(vec![field("account_id", account_ty, vec![doc("What Account ID do you need to view?")])]),
    );
    let s = struct_items(&input);
    let f = &s.cli_fields[0];
    assert_eq!(f.doc_attrs, vec!["#[doc = \" What Account ID do you need to view?\"]".to_string()]);
    assert!(matches!(&f.decl, CliFieldDecl::Typed(CliFieldType::OptionOf(t))
        if t == "crate :: types :: account_id :: AccountId"));
    match &s.input_args[0].prompt {
        Prompt::DocLiterals(l) => assert_eq!(l, &vec!["\" What Account ID do you need to view?\"".to_string()]),
        other => panic!("a doc prompt was expected, got {other:?}"),
    }

    let step_one_output = item(
        "CliViewAccountSummary",
        vec![],
        Data::Struct(vec![field(
            "account_id",
            simple_ty("Option"),
            vec![doc("What Account ID do you need to view?")],
        )]),
    );
    match impl_to_cli_args(&step_one_output) {
        Ok(ToCliArgsPlan::Struct { subcommand, pushes, .. }) => {
            assert!(subcommand.is_none());
            // a doc comment does not keep the field's value from being written back
            assert!(matches!(&pushes[..], [CliArgs::Value(f)] if f == "account_id"));
        }
        other => panic!("a struct plan was expected, got {other:?}"),
    }
}

#[test]
fn test_flag() {
    let input = item(
        "Args",
        vec![],
        Data::Struct(vec![field("offline", simple_ty("bool"), vec![doc("Offline mode"), ic("long")])]),
    );
    let s = struct_items(&input);
    let f = &s.cli_fields[0];
    assert!(matches!(f.decl, CliFieldDecl::Typed(CliFieldType::Bool)));
    assert!(matches!(&f.clap_attrs[..], [ClapAttr::Stream(w)] if w == "long"));
    assert!(matches!(&s.conversions[..], [FieldConversion::Into(n)] if n == "offline"));
    // a flag is copied as it is, never prompted for
    assert!(matches!(&s.from_cli.expect("from_cli").values[..], [FieldValue::Copied(n)] if n == "offline"));

    let step_one_output = item(
        "CliArgs",
        vec![],
        Data::Struct(vec![field(
            "offline",
            simple_ty("bool"),
            vec![doc("Offline mode"), attr("clap", "long", vec![tok(TokenKind::Ident, "long")])],
        )]),
    );
    match impl_to_cli_args(&step_one_output) {
        Ok(ToCliArgsPlan::Struct { pushes, .. }) => {
            assert!(matches!(&pushes[..], [CliArgs::Flag(f, n)] if f == "offline" && n == "offline"));
        }
        other => panic!("a struct plan was expected, got {other:?}"),
    }
}

fn vec_of_string() -> Ty {
    Ty {
        text: "Vec < String >".to_string(),
        segments: Some(vec![Segment { ident: "Vec".to_string(), angle_args: Some("String".to_string()) }]),
    }
}

#[test]
fn test_vec_multiple_opt() {
    let input = item(
        "Args",
        vec![],
        Data::Struct(vec![field("env", vec_of_string(), vec![ic("long_vec_multiple_opt")])]),
    );
    let s = struct_items(&input);
    let f = &s.cli_fields[0];
    assert!(matches!(&f.decl, CliFieldDecl::Verbatim(t) if t == "Vec < String >"));
    assert!(matches!(&f.clap_attrs[..], [ClapAttr::Word(w)] if w == "long"));
    assert!(matches!(&s.conversions[..], [FieldConversion::Into(n)] if n == "env"));
    // it implies `skip_interactive_input`: no prompt, the value is copied as given
    assert!(s.input_args.is_empty());
    assert!(matches!(&s.from_cli.expect("from_cli").values[..], [FieldValue::Copied(n)] if n == "env"));
}

#[test]
fn test_vec_multiple_opt_to_cli_args() {
    let step_one_output = item(
        "CliArgs",
        vec![],
        Data::Struct(vec![field(
            "env",
            vec_of_string(),
            vec![attr("clap", "long", vec![tok(TokenKind::Ident, "long")])],
        )]),
    );
    match impl_to_cli_args(&step_one_output) {
        Ok(ToCliArgsPlan::Struct { pushes, .. }) => {
            // the flag is written once for each value
            assert!(matches!(&pushes[..], [CliArgs::RepeatedOption(f, n)] if f == "env" && n == "env"));
        }
        other => panic!("a struct plan was expected, got {other:?}"),
    }
}

#[test]
#[should_panic]
fn test_vec_multiple_opt_err() {
    let input = item(
        "Args",
        vec![],
        Data::Struct(vec![field("env", simple_ty("String"), vec![ic("long_vec_multiple_opt")])]),
    );
    // the derive aborts where the library refuses
    impl_interactive_clap(&input).expect("the derive aborts");
}

#[test]
fn vec_multiple_opt_on_a_string_is_refused() {
    let input = item(
        "Args",
        vec![],
        Data::Struct(vec![field("env", simple_ty("String"), vec![ic("long_vec_multiple_opt")])]),
    );
    assert_eq!(impl_interactive_clap(&input).err(), Some(DeriveError::LongVecMultipleOptNeedsVec));
}

/// The doc comment lines of a field: a first line, an empty one, and two more.
fn doc_lines(first: &str, second: &str, third: &str) -> Vec<Attr> {
    vec![doc(first), doc_empty(), doc(second), doc(third)]
}

/// `///` alone, as the attribute `#[doc = ""]`.
fn doc_empty() -> Attr {
    Attr {
        path: Some("doc".to_string()),
        tokens: vec![
            AttrToken { kind: TokenKind::Punct, text: "=".to_string(), stream: String::new(), items: vec![] },
            AttrToken { kind: TokenKind::Literal, text: "\"\"".to_string(), stream: String::new(), items: vec![] },
        ],
        text: "#[doc = \"\"]".to_string(),
    }
}

fn clap_long(extra: bool) -> Attr {
    if extra {
        attr(
            "clap",
            "long , verbatim_doc_comment",
            vec![
                tok(TokenKind::Ident, "long"),
                tok(TokenKind::Punct, ","),
                tok(TokenKind::Ident, "verbatim_doc_comment"),
            ],
        )
    } else {
        attr("clap", "long", vec![tok(TokenKind::Ident, "long")])
    }
}

#[test]
fn test_doc_comments_propagate() {
    let first_doc = doc_lines(
        "short first field description",
        "a longer paragraph, describing the usage and stuff with first field's",
        "awarenes of its possible applications",
    );
    let second_doc = doc_lines(
        "short second field description",
        "a longer paragraph, describing the usage and stuff with second field's",
        "awareness of its possible applications",
    );
    let third_doc = doc_lines(
        "short third field description",
        "a longer paragraph, describing the usage and stuff with third field's",
        "awareness of its possible applications",
    );
    let with = |docs: &Vec<Attr>, words: &[&str]| -> Vec<Attr> {
        let mut v: Vec<Attr> = docs.iter().map(|a| Attr {
            path: a.path.clone(),
            tokens: a.tokens.iter().map(|t| AttrToken {
                kind: t.kind,
                text: t.text.clone(),
                stream: t.stream.clone(),
                items: vec![],
            }).collect(),
            text: a.text.clone(),
        }).collect();
        v.extend(words.iter().map(|w| ic(w)));
        v
    };
    let input = item(
        "Args",
        vec![],
        Data::Struct(vec![
            field("first_field", simple_ty("u64"), with(&first_doc, &["long", "skip_interactive_input"])),
            field(
                "second_field",
                simple_ty("String"),
                with(&second_doc, &["long", "skip_interactive_input", "verbatim_doc_comment"]),
            ),
            field(
                "third_field",
                simple_ty("bool"),
                with(&third_doc, &["long", "skip_interactive_input", "verbatim_doc_comment"]),
            ),
        ]),
    );
    let s = struct_items(&input);
    assert!(s.cli_fields.iter().all(|f| f.doc_attrs.len() == 4));
    assert_eq!(s.cli_fields[0].doc_attrs[0], "#[doc = \" short first field description\"]");
    assert_eq!(s.cli_fields[0].doc_attrs[1], "#[doc = \"\"]");
    assert!(matches!(&s.cli_fields[0].clap_attrs[..], [ClapAttr::Stream(w)] if w == "long"));
    for f in &s.cli_fields[1..] {
        assert!(matches!(&f.clap_attrs[..],
            [ClapAttr::Stream(a), ClapAttr::Stream(b)] if a == "long" && b == "verbatim_doc_comment"));
    }
    assert!(matches!(s.cli_fields[2].decl, CliFieldDecl::Typed(CliFieldType::Bool)));
    // every field is marked `skip_interactive_input`: no prompt, the value is copied
    assert!(s.input_args.is_empty());
    assert!(s.from_cli.expect("from_cli").values.iter().all(|v| matches!(v, FieldValue::Copied(_))));

    let option_of = |t: &str| Ty {
        text: format!("Option < < {t} as interactive_clap :: ToCli > :: CliVariant >"),
        segments: Some(vec![Segment {
            ident: "Option".to_string(),
            angle_args: Some(format!("< {t} as interactive_clap :: ToCli > :: CliVariant")),
        }]),
    };
    let mut f1 = first_doc;
    f1.push(clap_long(false));
    let mut f2 = second_doc;
    f2.push(clap_long(true));
    let mut f3 = third_doc;
    f3.push(clap_long(true));
    let step_one_output = item(
        "CliArgs",
        vec![],
        Data::Struct(vec![
            field("first_field", option_of("u64"), f1),
            field("second_field", option_of("String"), f2),
            field("third_field", simple_ty("bool"), f3),
        ]),
    );
    match impl_to_cli_args(&step_one_output) {
        Ok(ToCliArgsPlan::Struct { subcommand, pushes, .. }) => {
            assert!(subcommand.is_none());
            assert!(matches!(&pushes[..], [
                CliArgs::Flag(a, an),
                CliArgs::LongOption(b, bn),
                CliArgs::LongOption(c, cn),
            ] if a == "third_field" && an == "third-field" && b == "second_field" && bn == "second-field"
                && c == "first_field" && cn == "first-field"));
        }
        other => panic!("a struct plan was expected, got {other:?}"),
    }
}

fn mode_enum(attrs: Vec<Attr>) -> DeriveInput {
    item(
        "Mode",
        attrs,
        Data::Enum(vec![
            Variant {
                ident: "Network".to_string(),
                attrs: vec![doc("Prepare and, optionally, submit a new transaction with online mode")],
                fields: VariantFields::Unit,
            },
            Variant {
                ident: "Offline".to_string(),
                attrs: vec![doc("Prepare and, optionally, submit a new transaction with offline mode")],
                fields: VariantFields::Unit,
            },
        ]),
    )
}

#[test]
fn test_simple_enum() {
    let e = enum_items(&mode_enum(vec![]));
    assert_eq!(e.cli_name, "CliMode");
    let names: Vec<&str> = e.variants.iter().map(|v| v.ident.as_str()).collect();
    assert_eq!(names, vec!["Network", "Offline"]);
    assert!(e.variants.iter().all(|v| v.ty.is_none() && v.attrs.len() == 1));
    assert_eq!(e.scope_name, "InteractiveClapContextScopeForMode");
    assert_eq!(e.discriminants, "ModeDiscriminants");
    // without strum's discriminants there is nothing to select from
    assert!(e.choose_variant.select.is_none());
    let fc = e.from_cli.expect("from_cli");
    let arms: Vec<&str> = fc.arms.iter().map(|a| a.ident.as_str()).collect();
    assert_eq!(arms, vec!["Network", "Offline"]);

    match impl_to_cli_args(&mode_enum(vec![])) {
        Ok(ToCliArgsPlan::Enum { variants, .. }) => {
            let written: Vec<&str> = variants.iter().map(|v| v.name.as_str()).collect();
            assert_eq!(written, vec!["network", "offline"]);
            assert!(variants.iter().all(|v| !v.has_subcommand));
        }
        other => panic!("an enum plan was expected, got {other:?}"),
    }
}

#[test]
fn test_simple_enum_with_strum_discriminants() {
    let strum = attr(
        "strum_discriminants",
        "derive (EnumMessage , EnumIter)",
        vec![tok(TokenKind::Ident, "derive"), tok(TokenKind::Group, "(EnumMessage , EnumIter)")],
    );
    let e = enum_items(&mode_enum(vec![strum, doc("A little beautiful comment about our choice")]));
    let sel = e.choose_variant.select.expect("a selection");
    assert!(sel.back);
    assert_eq!(sel.discriminants, "ModeDiscriminants");
    assert_eq!(sel.cli_command, "CliMode");
    let offered: Vec<&str> = sel.variants.iter().map(|v: &VariantChoice| v.ident.as_str()).collect();
    assert_eq!(offered, vec!["Network", "Offline"]);
    match &sel.prompt {
        Prompt::DocLiterals(l) => {
            assert_eq!(l, &vec!["\" A little beautiful comment about our choice\"".to_string()])
        }
        other => panic!("a doc prompt was expected, got {other:?}"),
    }
}

#[test]
fn enum_with_disable_back_and_tuple_variant() {
    let strum = attr(
        "strum_discriminants",
        "derive(EnumMessage, EnumIter)",
        vec![tok(TokenKind::Ident, "derive"), tok(TokenKind::Group, "(EnumMessage, EnumIter)")],
    );
    let input = item(
        "Submit",
        vec![strum, ic("disable_back")],
        Data::Enum(vec![
            Variant {
                ident: "Send".to_string(),
                attrs: vec![],
                fields: VariantFields::Unnamed(vec![simple_ty("Args")]),
            },
            Variant { ident: "Display".to_string(), attrs: vec![], fields: VariantFields::Unit },
        ]),
    );
    let e = enum_items(&input);
    assert!(matches!(&e.variants[0].ty, Some(t) if t == "Args"));
    let sel = e.choose_variant.select.expect("a selection");
    assert!(!sel.back);
    assert!(sel.variants[0].has_arg && !sel.variants[1].has_arg);
    let fc = e.from_cli.expect("from_cli");
    assert_eq!(fc.context_name, "SubmitContext");
    assert!(matches!(&fc.arms[0].ty, Some(t) if t == "Args"));
}

#[test]
fn struct_with_context_and_subcommand() {
    let ctx = attr(
        "interactive_clap",
        "context = common :: ConnectionConfig",
        vec![
            tok(TokenKind::Ident, "context"),
            tok(TokenKind::Punct, "="),
            tok(TokenKind::Ident, "common"),
            tok(TokenKind::Punct, ":"),
            tok(TokenKind::Punct, ":"),
            tok(TokenKind::Ident, "ConnectionConfig"),
        ],
    );
    let input = item(
        "OnlineArgs",
        vec![ctx],
        Data::Struct(vec![
            field(
                "network_name",
                simple_ty("String"),
                vec![doc("What is the name of the network"), ic("skip_default_input_arg")],
            ),
            field("submit", simple_ty("Submit"), vec![ic("subcommand")]),
        ]),
    );
    let c = InteractiveClapAttrsContext::new(&input);
    match c.get_input_context_dir() {
        ContextDir::Tokens(t) => assert_eq!(t, vec!["common", ":", ":", "ConnectionConfig"]),
        ContextDir::Unit => panic!("the context was given"),
    }
    let s = struct_items(&input);
    // neither field is prompted for: one is marked, the other is a subcommand
    assert!(s.input_args.is_empty());
    let names: Vec<&str> = s.scope_fields.iter().map(|f| f.ident.as_str()).collect();
    assert_eq!(names, vec!["network_name"]);
    let fc = s.from_cli.expect("from_cli");
    // the scope's field is read before the scope is built
    assert!(fc.values.iter().any(|v| matches!(v, FieldValue::RequiredPrompt(f) if f == "network_name")));
    let sub = fc.subcommand.expect("the subcommand field");
    assert_eq!(sub.ident, "submit");
    assert_eq!(sub.ty, "Submit");
    assert!(matches!(&s.cli_fields[1].clap_attrs[..], [ClapAttr::Stream(w)] if w == "subcommand"));
}

#[test]
fn skipped_field_is_neither_declared_nor_converted() {
    let input = item(
        "Args",
        vec![],
        Data::Struct(vec![
            field("kept", simple_ty("u64"), vec![]),
            field("gone", simple_ty("u64"), vec![ic("skip")]),
        ]),
    );
    let s = struct_items(&input);
    let declared: Vec<&str> = s.cli_fields.iter().map(|f| f.ident.as_str()).collect();
    assert_eq!(declared, vec!["kept"]);
    assert!(matches!(&s.conversions[..], [FieldConversion::SomeInto(n)] if n == "kept"));
}

#[test]
fn skip_default_from_cli_leaves_out_from_cli() {
    let input = item(
        "Args",
        vec![ic("skip_default_from_cli")],
        Data::Struct(vec![field("age", simple_ty("u64"), vec![])]),
    );
    assert!(struct_items(&input).from_cli.is_none());
}

#[test]
fn refusals() {
    let union = item("U", vec![], Data::Union);
    assert_eq!(impl_interactive_clap(&union).err(), Some(DeriveError::OnlyStructsAndEnums));
    assert_eq!(impl_to_cli_args(&union).err(), Some(DeriveError::OnlyStructsAndEnums));

    let not_a_path = item(
        "Args",
        vec![],
        Data::Struct(vec![field("t", Ty { text: "(u8 , u8)".to_string(), segments: None }, vec![])]),
    );
    assert_eq!(impl_interactive_clap(&not_a_path).err(), Some(DeriveError::OnlyTypePath));

    let no_segment = item(
        "Args",
        vec![],
        Data::Struct(vec![field("t", Ty { text: String::new(), segments: Some(vec![]) }, vec![])]),
    );
    assert_eq!(impl_interactive_clap(&no_segment).err(), Some(DeriveError::OnlyPathSegment));

    let not_a_group = Attr {
        path: Some("interactive_clap".to_string()),
        tokens: vec![AttrToken { kind: TokenKind::Ident, text: "x".to_string(), stream: String::new(), items: vec![] }],
        text: "#[interactive_clap x]".to_string(),
    };
    let bad_tokens = item("Args", vec![], Data::Struct(vec![field("a", simple_ty("u8"), vec![not_a_group])]));
    assert_eq!(impl_interactive_clap(&bad_tokens).err(), Some(DeriveError::OnlyGroupTokens));

    let named_variant = item(
        "E",
        vec![],
        Data::Enum(vec![Variant { ident: "V".to_string(), attrs: vec![], fields: VariantFields::Named }]),
    );
    assert_eq!(impl_interactive_clap(&named_variant).err(), Some(DeriveError::OnlyUnnamedOrUnitFields));
    assert_eq!(impl_to_cli_args(&named_variant).err(), Some(DeriveError::OnlyUnnamedOrUnitVariants));
}

#[test]
fn panicking_inputs_are_reported() {
    let tuple_struct = item(
        "T",
        vec![],
        Data::Struct(vec![Field { ident: None, ty: simple_ty("u8"), attrs: vec![] }]),
    );
    assert!(checked_impl_interactive_clap(&tuple_struct).is_none());

    let bad_name = item(
        "Account",
        vec![],
        Data::Struct(vec![field("sender_", simple_ty("Sender"), vec![ic("named_arg")])]),
    );
    assert!(checked_impl_interactive_clap(&bad_name).is_none());

    let empty_tuple_variant = item(
        "E",
        vec![],
        Data::Enum(vec![Variant { ident: "V".to_string(), attrs: vec![], fields: VariantFields::Unnamed(vec![]) }]),
    );
    assert!(checked_impl_interactive_clap(&empty_tuple_variant).is_none());

    let fine = item("Args", vec![], Data::Struct(vec![field("age", simple_ty("u64"), vec![])]));
    assert!(matches!(checked_impl_interactive_clap(&fine), Some(Ok(InteractiveClapItems::Struct(_)))));
}

#[test]
fn cli_field_of_to_cli_args() {
    let named = field(
        "sender",
        simple_ty("Option"),
        vec![attr("clap", "long = \"from\"", vec![tok(TokenKind::Ident, "long"), tok(TokenKind::Punct, "="), tok(TokenKind::Literal, "\"from\"")])],
    );
    match InteractiveClapAttrsCliField::new(&named) {
        Ok(InteractiveClapAttrsCliField::RegularField(CliArgs::NamedOption(f, l))) => {
            assert_eq!(f, "sender");
            assert_eq!(l, "\"from\"");
        }
        other => panic!("a named option was expected, got {other:?}"),
    }
}

#[test]
fn repeated_option_writes_each_value() {
    let mut args: VecDeque<String> = VecDeque::new();
    push_front_repeated(&mut args, "env", &vec!["a".to_string(), "b".to_string()]);
    assert_eq!(Vec::from(args), vec!["--env", "a", "--env", "b"]);
    let mut args: VecDeque<String> = VecDeque::new();
    push_front_repeated(&mut args, "env", &vec![]);
    assert!(args.is_empty());
    let mut args: VecDeque<String> = VecDeque::from(vec!["--offline".to_string()]);
    push_front_repeated(&mut args, "env-var", &vec!["x".to_string()]);
    assert_eq!(Vec::from(args), vec!["--env-var", "x", "--offline"]);
}

#[test]
fn field_with_other_attributes_writes_nothing_back() {
    let step_one_output = item(
        "CliArgs",
        vec![],
        Data::Struct(vec![
            field("a", simple_ty("Option"), vec![attr("allow", "dead_code", vec![tok(TokenKind::Ident, "dead_code")])]),
            field("b", simple_ty("Option"), vec![doc("only a doc comment")]),
            field("c", simple_ty("Option"), vec![]),
        ]),
    );
    match impl_to_cli_args(&step_one_output) {
        Ok(ToCliArgsPlan::Struct { pushes, .. }) => {
            // pushed in reverse field order: `c`, `b`, then `a`, which writes nothing
            assert!(matches!(&pushes[..], [CliArgs::Value(c), CliArgs::Value(b), CliArgs::Nothing]
                if c == "c" && b == "b"));
        }
        other => panic!("a struct plan was expected, got {other:?}"),
    }
}
