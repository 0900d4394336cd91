use interactive_clap::case::{checked_snake_case_to_camel_case, snake_case_to_camel_case, to_kebab_case};
use interactive_clap::common::{prompt_labels, ConnectionConfig};
use interactive_clap::error::DeriveError;
use interactive_clap::ResultFromCli;

#[test]
fn kebab_case_of_camel_case() {
    assert_eq!(to_kebab_case("FieldName".to_string()), "field-name");
    assert_eq!(to_kebab_case("Network".to_string()), "network");
    assert_eq!(to_kebab_case("SignWithKeychain".to_string()), "sign-with-keychain");
}

#[test]
fn kebab_case_of_snake_case() {
    assert_eq!(to_kebab_case("first_name".to_string()), "first-name");
    assert_eq!(to_kebab_case("network_name".to_string()), "network-name");
}

#[test]
fn kebab_case_edges() {
    assert_eq!(to_kebab_case(String::new()), "");
    assert_eq!(to_kebab_case("ABC".to_string()), "a-b-c");
    assert_eq!(to_kebab_case("_x".to_string()), "-x");
    assert_eq!(to_kebab_case("a1B2".to_string()), "a1-b2");
    // a non-ASCII uppercase letter gets its dash, and is kept as it is
    assert_eq!(to_kebab_case("aÄb".to_string()), "a-Äb");
}

#[test]
fn camel_case_of_snake_case() {
    assert_eq!(snake_case_to_camel_case("field_name".to_string()), "FieldName");
    assert_eq!(snake_case_to_camel_case("age".to_string()), "Age");
    assert_eq!(snake_case_to_camel_case("SNAKE_case".to_string()), "SnakeCase");
    assert_eq!(snake_case_to_camel_case("a_1b".to_string()), "A1b");
}

#[test]
fn camel_case_refuses_where_it_would_panic() {
    assert_eq!(checked_snake_case_to_camel_case("_x".to_string()), None);
    assert_eq!(checked_snake_case_to_camel_case("x_".to_string()), None);
    assert_eq!(checked_snake_case_to_camel_case("a__b".to_string()), None);
    assert_eq!(checked_snake_case_to_camel_case(String::new()), None);
    assert_eq!(checked_snake_case_to_camel_case("x_é".to_string()), None);
    assert_eq!(
        checked_snake_case_to_camel_case("sender_account".to_string()),
        Some("SenderAccount".to_string())
    );
}

#[test]
fn kebab_of_camel_is_kebab_of_snake() {
    for name in ["field_name", "network", "sign_with_keychain", "x1_y2"] {
        let camel = snake_case_to_camel_case(name.to_string());
        assert_eq!(to_kebab_case(camel), to_kebab_case(name.to_string()));
    }
}

#[test]
fn kebab_case_writes_no_underscore_nor_uppercase() {
    for name in ["A_B_C", "__Mixed_Case__", "already-kebab", "Ünïcode_X"] {
        let k = to_kebab_case(name.to_string());
        assert!(!k.contains('_'));
        assert!(!k.chars().any(|c| c.is_ascii_uppercase()));
    }
}

#[test]
fn labels_of_a_selection() {
    let labels = prompt_labels(&vec![Some("Yes, I keep it simple".to_string()), None]);
    assert_eq!(
        labels,
        vec![
            "Yes, I keep it simple".to_string(),
            "error[This entry does not have an option message!!]".to_string()
        ]
    );
    assert!(prompt_labels(&vec![]).is_empty());
}

#[test]
fn connection_config_clones() {
    let c = ConnectionConfig::Testnet;
    assert!(matches!(c.clone(), ConnectionConfig::Testnet));
    assert!(matches!(ConnectionConfig::Mainnet.clone(), ConnectionConfig::Mainnet));
    assert!(matches!(ConnectionConfig::Betanet.clone(), ConnectionConfig::Betanet));
}

#[test]
fn error_messages() {
    assert_eq!(DeriveError::OnlyGroupTokens.message(), "Only option `TokenTree::Group` is needed");
    assert_eq!(
        DeriveError::OnlyStructsAndEnums.message(),
        "`#[derive(InteractiveClap)]` only supports structs and enums"
    );
    assert_eq!(
        DeriveError::LongVecMultipleOptNeedsVec.message(),
        "`long_vec_multiple_opt` attribute is only supposed to be used with `Vec` types"
    );
}

#[test]
fn camel_of_snake_of_camel() {
    for name in ["FieldName", "ABc", "A1B", "X"] {
        let snake = to_kebab_case(name.to_string()).replace('-', "_");
        assert_eq!(snake_case_to_camel_case(snake), name);
    }
}

#[derive(Debug, PartialEq)]
enum Wrapped {
    V(u8),
}

#[test]
fn results_are_passed_on_through_the_variant() {
    let done: ResultFromCli<u8, String> = ResultFromCli::Done(3);
    assert!(matches!(done.map_cli(Wrapped::V), ResultFromCli::Done(Wrapped::V(3))));
    let cancel: ResultFromCli<u8, String> = ResultFromCli::Cancel(Some(4));
    assert!(matches!(cancel.map_cli(Wrapped::V), ResultFromCli::Cancel(Some(Wrapped::V(4)))));
    let cancel_none: ResultFromCli<u8, String> = ResultFromCli::Cancel(None);
    assert!(matches!(cancel_none.map_cli(Wrapped::V), ResultFromCli::Cancel(None)));
    let back: ResultFromCli<u8, String> = ResultFromCli::Back;
    assert!(matches!(back.map_cli(Wrapped::V), ResultFromCli::Back));
    let failed: ResultFromCli<u8, String> = ResultFromCli::Failed(Some(5), "e".to_string());
    assert!(matches!(failed.map_cli(Wrapped::V), ResultFromCli::Failed(Some(Wrapped::V(5)), e) if e == "e"));
    let failed_none: ResultFromCli<u8, String> = ResultFromCli::Failed(None, "f".to_string());
    assert!(matches!(failed_none.map_cli(Wrapped::V), ResultFromCli::Failed(None, e) if e == "f"));
}
