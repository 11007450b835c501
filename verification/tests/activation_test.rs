use neural_network::activation::Activation;

#[test]
fn display_prints_the_variant_name() {
    assert_eq!(format!("{}", Activation::Sigmoid.to_string()), "Sigmoid");
}

#[test]
fn to_string_comes_from_the_display_implementation() {
    assert_eq!(Activation::Sigmoid.to_string(), "Sigmoid");
}

#[test]
fn from_str_parses_back_the_name_that_display_prints() {
    let printed = Activation::Sigmoid.to_string();

    let parsed: Activation = printed.parse().expect("Display output must parse back");

    assert!(parsed == Activation::Sigmoid);
}

#[test]
fn from_str_rejects_an_unknown_name_and_names_it_in_the_error() {
    let error = match "relu".parse::<Activation>() {
        Ok(_) => panic!("relu must not parse into an activation"),
        Err(message) => message,
    };

    assert!(error.contains("relu"), "got: {error}");
}

#[test]
fn from_str_is_case_sensitive() {
    assert!("sigmoid".parse::<Activation>().is_err());
    assert!("SIGMOID".parse::<Activation>().is_err());
}

#[test]
fn from_str_rejects_an_empty_name() {
    assert!("".parse::<Activation>().is_err());
}

#[test]
fn linear_prints_its_variant_name() {
    assert_eq!(Activation::Linear.to_string(), "Linear");
}

#[test]
fn the_printed_name_of_linear_is_refused_by_the_parser() {
    let printed = Activation::Linear.to_string();

    assert_eq!(
        Activation::parse(&printed),
        Err(String::from("unknown activation: Linear"))
    );
}

#[test]
fn the_parse_error_is_the_fixed_prefix_followed_by_the_text() {
    assert_eq!(
        Activation::parse("relu"),
        Err(String::from("unknown activation: relu"))
    );
    assert_eq!(Activation::parse(""), Err(String::from("unknown activation: ")));
}

#[test]
fn parse_accepts_exactly_the_sigmoid_name() {
    assert_eq!(Activation::parse("Sigmoid"), Ok(Activation::Sigmoid));
    assert!(Activation::parse("Sigmoid ").is_err());
    assert!(Activation::parse("Sigmoi").is_err());
}

#[test]
fn an_activation_is_copied_instead_of_being_moved() {
    let activation = Activation::Sigmoid;
    let copy = activation;

    assert!(activation == copy);
    assert_eq!(activation.to_string(), copy.to_string());
}
