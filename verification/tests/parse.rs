use rust_options::error::PricerError;
use rust_options::parse::{parse_exercise_style, parse_option_type};
use rust_options::types::{ExerciseStyle, OptionType};

#[test]
fn option_type_names() {
    assert_eq!(parse_option_type("call").unwrap(), OptionType::Call);
    assert_eq!(parse_option_type("put").unwrap(), OptionType::Put);
    assert_eq!(parse_option_type("CALL").unwrap(), OptionType::Call);
    assert_eq!(parse_option_type("Put").unwrap(), OptionType::Put);
    assert_eq!(parse_option_type("pUT").unwrap(), OptionType::Put);
}

#[test]
fn option_type_rejects_others() {
    for bad in ["", "calls", " call", "puts", "c", "option", "cäll"] {
        match parse_option_type(bad) {
            Err(PricerError::InvalidInput(m)) => assert_eq!(
                m,
                format!("invalid option type: '{}' (expected 'call' or 'put')", bad)
            ),
            other => panic!("unexpected {:?}", other),
        }
    }
}

#[test]
fn exercise_style_names() {
    assert_eq!(parse_exercise_style("european").unwrap(), ExerciseStyle::European);
    assert_eq!(parse_exercise_style("AMERICAN").unwrap(), ExerciseStyle::American);
    assert_eq!(parse_exercise_style("European").unwrap(), ExerciseStyle::European);
    assert_eq!(parse_exercise_style("aMeRiCaN").unwrap(), ExerciseStyle::American);
}

#[test]
fn exercise_style_rejects_others() {
    for bad in ["", "euro", "bermudan", "americans", "call"] {
        match parse_exercise_style(bad) {
            Err(PricerError::InvalidInput(m)) => assert_eq!(
                m,
                format!("invalid exercise style: '{}' (expected 'european' or 'american')", bad)
            ),
            other => panic!("unexpected {:?}", other),
        }
    }
}

#[test]
fn case_folding_agrees_with_to_lowercase() {
    for s in ["CALL", "Call", "PUT", "EUROPEAN", "American", "ÇALL", "PUTS", "\u{212A}"] {
        let folded = s.to_lowercase();
        assert_eq!(parse_option_type(s).is_ok(), folded == "call" || folded == "put");
        assert_eq!(
            parse_exercise_style(s).is_ok(),
            folded == "european" || folded == "american"
        );
    }
}
