use recipe_lang::ast::{
    Amount, AmountUnit, Decimal, Ingredient, Instruction, Recipe, Reference, Temperature,
    TemperatureUnit, Time, TimeUnit,
};
use recipe_lang::parse::{Expectation, ParseError, Parser};
use recipe_lang::scan::{Keyword, Scanner, Token};
use recipe_lang::{interpret, InterpretError};

fn dec(mantissa: u64, scale: usize) -> Decimal {
    Decimal { mantissa, scale }
}

fn ingredient(name: &str, quantity: Decimal, unit: AmountUnit) -> Ingredient {
    Ingredient { name: String::from(name), amount: Amount { quantity, unit } }
}

fn parse_text(text: &str) -> Result<Recipe, InterpretError> {
    interpret(String::from(text))
}

fn parse_err(text: &str) -> ParseError {
    match parse_text(text) {
        Err(InterpretError::Parse(e)) => e,
        other => panic!("expected a parse error, got {:?}", other),
    }
}

#[test]
fn end_to_end_example() {
    let source = "Ingredients:\n\
                  flour: 2 cups\n\
                  egg: 3\n\
                  \n\
                  Instructions:\n\
                  Combine flour, egg\n\
                  Bake result 350 F 45 min";
    let recipe = parse_text(source).unwrap();
    assert_eq!(
        recipe,
        Recipe {
            ingredients: vec![
                ingredient("flour", dec(2, 0), AmountUnit::Cups),
                ingredient("egg", dec(3, 0), AmountUnit::Units),
            ],
            instructions: vec![
                Instruction::Combine {
                    ingredients: vec![Reference::Ingredient(0), Reference::Ingredient(1)],
                },
                Instruction::Bake {
                    ingredient: Reference::Result,
                    temperature: Temperature {
                        degrees: dec(350, 0),
                        unit: TemperatureUnit::Fahrenheit,
                    },
                    time: Time { duration: dec(45, 0), unit: TimeUnit::Minutes },
                },
            ],
        }
    );
}

#[test]
fn undeclared_reference_fails_naming_the_identifier() {
    let source = "Ingredients:\n\
                  flour: 2 cups\n\
                  \n\
                  Instructions:\n\
                  Bake butter 350 F 45 min";
    let err = parse_err(source);
    assert_eq!(err, ParseError::UnknownIdentifier { name: String::from("butter") });
}

#[test]
fn declaration_without_unit_defaults_to_units() {
    let recipe = parse_text("Ingredients:\negg: 3\nInstructions:").unwrap();
    assert_eq!(recipe.ingredients, vec![ingredient("egg", dec(3, 0), AmountUnit::Units)]);
}

#[test]
fn cup_and_cups_parse_to_the_same_unit() {
    let one = parse_text("Ingredients:\nflour: 2 cup\nInstructions:").unwrap();
    let other = parse_text("Ingredients:\nflour: 2 cups\nInstructions:").unwrap();
    assert_eq!(one, other);
    assert_eq!(one.ingredients[0].amount.unit, AmountUnit::Cups);
}

#[test]
fn mix_and_combine_parse_to_identical_nodes() {
    let header = "Ingredients:\na: 1\nb: 2\n\nInstructions:\n";
    let mixed = parse_text(&format!("{}Mix a, b", header)).unwrap();
    let combined = parse_text(&format!("{}Combine a, b", header)).unwrap();
    assert_eq!(mixed, combined);
    assert_eq!(
        mixed.instructions,
        vec![Instruction::Combine {
            ingredients: vec![Reference::Ingredient(0), Reference::Ingredient(1)],
        }]
    );
}

#[test]
fn reference_resolution_is_case_insensitive() {
    let recipe = parse_text("Ingredients:\nEgg Yolk: 2\n\nInstructions:\nMix egg yolk").unwrap();
    assert_eq!(
        recipe.instructions,
        vec![Instruction::Combine { ingredients: vec![Reference::Ingredient(0)] }]
    );
}

#[test]
fn result_sentinel_wins_over_an_ingredient_named_result() {
    let recipe = parse_text("Ingredients:\nResult: 1\n\nInstructions:\nMix result").unwrap();
    assert_eq!(
        recipe.instructions,
        vec![Instruction::Combine { ingredients: vec![Reference::Result] }]
    );
    // The declaration itself still sits in the table.
    assert_eq!(recipe.ingredients, vec![ingredient("Result", dec(1, 0), AmountUnit::Units)]);
}

#[test]
fn result_needs_no_declaration() {
    let recipe = parse_text("Ingredients:\n\nInstructions:\nMix result, RESULT").unwrap();
    assert_eq!(
        recipe.instructions,
        vec![Instruction::Combine { ingredients: vec![Reference::Result, Reference::Result] }]
    );
}

#[test]
fn duplicate_declaration_is_rejected_caseless() {
    let err = parse_err("Ingredients:\negg: 1\nEGG: 2\nInstructions:");
    assert_eq!(err, ParseError::DuplicateIngredient { name: String::from("EGG") });
}

#[test]
fn cut_into_builds_source_and_destination() {
    let recipe =
        parse_text("Ingredients:\ndough: 1\n\nInstructions:\nCut dough into result").unwrap();
    assert_eq!(
        recipe.instructions,
        vec![Instruction::CutInto {
            source: Reference::Ingredient(0),
            destination: Reference::Result,
        }]
    );
}

#[test]
fn refridgerate_takes_one_time_pair() {
    let recipe = parse_text("Ingredients:\nmilk: 1\n\nInstructions:\nRefridgerate milk 3 hrs")
        .unwrap();
    assert_eq!(
        recipe.instructions,
        vec![Instruction::Refridgerate {
            ingredient: Reference::Ingredient(0),
            time: Time { duration: dec(3, 0), unit: TimeUnit::Hours },
        }]
    );
}

#[test]
fn unknown_amount_unit_is_a_unit_parse_error() {
    let err = parse_err("Ingredients:\nflour: 2 zz\nInstructions:");
    assert_eq!(err, ParseError::UnitParseError { raw: String::from("zz") });
}

#[test]
fn unknown_temperature_unit_is_a_unit_parse_error() {
    let err = parse_err("Ingredients:\n\nInstructions:\nBake result 350 K 45 min");
    assert_eq!(err, ParseError::UnitParseError { raw: String::from("K") });
}

#[test]
fn unknown_time_unit_is_a_unit_parse_error() {
    let err = parse_err("Ingredients:\n\nInstructions:\nRefridgerate result 3 weeks");
    assert_eq!(err, ParseError::UnitParseError { raw: String::from("weeks") });
}

#[test]
fn missing_header_is_an_unexpected_token() {
    let err = parse_err("flour: 2");
    assert_eq!(
        err,
        ParseError::UnexpectedToken {
            expected: Expectation::Exact(Token::Keyword(Keyword::Ingredients)),
            actual: Token::Identifier(String::from("flour")),
        }
    );
}

#[test]
fn empty_input_is_an_unexpected_end() {
    let err = parse_err("");
    assert_eq!(
        err,
        ParseError::UnexpectedEndOfInput {
            expected: Expectation::Exact(Token::Keyword(Keyword::Ingredients)),
        }
    );
}

#[test]
fn a_sigil_cannot_start_an_instruction() {
    let err = parse_err("Ingredients:\n\nInstructions:\nIngredients flour");
    assert_eq!(
        err,
        ParseError::UnexpectedToken {
            expected: Expectation::Instruction,
            actual: Token::Keyword(Keyword::Ingredients),
        }
    );
}

#[test]
fn a_bare_into_cannot_start_an_instruction() {
    let err = parse_err("Ingredients:\n\nInstructions:\ninto result");
    assert_eq!(
        err,
        ParseError::UnexpectedToken {
            expected: Expectation::Instruction,
            actual: Token::Keyword(Keyword::Into),
        }
    );
}

#[test]
fn reference_list_rejects_a_stray_token() {
    let err = parse_err("Ingredients:\na: 1\n\nInstructions:\nMix a: 2");
    assert_eq!(
        err,
        ParseError::UnexpectedToken {
            expected: Expectation::CommaOrSeparator,
            actual: Token::Colon,
        }
    );
}

#[test]
fn reference_list_at_end_of_input_needs_a_separator_or_more() {
    let err = parse_err("Ingredients:\na: 1\n\nInstructions:\nMix a, ");
    assert_eq!(
        err,
        ParseError::UnexpectedEndOfInput { expected: Expectation::AnyIdentifier }
    );
}

#[test]
fn instructions_may_end_without_a_trailing_separator() {
    let recipe = parse_text("Ingredients:\na: 1\n\nInstructions:\nMix a").unwrap();
    assert_eq!(recipe.instructions.len(), 1);
}

#[test]
fn instructions_section_may_be_empty() {
    let recipe = parse_text("Ingredients:\na: 1\nInstructions:").unwrap();
    assert_eq!(recipe.instructions, Vec::new());
    assert_eq!(recipe.ingredients, vec![ingredient("a", dec(1, 0), AmountUnit::Units)]);
}

#[test]
fn parser_can_be_driven_from_tokens_directly() {
    let tokens = Scanner::new("Ingredients:\nsalt: 1 tsp\nInstructions:").scan().unwrap();
    let recipe = Parser::new(tokens).parse().unwrap();
    assert_eq!(recipe.ingredients, vec![ingredient("salt", dec(1, 0), AmountUnit::Teaspoons)]);
}

#[test]
fn forward_references_are_rejected() {
    // `b` is declared only after the instruction section begins — too late
    // for any instruction to use it; and here it is not declared at all.
    let err = parse_err("Ingredients:\na: 1\n\nInstructions:\nMix a, b");
    assert_eq!(err, ParseError::UnknownIdentifier { name: String::from("b") });
}

#[test]
fn multi_word_ingredient_names_work_end_to_end() {
    let recipe = parse_text(
        "Ingredients:\nolive oil: 2 tbsp\n\nInstructions:\nCombine olive oil, result",
    )
    .unwrap();
    assert_eq!(
        recipe.ingredients,
        vec![ingredient("olive oil", dec(2, 0), AmountUnit::Tablespoons)]
    );
    assert_eq!(
        recipe.instructions,
        vec![Instruction::Combine {
            ingredients: vec![Reference::Ingredient(0), Reference::Result],
        }]
    );
}

#[test]
fn a_scan_error_reaches_the_caller() {
    let source = "Ingredients:\nflour: 2 cups\n$";
    match interpret(String::from(source)) {
        Err(InterpretError::Scan(e)) => {
            assert_eq!(e.line, 3);
            assert_eq!(e.column, 1);
            assert_eq!(e.source_line, "$");
        }
        other => panic!("expected a scan error, got {:?}", other),
    }
}

#[test]
fn no_recipe_comes_out_of_a_failing_parse() {
    // The whole parse aborts on the first failure; the well-formed prefix
    // does not yield a partial recipe.
    assert!(parse_text("Ingredients:\na: 1\n\nInstructions:\nMix a\nMix b").is_err());
}
