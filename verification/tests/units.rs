use recipe_lang::ast::{AmountUnit, Decimal, TemperatureUnit, TimeUnit};
use recipe_lang::number::parse_decimal;
use recipe_lang::scan::Keyword;

#[test]
fn amount_unit_aliases() {
    assert_eq!(AmountUnit::from_word("g"), Some(AmountUnit::Grams));
    assert_eq!(AmountUnit::from_word("oz"), Some(AmountUnit::Ounces));
    assert_eq!(AmountUnit::from_word("cup"), Some(AmountUnit::Cups));
    assert_eq!(AmountUnit::from_word("cups"), Some(AmountUnit::Cups));
    assert_eq!(AmountUnit::from_word("tsp"), Some(AmountUnit::Teaspoons));
    assert_eq!(AmountUnit::from_word("tbsp"), Some(AmountUnit::Tablespoons));
}

#[test]
fn both_cup_aliases_give_the_same_variant() {
    assert_eq!(AmountUnit::from_word("cup"), AmountUnit::from_word("cups"));
}

#[test]
fn amount_unit_is_case_sensitive() {
    assert_eq!(AmountUnit::from_word("G"), None);
    assert_eq!(AmountUnit::from_word("Cup"), None);
    assert_eq!(AmountUnit::from_word("grams"), None);
    assert_eq!(AmountUnit::from_word(""), None);
}

#[test]
fn temperature_unit_aliases() {
    assert_eq!(TemperatureUnit::from_word("F"), Some(TemperatureUnit::Fahrenheit));
    assert_eq!(TemperatureUnit::from_word("C"), Some(TemperatureUnit::Celsius));
    assert_eq!(TemperatureUnit::from_word("f"), None);
    assert_eq!(TemperatureUnit::from_word("K"), None);
}

#[test]
fn time_unit_aliases() {
    assert_eq!(TimeUnit::from_word("s"), Some(TimeUnit::Seconds));
    assert_eq!(TimeUnit::from_word("min"), Some(TimeUnit::Minutes));
    assert_eq!(TimeUnit::from_word("mins"), Some(TimeUnit::Minutes));
    assert_eq!(TimeUnit::from_word("hr"), Some(TimeUnit::Hours));
    assert_eq!(TimeUnit::from_word("hrs"), Some(TimeUnit::Hours));
    assert_eq!(TimeUnit::from_word("h"), None);
    assert_eq!(TimeUnit::from_word("minutes"), None);
}

#[test]
fn keyword_table() {
    assert_eq!(Keyword::from_word("Ingredients"), Some(Keyword::Ingredients));
    assert_eq!(Keyword::from_word("Instructions"), Some(Keyword::Instructions));
    assert_eq!(Keyword::from_word("Combine"), Some(Keyword::Combine));
    assert_eq!(Keyword::from_word("Mix"), Some(Keyword::Mix));
    assert_eq!(Keyword::from_word("Cut"), Some(Keyword::Cut));
    assert_eq!(Keyword::from_word("into"), Some(Keyword::Into));
    assert_eq!(Keyword::from_word("Refridgerate"), Some(Keyword::Refridgerate));
    assert_eq!(Keyword::from_word("Bake"), Some(Keyword::Bake));
    assert_eq!(Keyword::from_word("Into"), None);
    assert_eq!(Keyword::from_word("mix"), None);
    assert_eq!(Keyword::from_word("bake"), None);
}

#[test]
fn decimal_literals() {
    assert_eq!(parse_decimal("2"), Some(Decimal { mantissa: 2, scale: 0 }));
    assert_eq!(parse_decimal("007"), Some(Decimal { mantissa: 7, scale: 0 }));
    assert_eq!(parse_decimal("1,234.56"), Some(Decimal { mantissa: 123456, scale: 2 }));
    assert_eq!(parse_decimal("2."), Some(Decimal { mantissa: 2, scale: 0 }));
    assert_eq!(parse_decimal("0.50"), Some(Decimal { mantissa: 50, scale: 2 }));
}

#[test]
fn invalid_decimal_literals() {
    assert_eq!(parse_decimal(""), None);
    assert_eq!(parse_decimal(","), None);
    assert_eq!(parse_decimal(".5"), None);
    assert_eq!(parse_decimal("1.2.3"), None);
    assert_eq!(parse_decimal("12x"), None);
    // One digit more than the u64 mantissa can hold.
    assert_eq!(parse_decimal("18446744073709551616"), None);
    // The largest mantissa that still fits.
    assert_eq!(
        parse_decimal("18446744073709551615"),
        Some(Decimal { mantissa: u64::MAX, scale: 0 })
    );
}
