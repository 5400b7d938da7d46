//! The data model of the recipe language: exact decimal quantities, the
//! closed unit vocabularies with their alias tables, ingredients, references,
//! instructions, and the `Recipe` produced by the parser.

use vstd::prelude::*;

use crate::text::str_eq;

verus! {

/// An exact decimal quantity: the value `mantissa / 10^scale`.
///
/// Numeric literals in recipe source are decimal digit runs (with optional
/// `,` grouping characters and at most one `.`), so every accepted literal
/// is represented exactly; a literal whose digits do not fit in a `u64`
/// mantissa is rejected by the scanner.
#[derive(Clone, Copy, Debug, PartialEq, Eq, Structural)]
pub struct Decimal {
    pub mantissa: u64,
    pub scale: usize,
}

/// The unit of an ingredient amount. `Units` is the implicit default when a
/// declared quantity carries no unit token; it has no surface spelling.
#[derive(Clone, Copy, Debug, PartialEq, Eq, Structural)]
pub enum AmountUnit {
    Grams,
    Ounces,
    Cups,
    Teaspoons,
    Tablespoons,
    Units,
}

/// The unit of a baking temperature.
#[derive(Clone, Copy, Debug, PartialEq, Eq, Structural)]
pub enum TemperatureUnit {
    Fahrenheit,
    Celsius,
}

/// The unit of a duration.
#[derive(Clone, Copy, Debug, PartialEq, Eq, Structural)]
pub enum TimeUnit {
    Seconds,
    Minutes,
    Hours,
}

/// The amount-unit alias table: the unit a surface token denotes, or `None`
/// for an unrecognized token. Matching is case-sensitive, and `Units` has no
/// spelling of its own.
pub open spec fn spec_amount_unit(w: Seq<char>) -> Option<AmountUnit> {
    if w == "g"@ {
        Some(AmountUnit::Grams)
    } else if w == "oz"@ {
        Some(AmountUnit::Ounces)
    } else if w == "cup"@ || w == "cups"@ {
        Some(AmountUnit::Cups)
    } else if w == "tsp"@ {
        Some(AmountUnit::Teaspoons)
    } else if w == "tbsp"@ {
        Some(AmountUnit::Tablespoons)
    } else {
        None
    }
}

/// The temperature-unit alias table.
pub open spec fn spec_temperature_unit(w: Seq<char>) -> Option<TemperatureUnit> {
    if w == "F"@ {
        Some(TemperatureUnit::Fahrenheit)
    } else if w == "C"@ {
        Some(TemperatureUnit::Celsius)
    } else {
        None
    }
}

/// The time-unit alias table.
pub open spec fn spec_time_unit(w: Seq<char>) -> Option<TimeUnit> {
    if w == "s"@ {
        Some(TimeUnit::Seconds)
    } else if w == "min"@ || w == "mins"@ {
        Some(TimeUnit::Minutes)
    } else if w == "hr"@ || w == "hrs"@ {
        Some(TimeUnit::Hours)
    } else {
        None
    }
}

impl AmountUnit {
    /// Resolve a surface token to an amount unit, by the alias table.
    pub fn from_word(w: &str) -> (r: Option<AmountUnit>)
        ensures
            r == spec_amount_unit(w@),
    {
        if str_eq(w, "g") {
            Some(AmountUnit::Grams)
        } else if str_eq(w, "oz") {
            Some(AmountUnit::Ounces)
        } else if str_eq(w, "cup") || str_eq(w, "cups") {
            Some(AmountUnit::Cups)
        } else if str_eq(w, "tsp") {
            Some(AmountUnit::Teaspoons)
        } else if str_eq(w, "tbsp") {
            Some(AmountUnit::Tablespoons)
        } else {
            None
        }
    }
}

impl TemperatureUnit {
    /// Resolve a surface token to a temperature unit, by the alias table.
    pub fn from_word(w: &str) -> (r: Option<TemperatureUnit>)
        ensures
            r == spec_temperature_unit(w@),
    {
        if str_eq(w, "F") {
            Some(TemperatureUnit::Fahrenheit)
        } else if str_eq(w, "C") {
            Some(TemperatureUnit::Celsius)
        } else {
            None
        }
    }
}

impl TimeUnit {
    /// Resolve a surface token to a time unit, by the alias table.
    pub fn from_word(w: &str) -> (r: Option<TimeUnit>)
        ensures
            r == spec_time_unit(w@),
    {
        if str_eq(w, "s") {
            Some(TimeUnit::Seconds)
        } else if str_eq(w, "min") || str_eq(w, "mins") {
            Some(TimeUnit::Minutes)
        } else if str_eq(w, "hr") || str_eq(w, "hrs") {
            Some(TimeUnit::Hours)
        } else {
            None
        }
    }
}

/// Both spellings of an alias pair denote the same unit variant: `cup` and
/// `cups` resolve to `Cups`, `min`/`mins` to `Minutes`, and `hr`/`hrs` to
/// `Hours`. Alias equivalence is total, not partial.
pub proof fn lemma_unit_alias_equivalence()
    ensures
        spec_amount_unit("cup"@) == Some(AmountUnit::Cups),
        spec_amount_unit("cup"@) == spec_amount_unit("cups"@),
        spec_time_unit("min"@) == Some(TimeUnit::Minutes),
        spec_time_unit("min"@) == spec_time_unit("mins"@),
        spec_time_unit("hr"@) == Some(TimeUnit::Hours),
        spec_time_unit("hr"@) == spec_time_unit("hrs"@),
{
    broadcast use vstd::string::group_string_axioms;

    reveal_strlit("g");
    reveal_strlit("oz");
    reveal_strlit("cup");
    reveal_strlit("cups");
    reveal_strlit("s");
    reveal_strlit("min");
    reveal_strlit("mins");
    reveal_strlit("hr");
    reveal_strlit("hrs");
    assert("g"@.len() == 1);
    assert("oz"@.len() == 2);
    assert("cup"@.len() == 3);
    assert("cups"@.len() == 4);
    assert("s"@.len() == 1);
    assert("min"@.len() == 3);
    assert("mins"@.len() == 4);
    assert("hr"@.len() == 2);
    assert("hrs"@.len() == 3);
    // `hrs` and `min` have the same length; they differ in their first
    // character.
    assert("hrs"@[0] == 'h');
    assert("min"@[0] == 'm');
    // `cup` and `tsp` have the same length too, but `cup` is matched by an
    // earlier branch of the alias table, so no further fact is needed.
}

/// A declared quantity: how much of an ingredient goes in.
#[derive(Clone, Copy, Debug, PartialEq, Eq, Structural)]
pub struct Amount {
    pub quantity: Decimal,
    pub unit: AmountUnit,
}

/// A baking temperature.
#[derive(Clone, Copy, Debug, PartialEq, Eq, Structural)]
pub struct Temperature {
    pub degrees: Decimal,
    pub unit: TemperatureUnit,
}

/// A duration.
#[derive(Clone, Copy, Debug, PartialEq, Eq, Structural)]
pub struct Time {
    pub duration: Decimal,
    pub unit: TimeUnit,
}

/// A declared ingredient: its name as written in the declaration, and its
/// amount. Identity for lookup purposes is the name compared caseless.
#[derive(Clone, Debug, PartialEq)]
pub struct Ingredient {
    pub name: String,
    pub amount: Amount,
}

/// The mathematical shape of an [`Ingredient`].
pub struct IngredientModel {
    pub name: Seq<char>,
    pub amount: Amount,
}

impl View for Ingredient {
    type V = IngredientModel;

    open spec fn view(&self) -> IngredientModel {
        IngredientModel { name: self.name@, amount: self.amount }
    }
}

impl DeepView for Ingredient {
    type V = IngredientModel;

    open spec fn deep_view(&self) -> IngredientModel {
        self@
    }
}

/// A resolved mention of an ingredient in an instruction: either the
/// reserved `result` sentinel — the dish as assembled so far — or the index
/// of a previously declared entry in the recipe's ingredient table.
#[derive(Clone, Copy, Debug, PartialEq, Eq, Structural)]
pub enum Reference {
    Result,
    Ingredient(usize),
}

/// One cooking action. `Mix` is surface syntax for `Combine` and collapses
/// to the same variant.
#[derive(Clone, Debug, PartialEq)]
pub enum Instruction {
    Combine { ingredients: Vec<Reference> },
    CutInto { source: Reference, destination: Reference },
    Refridgerate { ingredient: Reference, time: Time },
    Bake { ingredient: Reference, temperature: Temperature, time: Time },
}

/// The mathematical shape of an [`Instruction`].
pub enum InstructionModel {
    Combine { ingredients: Seq<Reference> },
    CutInto { source: Reference, destination: Reference },
    Refridgerate { ingredient: Reference, time: Time },
    Bake { ingredient: Reference, temperature: Temperature, time: Time },
}

impl View for Instruction {
    type V = InstructionModel;

    open spec fn view(&self) -> InstructionModel {
        match self {
            Instruction::Combine { ingredients } => InstructionModel::Combine {
                ingredients: ingredients@,
            },
            Instruction::CutInto { source, destination } => InstructionModel::CutInto {
                source: *source,
                destination: *destination,
            },
            Instruction::Refridgerate { ingredient, time } => InstructionModel::Refridgerate {
                ingredient: *ingredient,
                time: *time,
            },
            Instruction::Bake { ingredient, temperature, time } => InstructionModel::Bake {
                ingredient: *ingredient,
                temperature: *temperature,
                time: *time,
            },
        }
    }
}

impl DeepView for Instruction {
    type V = InstructionModel;

    open spec fn deep_view(&self) -> InstructionModel {
        self@
    }
}

/// A parsed recipe: the declared ingredient table and the ordered
/// instruction list. Every `Reference::Ingredient(i)` in the instructions
/// points at `ingredients[i]`. Constructed once by the parser from a
/// complete, valid token stream; immutable thereafter.
#[derive(Clone, Debug, PartialEq)]
pub struct Recipe {
    pub ingredients: Vec<Ingredient>,
    pub instructions: Vec<Instruction>,
}

/// The mathematical shape of a [`Recipe`].
pub struct RecipeModel {
    pub ingredients: Seq<IngredientModel>,
    pub instructions: Seq<InstructionModel>,
}

impl View for Recipe {
    type V = RecipeModel;

    open spec fn view(&self) -> RecipeModel {
        RecipeModel {
            ingredients: self.ingredients.deep_view(),
            instructions: self.instructions.deep_view(),
        }
    }
}

} // verus!
