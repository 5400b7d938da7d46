//! Recursive-descent parsing: turning the token sequence into a `Recipe`.
//!
//! The parser consumes the tokens exactly once, left to right, with one
//! token of lookahead. Ingredient declarations build the mise en place —
//! the table of declared ingredients, keyed caseless — and every ingredient
//! mention in an instruction is resolved against that table, or against the
//! reserved `result` sentinel, which always takes priority. The first
//! failure aborts parsing.

use vstd::prelude::*;

use crate::ast::{
    spec_amount_unit, spec_temperature_unit, spec_time_unit, Amount, AmountUnit, Decimal,
    Ingredient, IngredientModel, Instruction, InstructionModel, Recipe, RecipeModel, Reference,
    Temperature, TemperatureUnit, Time, TimeUnit,
};
use crate::caseless::{eq_fold, fold_of};
use crate::scan::{Keyword, Token, TokenModel};

verus! {

/// What the parser was looking for when it met the wrong token, or the end
/// of the input.
#[derive(Clone, Debug, PartialEq)]
pub enum Expectation {
    /// One specific token.
    Exact(Token),
    /// Any identifier token.
    AnyIdentifier,
    /// Any keyword token.
    AnyKeyword,
    /// Any number token.
    AnyNumber,
    /// A list continuation: `,` or a statement separator.
    CommaOrSeparator,
    /// A keyword that starts an instruction.
    Instruction,
}

/// The mathematical shape of an [`Expectation`].
pub enum ExpectationModel {
    Exact(TokenModel),
    AnyIdentifier,
    AnyKeyword,
    AnyNumber,
    CommaOrSeparator,
    Instruction,
}

impl View for Expectation {
    type V = ExpectationModel;

    open spec fn view(&self) -> ExpectationModel {
        match self {
            Expectation::Exact(t) => ExpectationModel::Exact(t@),
            Expectation::AnyIdentifier => ExpectationModel::AnyIdentifier,
            Expectation::AnyKeyword => ExpectationModel::AnyKeyword,
            Expectation::AnyNumber => ExpectationModel::AnyNumber,
            Expectation::CommaOrSeparator => ExpectationModel::CommaOrSeparator,
            Expectation::Instruction => ExpectationModel::Instruction,
        }
    }
}

/// A grammatical or semantic parse failure. The first one aborts parsing;
/// no partial `Recipe` is ever produced.
#[derive(Clone, Debug, PartialEq)]
pub enum ParseError {
    /// The next token was not what the grammar called for.
    UnexpectedToken { expected: Expectation, actual: Token },
    /// The input ended where the grammar called for another token.
    UnexpectedEndOfInput { expected: Expectation },
    /// An ingredient mention that is neither `result` nor a declared name.
    UnknownIdentifier { name: String },
    /// A second declaration of an already declared (caseless) name.
    DuplicateIngredient { name: String },
    /// A word where a unit token was expected, but in no alias table.
    UnitParseError { raw: String },
}

/// The mathematical shape of a [`ParseError`].
pub enum ParseErrorModel {
    UnexpectedToken { expected: ExpectationModel, actual: TokenModel },
    UnexpectedEndOfInput { expected: ExpectationModel },
    UnknownIdentifier { name: Seq<char> },
    DuplicateIngredient { name: Seq<char> },
    UnitParseError { raw: Seq<char> },
}

impl View for ParseError {
    type V = ParseErrorModel;

    open spec fn view(&self) -> ParseErrorModel {
        match self {
            ParseError::UnexpectedToken { expected, actual } => ParseErrorModel::UnexpectedToken {
                expected: expected@,
                actual: actual@,
            },
            ParseError::UnexpectedEndOfInput { expected } => ParseErrorModel::UnexpectedEndOfInput {
                expected: expected@,
            },
            ParseError::UnknownIdentifier { name } => ParseErrorModel::UnknownIdentifier {
                name: name@,
            },
            ParseError::DuplicateIngredient { name } => ParseErrorModel::DuplicateIngredient {
                name: name@,
            },
            ParseError::UnitParseError { raw } => ParseErrorModel::UnitParseError { raw: raw@ },
        }
    }
}

/// The index of the first table entry whose name is caseless-equal to
/// `name`, if any.
pub open spec fn spec_lookup(table: Seq<IngredientModel>, name: Seq<char>) -> Option<int>
    decreases table.len(),
{
    if table.len() == 0 {
        None
    } else if fold_of(table[0].name) == fold_of(name) {
        Some(0)
    } else {
        match spec_lookup(table.skip(1), name) {
            Some(i) => Some(i + 1),
            None => None,
        }
    }
}

pub proof fn lemma_lookup_in_range(table: Seq<IngredientModel>, name: Seq<char>)
    ensures
        spec_lookup(table, name) matches Some(i) ==> 0 <= i < table.len(),
    decreases table.len(),
{
    if table.len() != 0 && fold_of(table[0].name) != fold_of(name) {
        lemma_lookup_in_range(table.skip(1), name);
    }
}

/// Resolve an ingredient mention: the literal text `result` (caseless)
/// always denotes the sentinel, whatever the table holds; any other name
/// must be caseless-equal to a declared ingredient, and resolves to the
/// first such entry; otherwise resolution fails, naming the identifier.
pub open spec fn spec_resolve(table: Seq<IngredientModel>, name: Seq<char>) -> Result<
    Reference,
    ParseErrorModel,
> {
    if fold_of(name) == fold_of("result"@) {
        Ok(Reference::Result)
    } else {
        match spec_lookup(table, name) {
            Some(i) => Ok(Reference::Ingredient(i as usize)),
            None => Err(ParseErrorModel::UnknownIdentifier { name }),
        }
    }
}

/// One specific token must come next.
pub open spec fn spec_expect(toks: Seq<TokenModel>, pos: int, expected: TokenModel) -> Result<
    int,
    ParseErrorModel,
>
    recommends
        0 <= pos,
{
    if pos >= toks.len() {
        Err(
            ParseErrorModel::UnexpectedEndOfInput { expected: ExpectationModel::Exact(expected) },
        )
    } else if toks[pos] == expected {
        Ok(pos + 1)
    } else {
        Err(
            ParseErrorModel::UnexpectedToken {
                expected: ExpectationModel::Exact(expected),
                actual: toks[pos],
            },
        )
    }
}

/// An identifier token must come next; its text is the result.
pub open spec fn spec_expect_identifier(toks: Seq<TokenModel>, pos: int) -> Result<
    (Seq<char>, int),
    ParseErrorModel,
>
    recommends
        0 <= pos,
{
    if pos >= toks.len() {
        Err(
            ParseErrorModel::UnexpectedEndOfInput { expected: ExpectationModel::AnyIdentifier },
        )
    } else {
        match toks[pos] {
            TokenModel::Identifier(s) => Ok((s, pos + 1)),
            t => Err(
                ParseErrorModel::UnexpectedToken {
                    expected: ExpectationModel::AnyIdentifier,
                    actual: t,
                },
            ),
        }
    }
}

/// A keyword token must come next.
pub open spec fn spec_expect_keyword(toks: Seq<TokenModel>, pos: int) -> Result<
    (Keyword, int),
    ParseErrorModel,
>
    recommends
        0 <= pos,
{
    if pos >= toks.len() {
        Err(ParseErrorModel::UnexpectedEndOfInput { expected: ExpectationModel::AnyKeyword })
    } else {
        match toks[pos] {
            TokenModel::Keyword(k) => Ok((k, pos + 1)),
            t => Err(
                ParseErrorModel::UnexpectedToken {
                    expected: ExpectationModel::AnyKeyword,
                    actual: t,
                },
            ),
        }
    }
}

/// A number token must come next.
pub open spec fn spec_expect_number(toks: Seq<TokenModel>, pos: int) -> Result<
    (Decimal, int),
    ParseErrorModel,
>
    recommends
        0 <= pos,
{
    if pos >= toks.len() {
        Err(ParseErrorModel::UnexpectedEndOfInput { expected: ExpectationModel::AnyNumber })
    } else {
        match toks[pos] {
            TokenModel::Number(d) => Ok((d, pos + 1)),
            t => Err(
                ParseErrorModel::UnexpectedToken {
                    expected: ExpectationModel::AnyNumber,
                    actual: t,
                },
            ),
        }
    }
}

/// One ingredient declaration: `name ":" number [unit]`. A declaration whose
/// quantity is directly followed by a statement separator carries no unit
/// token and defaults to `Units`; otherwise the next token must be an
/// identifier naming an amount unit. The returned position points at the
/// separator.
pub open spec fn spec_parse_ingredient(toks: Seq<TokenModel>, pos: int) -> Result<
    ((Seq<char>, Amount), int),
    ParseErrorModel,
>
    recommends
        0 <= pos,
{
    match spec_expect_identifier(toks, pos) {
        Err(e) => Err(e),
        Ok((name, p1)) => match spec_expect(toks, p1, TokenModel::Colon) {
            Err(e) => Err(e),
            Ok(p2) => match spec_expect_number(toks, p2) {
                Err(e) => Err(e),
                Ok((quantity, p3)) => {
                    if p3 < toks.len() && toks[p3] == TokenModel::Newline {
                        Ok(((name, Amount { quantity, unit: AmountUnit::Units }), p3))
                    } else {
                        match spec_expect_identifier(toks, p3) {
                            Err(e) => Err(e),
                            Ok((u, p4)) => match spec_amount_unit(u) {
                                Some(unit) => Ok(((name, Amount { quantity, unit }), p4)),
                                None => Err(ParseErrorModel::UnitParseError { raw: u }),
                            },
                        }
                    }
                },
            },
        },
    }
}

/// The ingredient-declaration loop: declarations are parsed and added to
/// the table until the `Instructions` keyword is sighted. A declaration
/// whose name is already declared (caseless) is rejected as a duplicate.
/// The returned position points at the `Instructions` keyword.
pub open spec fn spec_ingredients_loop(
    toks: Seq<TokenModel>,
    pos: int,
    table: Seq<IngredientModel>,
) -> Result<(Seq<IngredientModel>, int), ParseErrorModel>
    decreases toks.len() - pos,
    when 0 <= pos <= toks.len()
{
    if pos >= toks.len() {
        // Lookahead sees no `Instructions` keyword, so a declaration is
        // attempted, and fails at its leading identifier.
        Err(ParseErrorModel::UnexpectedEndOfInput { expected: ExpectationModel::AnyIdentifier })
    } else if toks[pos] == TokenModel::Keyword(Keyword::Instructions) {
        Ok((table, pos))
    } else {
        match spec_parse_ingredient(toks, pos) {
            Err(e) => Err(e),
            Ok(((name, amount), p1)) => match spec_expect(toks, p1, TokenModel::Newline) {
                Err(e) => Err(e),
                Ok(p2) => {
                    if spec_lookup(table, name) is Some {
                        Err(ParseErrorModel::DuplicateIngredient { name })
                    } else {
                        spec_ingredients_loop(toks, p2, table.push(IngredientModel { name, amount }))
                    }
                },
            },
        }
    }
}

/// The `Ingredients` section: the `Ingredients ":" NL` header, then the
/// declaration loop.
pub open spec fn spec_ingredients_section(
    toks: Seq<TokenModel>,
    pos: int,
    table: Seq<IngredientModel>,
) -> Result<(Seq<IngredientModel>, int), ParseErrorModel>
    recommends
        0 <= pos,
{
    match spec_expect(toks, pos, TokenModel::Keyword(Keyword::Ingredients)) {
        Err(e) => Err(e),
        Ok(p1) => match spec_expect(toks, p1, TokenModel::Colon) {
            Err(e) => Err(e),
            Ok(p2) => match spec_expect(toks, p2, TokenModel::Newline) {
                Err(e) => Err(e),
                Ok(p3) => spec_ingredients_loop(toks, p3, table),
            },
        },
    }
}

/// One ingredient mention: an identifier, resolved against the table or the
/// `result` sentinel.
pub open spec fn spec_reference(
    toks: Seq<TokenModel>,
    pos: int,
    table: Seq<IngredientModel>,
) -> Result<(Reference, int), ParseErrorModel>
    recommends
        0 <= pos,
{
    match spec_expect_identifier(toks, pos) {
        Err(e) => Err(e),
        Ok((name, p1)) => match spec_resolve(table, name) {
            Ok(r) => Ok((r, p1)),
            Err(e) => Err(e),
        },
    }
}

/// A nonempty, comma-separated list of references, ended by a statement
/// separator — whose position is returned — or by the end of the input,
/// which is itself a terminator. Any other token after a reference is an
/// error.
pub open spec fn spec_reference_list(
    toks: Seq<TokenModel>,
    pos: int,
    table: Seq<IngredientModel>,
    acc: Seq<Reference>,
) -> Result<(Seq<Reference>, int), ParseErrorModel>
    decreases toks.len() - pos,
    when 0 <= pos <= toks.len()
{
    match spec_reference(toks, pos, table) {
        Err(e) => Err(e),
        Ok((r, p1)) => {
            let acc2 = acc.push(r);
            if p1 >= toks.len() {
                Ok((acc2, p1))
            } else if toks[p1] == TokenModel::Newline {
                Ok((acc2, p1))
            } else if toks[p1] == TokenModel::Comma {
                spec_reference_list(toks, p1 + 1, table, acc2)
            } else {
                Err(
                    ParseErrorModel::UnexpectedToken {
                        expected: ExpectationModel::CommaOrSeparator,
                        actual: toks[p1],
                    },
                )
            }
        },
    }
}

/// The body of one instruction, after its leading keyword `k`. `Combine`
/// and `Mix` are synonyms and build the same node; the section sigils and a
/// bare `into` cannot start an instruction.
pub open spec fn spec_instruction_with(
    k: Keyword,
    toks: Seq<TokenModel>,
    pos: int,
    table: Seq<IngredientModel>,
) -> Result<(InstructionModel, int), ParseErrorModel>
    recommends
        0 <= pos,
{
    match k {
        Keyword::Ingredients | Keyword::Instructions | Keyword::Into => Err(
            ParseErrorModel::UnexpectedToken {
                expected: ExpectationModel::Instruction,
                actual: TokenModel::Keyword(k),
            },
        ),
        Keyword::Combine | Keyword::Mix => match spec_reference_list(
            toks,
            pos,
            table,
            Seq::empty(),
        ) {
            Err(e) => Err(e),
            Ok((refs, p)) => Ok((InstructionModel::Combine { ingredients: refs }, p)),
        },
        Keyword::Cut => match spec_reference(toks, pos, table) {
            Err(e) => Err(e),
            Ok((source, p1)) => match spec_expect(toks, p1, TokenModel::Keyword(Keyword::Into)) {
                Err(e) => Err(e),
                Ok(p2) => match spec_reference(toks, p2, table) {
                    Err(e) => Err(e),
                    Ok((destination, p3)) => Ok(
                        (InstructionModel::CutInto { source, destination }, p3),
                    ),
                },
            },
        },
        Keyword::Refridgerate => match spec_reference(toks, pos, table) {
            Err(e) => Err(e),
            Ok((ingredient, p1)) => match spec_expect_number(toks, p1) {
                Err(e) => Err(e),
                Ok((duration, p2)) => match spec_expect_identifier(toks, p2) {
                    Err(e) => Err(e),
                    Ok((u, p3)) => match spec_time_unit(u) {
                        Some(unit) => Ok(
                            (
                                InstructionModel::Refridgerate {
                                    ingredient,
                                    time: Time { duration, unit },
                                },
                                p3,
                            ),
                        ),
                        None => Err(ParseErrorModel::UnitParseError { raw: u }),
                    },
                },
            },
        },
        Keyword::Bake => match spec_reference(toks, pos, table) {
            Err(e) => Err(e),
            Ok((ingredient, p1)) => match spec_expect_number(toks, p1) {
                Err(e) => Err(e),
                Ok((degrees, p2)) => match spec_expect_identifier(toks, p2) {
                    Err(e) => Err(e),
                    Ok((tu, p3)) => match spec_temperature_unit(tu) {
                        None => Err(ParseErrorModel::UnitParseError { raw: tu }),
                        Some(temperature_unit) => match spec_expect_number(toks, p3) {
                            Err(e) => Err(e),
                            Ok((duration, p4)) => match spec_expect_identifier(toks, p4) {
                                Err(e) => Err(e),
                                Ok((du, p5)) => match spec_time_unit(du) {
                                    None => Err(ParseErrorModel::UnitParseError { raw: du }),
                                    Some(time_unit) => Ok(
                                        (
                                            InstructionModel::Bake {
                                                ingredient,
                                                temperature: Temperature {
                                                    degrees,
                                                    unit: temperature_unit,
                                                },
                                                time: Time { duration, unit: time_unit },
                                            },
                                            p5,
                                        ),
                                    ),
                                },
                            },
                        },
                    },
                },
            },
        },
    }
}

/// One instruction: a keyword, then its body.
pub open spec fn spec_parse_instruction(
    toks: Seq<TokenModel>,
    pos: int,
    table: Seq<IngredientModel>,
) -> Result<(InstructionModel, int), ParseErrorModel>
    recommends
        0 <= pos,
{
    match spec_expect_keyword(toks, pos) {
        Err(e) => Err(e),
        Ok((k, p1)) => spec_instruction_with(k, toks, p1, table),
    }
}

pub proof fn lemma_reference_list_advances(
    toks: Seq<TokenModel>,
    pos: int,
    table: Seq<IngredientModel>,
    acc: Seq<Reference>,
)
    requires
        0 <= pos <= toks.len(),
    ensures
        spec_reference_list(toks, pos, table, acc) matches Ok((r, p)) ==> pos < p <= toks.len(),
    decreases toks.len() - pos,
{
    match spec_reference(toks, pos, table) {
        Ok((r, p1)) => {
            if p1 < toks.len() && toks[p1] == TokenModel::Comma {
                lemma_reference_list_advances(toks, p1 + 1, table, acc.push(r));
            }
        },
        Err(_) => {},
    }
}

pub proof fn lemma_parse_instruction_advances(
    toks: Seq<TokenModel>,
    pos: int,
    table: Seq<IngredientModel>,
)
    requires
        0 <= pos,
    ensures
        spec_parse_instruction(toks, pos, table) matches Ok((i, p)) ==> pos < p <= toks.len(),
{
    match spec_expect_keyword(toks, pos) {
        Ok((k, p1)) => {
            if k == Keyword::Combine || k == Keyword::Mix {
                lemma_reference_list_advances(toks, p1, table, Seq::empty());
            }
        },
        Err(_) => {},
    }
}

/// The instruction loop: a separator, then an instruction, until the token
/// stream is exhausted. A missing trailing separator at the very end is not
/// an error: end of input terminates the loop.
pub open spec fn spec_instructions_loop(
    toks: Seq<TokenModel>,
    pos: int,
    table: Seq<IngredientModel>,
    acc: Seq<InstructionModel>,
) -> Result<(Seq<InstructionModel>, int), ParseErrorModel>
    decreases toks.len() - pos,
    when 0 <= pos <= toks.len()
    via spec_instructions_loop_decreases
{
    if pos >= toks.len() {
        Ok((acc, pos))
    } else {
        match spec_expect(toks, pos, TokenModel::Newline) {
            Err(e) => Err(e),
            Ok(p1) => match spec_parse_instruction(toks, p1, table) {
                Err(e) => Err(e),
                Ok((inst, p2)) => spec_instructions_loop(toks, p2, table, acc.push(inst)),
            },
        }
    }
}

#[via_fn]
proof fn spec_instructions_loop_decreases(
    toks: Seq<TokenModel>,
    pos: int,
    table: Seq<IngredientModel>,
    acc: Seq<InstructionModel>,
) {
    if 0 <= pos < toks.len() {
        lemma_parse_instruction_advances(toks, pos + 1, table);
    }
}

/// The `Instructions` section: the `Instructions ":"` header, then the
/// instruction loop.
pub open spec fn spec_instructions_section(
    toks: Seq<TokenModel>,
    pos: int,
    table: Seq<IngredientModel>,
) -> Result<(Seq<InstructionModel>, int), ParseErrorModel>
    recommends
        0 <= pos,
{
    match spec_expect(toks, pos, TokenModel::Keyword(Keyword::Instructions)) {
        Err(e) => Err(e),
        Ok(p1) => match spec_expect(toks, p1, TokenModel::Colon) {
            Err(e) => Err(e),
            Ok(p2) => spec_instructions_loop(toks, p2, table, Seq::empty()),
        },
    }
}

/// What parsing a token sequence yields: the recipe — the declared
/// ingredient table and the instruction list, every mention resolved — or
/// the first parse error.
pub open spec fn spec_parse(toks: Seq<TokenModel>) -> Result<RecipeModel, ParseErrorModel> {
    match spec_ingredients_section(toks, 0, Seq::empty()) {
        Err(e) => Err(e),
        Ok((table, p1)) => match spec_instructions_section(toks, p1, table) {
            Err(e) => Err(e),
            Ok((instructions, p2)) => Ok(RecipeModel { ingredients: table, instructions }),
        },
    }
}

/// The index of the first declared ingredient whose name is caseless-equal
/// to `name`, if any.
fn lookup(table: &Vec<Ingredient>, name: &str) -> (r: Option<usize>)
    ensures
        match spec_lookup(table.deep_view(), name@) {
            Some(i) => r == Some(i as usize),
            None => r is None,
        },
{
    proof {
        assert(table.deep_view().skip(0) =~= table.deep_view());
        lemma_lookup_in_range(table.deep_view(), name@);
    }
    let ghost dv = table.deep_view();
    let mut i: usize = 0;
    while i < table.len()
        invariant
            i <= table.len(),
            dv == table.deep_view(),
            dv.len() == table.len(),
            match spec_lookup(dv, name@) {
                Some(j) => match spec_lookup(dv.skip(i as int), name@) {
                    Some(j2) => j == i + j2,
                    None => false,
                },
                None => spec_lookup(dv.skip(i as int), name@) is None,
            },
        decreases table.len() - i,
    {
        let entry = &table[i];
        proof {
            assert(dv.skip(i as int)[0] == dv[i as int]);
            assert(dv[i as int] == table@[i as int].deep_view());
        }
        if eq_fold(entry.name.as_str(), name) {
            return Some(i);
        }
        proof {
            assert(dv.skip(i as int).skip(1) =~= dv.skip(i + 1));
        }
        i += 1;
    }
    proof {
        assert(dv.skip(i as int) =~= Seq::<IngredientModel>::empty());
    }
    None
}

/// The parser state: the token stream with a forward cursor, and the mise
/// en place — the table of ingredients declared so far.
pub struct Parser {
    tokens: Vec<Token>,
    position: usize,
    mise_en_place: Vec<Ingredient>,
}

impl Parser {
    /// The token sequence being parsed.
    pub closed spec fn toks(&self) -> Seq<TokenModel> {
        self.tokens.deep_view()
    }

    /// The cursor.
    pub closed spec fn pos(&self) -> int {
        self.position as int
    }

    /// The ingredients declared so far.
    pub closed spec fn table(&self) -> Seq<IngredientModel> {
        self.mise_en_place.deep_view()
    }

    /// The cursor is within the token stream.
    pub closed spec fn wf(&self) -> bool {
        self.position <= self.tokens.len()
    }

    /// A parser that has not started: cursor at the start, no ingredients.
    pub closed spec fn fresh(&self) -> bool {
        self.wf() && self.position == 0 && self.mise_en_place@ == Seq::<Ingredient>::empty()
    }

    /// A parser at the start of `tokens`.
    pub fn new(tokens: Vec<Token>) -> (r: Parser)
        ensures
            r.toks() == tokens.deep_view(),
            r.fresh(),
    {
        let r = Parser { tokens, position: 0, mise_en_place: Vec::new() };
        proof {
            assert(r.table() =~= Seq::<IngredientModel>::empty());
        }
        r
    }

    /// Remove and return the token at the cursor, for an error report.
    /// Only error paths do this; the parser aborts right after.
    fn take_actual(&mut self) -> (t: Token)
        requires
            old(self).wf(),
            old(self).pos() < old(self).toks().len(),
        ensures
            final(self).wf(),
            t@ == old(self).toks()[old(self).pos()],
    {
        proof {
            assert(self.toks()[self.pos()] == self.tokens@[self.position as int].deep_view());
        }
        self.tokens.remove(self.position)
    }

    /// The next token must be exactly `expected`.
    fn expect(&mut self, expected: Token) -> (r: Result<(), ParseError>)
        requires
            old(self).wf(),
        ensures
            final(self).wf(),
            match spec_expect(old(self).toks(), old(self).pos(), expected@) {
                Ok(p) => r is Ok && final(self).toks() == old(self).toks() && final(self).pos()
                    == p && final(self).table() == old(self).table(),
                Err(e) => r matches Err(x) && x@ == e,
            },
    {
        if self.position >= self.tokens.len() {
            return Err(
                ParseError::UnexpectedEndOfInput { expected: Expectation::Exact(expected) },
            );
        }
        proof {
            assert(self.toks()[self.pos()] == self.tokens@[self.position as int].deep_view());
        }
        let cur = &self.tokens[self.position];
        if cur.eq(&expected) {
            self.position += 1;
            Ok(())
        } else {
            let actual = self.take_actual();
            Err(ParseError::UnexpectedToken { expected: Expectation::Exact(expected), actual })
        }
    }

    /// The next token must be an identifier; its text is returned.
    fn expect_identifier(&mut self) -> (r: Result<String, ParseError>)
        requires
            old(self).wf(),
        ensures
            final(self).wf(),
            match spec_expect_identifier(old(self).toks(), old(self).pos()) {
                Ok((name, p)) => r matches Ok(s) && s@ == name && final(self).toks() == old(self).toks() && final(self).pos() == p && final(self).table() == old(self).table(),
                Err(e) => r matches Err(x) && x@ == e,
            },
    {
        if self.position >= self.tokens.len() {
            return Err(
                ParseError::UnexpectedEndOfInput { expected: Expectation::AnyIdentifier },
            );
        }
        proof {
            assert(self.toks()[self.pos()] == self.tokens@[self.position as int].deep_view());
        }
        let is_ident = match &self.tokens[self.position] {
            Token::Identifier(_) => true,
            _ => false,
        };
        if is_ident {
            let name = match &self.tokens[self.position] {
                Token::Identifier(s) => s.clone(),
                _ => String::new(),
            };
            self.position += 1;
            Ok(name)
        } else {
            let actual = self.take_actual();
            Err(ParseError::UnexpectedToken { expected: Expectation::AnyIdentifier, actual })
        }
    }

    /// The next token must be a keyword.
    fn expect_keyword(&mut self) -> (r: Result<Keyword, ParseError>)
        requires
            old(self).wf(),
        ensures
            final(self).wf(),
            match spec_expect_keyword(old(self).toks(), old(self).pos()) {
                Ok((k, p)) => r == Ok::<Keyword, ParseError>(k) && final(self).toks() == old(self).toks() && final(self).pos() == p && final(self).table() == old(self).table(),
                Err(e) => r matches Err(x) && x@ == e,
            },
    {
        if self.position >= self.tokens.len() {
            return Err(ParseError::UnexpectedEndOfInput { expected: Expectation::AnyKeyword });
        }
        proof {
            assert(self.toks()[self.pos()] == self.tokens@[self.position as int].deep_view());
        }
        let found = match &self.tokens[self.position] {
            Token::Keyword(k) => Some(*k),
            _ => None,
        };
        match found {
            Some(k) => {
                self.position += 1;
                Ok(k)
            },
            None => {
                let actual = self.take_actual();
                Err(ParseError::UnexpectedToken { expected: Expectation::AnyKeyword, actual })
            },
        }
    }

    /// The next token must be a number.
    fn expect_number(&mut self) -> (r: Result<Decimal, ParseError>)
        requires
            old(self).wf(),
        ensures
            final(self).wf(),
            match spec_expect_number(old(self).toks(), old(self).pos()) {
                Ok((d, p)) => r == Ok::<Decimal, ParseError>(d) && final(self).toks() == old(self).toks() && final(self).pos() == p && final(self).table() == old(self).table(),
                Err(e) => r matches Err(x) && x@ == e,
            },
    {
        if self.position >= self.tokens.len() {
            return Err(ParseError::UnexpectedEndOfInput { expected: Expectation::AnyNumber });
        }
        proof {
            assert(self.toks()[self.pos()] == self.tokens@[self.position as int].deep_view());
        }
        let found = match &self.tokens[self.position] {
            Token::Number(d) => Some(*d),
            _ => None,
        };
        match found {
            Some(d) => {
                self.position += 1;
                Ok(d)
            },
            None => {
                let actual = self.take_actual();
                Err(ParseError::UnexpectedToken { expected: Expectation::AnyNumber, actual })
            },
        }
    }

    /// Whether the cursor stands on a statement separator.
    fn peek_is_newline(&self) -> (b: bool)
        requires
            self.wf(),
        ensures
            b == (self.pos() < self.toks().len() && self.toks()[self.pos()] == TokenModel::Newline),
    {
        if self.position >= self.tokens.len() {
            return false;
        }
        proof {
            assert(self.toks()[self.pos()] == self.tokens@[self.position as int].deep_view());
        }
        match &self.tokens[self.position] {
            Token::Newline => true,
            _ => false,
        }
    }

    /// Whether the cursor stands on a comma.
    fn peek_is_comma(&self) -> (b: bool)
        requires
            self.wf(),
        ensures
            b == (self.pos() < self.toks().len() && self.toks()[self.pos()] == TokenModel::Comma),
    {
        if self.position >= self.tokens.len() {
            return false;
        }
        proof {
            assert(self.toks()[self.pos()] == self.tokens@[self.position as int].deep_view());
        }
        match &self.tokens[self.position] {
            Token::Comma => true,
            _ => false,
        }
    }

    /// Whether the cursor stands on the `Instructions` keyword.
    fn peek_is_instructions(&self) -> (b: bool)
        requires
            self.wf(),
        ensures
            b == (self.pos() < self.toks().len() && self.toks()[self.pos()]
                == TokenModel::Keyword(Keyword::Instructions)),
    {
        if self.position >= self.tokens.len() {
            return false;
        }
        proof {
            assert(self.toks()[self.pos()] == self.tokens@[self.position as int].deep_view());
        }
        match &self.tokens[self.position] {
            Token::Keyword(Keyword::Instructions) => true,
            _ => false,
        }
    }

    /// One ingredient declaration: its name and its amount, with the unit
    /// defaulting to `Units` when the quantity is directly followed by a
    /// separator.
    fn parse_ingredient(&mut self) -> (r: Result<(String, Amount), ParseError>)
        requires
            old(self).wf(),
        ensures
            final(self).wf(),
            match spec_parse_ingredient(old(self).toks(), old(self).pos()) {
                Ok(((name, amount), p)) => r matches Ok(v) && v.0@ == name && v.1 == amount
                    && final(self).toks() == old(self).toks() && final(self).pos() == p && final(self).table() == old(self).table(),
                Err(e) => r matches Err(x) && x@ == e,
            },
    {
        let name = match self.expect_identifier() {
            Ok(v) => v,
            Err(e) => return Err(e),
        };
        match self.expect(Token::Colon) {
            Ok(_) => (),
            Err(e) => return Err(e),
        }
        let quantity = match self.expect_number() {
            Ok(v) => v,
            Err(e) => return Err(e),
        };
        if self.peek_is_newline() {
            return Ok((name, Amount { quantity, unit: AmountUnit::Units }));
        }
        let unit_word = match self.expect_identifier() {
            Ok(v) => v,
            Err(e) => return Err(e),
        };
        match AmountUnit::from_word(unit_word.as_str()) {
            Some(unit) => Ok((name, Amount { quantity, unit })),
            None => Err(ParseError::UnitParseError { raw: unit_word }),
        }
    }

    /// The `Ingredients` section: the header, then declarations until the
    /// `Instructions` keyword, each added to the mise en place. A name
    /// already declared (caseless) is rejected as a duplicate.
    #[verifier::loop_isolation(false)]
    fn parse_ingredients(&mut self) -> (r: Result<(), ParseError>)
        requires
            old(self).wf(),
        ensures
            final(self).wf(),
            match spec_ingredients_section(old(self).toks(), old(self).pos(), old(self).table()) {
                Ok((table2, p)) => r is Ok && final(self).toks() == old(self).toks() && final(self).pos() == p && final(self).table() == table2,
                Err(e) => r matches Err(x) && x@ == e,
            },
    {
        match self.expect(Token::Keyword(Keyword::Ingredients)) {
            Ok(_) => (),
            Err(e) => return Err(e),
        }
        match self.expect(Token::Colon) {
            Ok(_) => (),
            Err(e) => return Err(e),
        }
        match self.expect(Token::Newline) {
            Ok(_) => (),
            Err(e) => return Err(e),
        }
        let ghost p3 = self.pos();
        let ghost t3 = self.table();
        loop
            invariant
                self.wf(),
                self.toks() == old(self).toks(),
                spec_ingredients_loop(self.toks(), p3, t3) == spec_ingredients_loop(
                    self.toks(),
                    self.pos(),
                    self.table(),
                ),
            decreases self.toks().len() - self.pos(),
        {
            if self.peek_is_instructions() {
                return Ok(());
            }
            if self.position >= self.tokens.len() {
                return Err(
                    ParseError::UnexpectedEndOfInput { expected: Expectation::AnyIdentifier },
                );
            }
            let ghost table0 = self.table();
            let (name, amount) = match self.parse_ingredient() {
                Ok(v) => v,
                Err(e) => return Err(e),
            };
            match self.expect(Token::Newline) {
                Ok(_) => (),
                Err(e) => return Err(e),
            }
            match lookup(&self.mise_en_place, name.as_str()) {
                Some(_) => {
                    return Err(ParseError::DuplicateIngredient { name });
                },
                None => (),
            }
            let ghost n = name@;
            self.mise_en_place.push(Ingredient { name, amount });
            proof {
                assert(self.table() =~= table0.push(IngredientModel { name: n, amount }));
            }
        }
    }

    /// One ingredient mention, resolved against the mise en place or the
    /// `result` sentinel.
    fn expect_reference(&mut self) -> (r: Result<Reference, ParseError>)
        requires
            old(self).wf(),
        ensures
            final(self).wf(),
            match spec_reference(old(self).toks(), old(self).pos(), old(self).table()) {
                Ok((rf, p)) => r == Ok::<Reference, ParseError>(rf) && final(self).toks() == old(self).toks() && final(self).pos() == p && final(self).table() == old(self).table(),
                Err(e) => r matches Err(x) && x@ == e,
            },
    {
        let name = match self.expect_identifier() {
            Ok(v) => v,
            Err(e) => return Err(e),
        };
        if eq_fold(name.as_str(), "result") {
            return Ok(Reference::Result);
        }
        proof {
            lemma_lookup_in_range(self.table(), name@);
        }
        match lookup(&self.mise_en_place, name.as_str()) {
            Some(i) => Ok(Reference::Ingredient(i)),
            None => Err(ParseError::UnknownIdentifier { name }),
        }
    }

    /// A nonempty, comma-separated reference list, ended by a separator.
    #[verifier::loop_isolation(false)]
    fn expect_reference_list(&mut self) -> (r: Result<Vec<Reference>, ParseError>)
        requires
            old(self).wf(),
        ensures
            final(self).wf(),
            match spec_reference_list(
                old(self).toks(),
                old(self).pos(),
                old(self).table(),
                Seq::empty(),
            ) {
                Ok((refs, p)) => r matches Ok(v) && v@ == refs && final(self).toks() == old(self).toks() && final(self).pos() == p && final(self).table() == old(self).table(),
                Err(e) => r matches Err(x) && x@ == e,
            },
    {
        let mut references: Vec<Reference> = Vec::new();
        proof {
            assert(references@ =~= Seq::<Reference>::empty());
        }
        loop
            invariant
                self.wf(),
                self.toks() == old(self).toks(),
                self.table() == old(self).table(),
                self.pos() <= self.toks().len(),
                spec_reference_list(
                    self.toks(),
                    old(self).pos(),
                    self.table(),
                    Seq::empty(),
                ) == spec_reference_list(self.toks(), self.pos(), self.table(), references@),
            decreases self.toks().len() - self.pos(),
        {
            let rf = match self.expect_reference() {
                Ok(v) => v,
                Err(e) => return Err(e),
            };
            references.push(rf);
            if self.peek_is_newline() {
                return Ok(references);
            }
            if self.position >= self.tokens.len() {
                return Ok(references);
            }
            if self.peek_is_comma() {
                self.position += 1;
            } else {
                let actual = self.take_actual();
                return Err(
                    ParseError::UnexpectedToken {
                        expected: Expectation::CommaOrSeparator,
                        actual,
                    },
                );
            }
        }
    }

    /// One instruction: a keyword, then its operands, every mention
    /// resolved. `Mix` parses to the same node as `Combine`.
    fn parse_instruction(&mut self) -> (r: Result<Instruction, ParseError>)
        requires
            old(self).wf(),
        ensures
            final(self).wf(),
            match spec_parse_instruction(old(self).toks(), old(self).pos(), old(self).table()) {
                Ok((inst, p)) => r matches Ok(i) && i@ == inst && final(self).toks() == old(self).toks() && final(self).pos() == p && final(self).table() == old(self).table(),
                Err(e) => r matches Err(x) && x@ == e,
            },
    {
        let keyword = match self.expect_keyword() {
            Ok(v) => v,
            Err(e) => return Err(e),
        };
        match keyword {
            Keyword::Ingredients | Keyword::Instructions | Keyword::Into => Err(
                ParseError::UnexpectedToken {
                    expected: Expectation::Instruction,
                    actual: Token::Keyword(keyword),
                },
            ),
            Keyword::Combine | Keyword::Mix => {
                let ingredients = match self.expect_reference_list() {
                    Ok(v) => v,
                    Err(e) => return Err(e),
                };
                Ok(Instruction::Combine { ingredients })
            },
            Keyword::Cut => {
                let source = match self.expect_reference() {
                    Ok(v) => v,
                    Err(e) => return Err(e),
                };
                match self.expect(Token::Keyword(Keyword::Into)) {
                    Ok(_) => (),
                    Err(e) => return Err(e),
                }
                let destination = match self.expect_reference() {
                    Ok(v) => v,
                    Err(e) => return Err(e),
                };
                Ok(Instruction::CutInto { source, destination })
            },
            Keyword::Refridgerate => {
                let ingredient = match self.expect_reference() {
                    Ok(v) => v,
                    Err(e) => return Err(e),
                };
                let duration = match self.expect_number() {
                    Ok(v) => v,
                    Err(e) => return Err(e),
                };
                let unit_word = match self.expect_identifier() {
                    Ok(v) => v,
                    Err(e) => return Err(e),
                };
                match TimeUnit::from_word(unit_word.as_str()) {
                    Some(unit) => Ok(
                        Instruction::Refridgerate { ingredient, time: Time { duration, unit } },
                    ),
                    None => Err(ParseError::UnitParseError { raw: unit_word }),
                }
            },
            Keyword::Bake => {
                let ingredient = match self.expect_reference() {
                    Ok(v) => v,
                    Err(e) => return Err(e),
                };
                let degrees = match self.expect_number() {
                    Ok(v) => v,
                    Err(e) => return Err(e),
                };
                let temperature_word = match self.expect_identifier() {
                    Ok(v) => v,
                    Err(e) => return Err(e),
                };
                let temperature_unit = match TemperatureUnit::from_word(
                    temperature_word.as_str(),
                ) {
                    Some(u) => u,
                    None => {
                        return Err(ParseError::UnitParseError { raw: temperature_word });
                    },
                };
                let duration = match self.expect_number() {
                    Ok(v) => v,
                    Err(e) => return Err(e),
                };
                let time_word = match self.expect_identifier() {
                    Ok(v) => v,
                    Err(e) => return Err(e),
                };
                match TimeUnit::from_word(time_word.as_str()) {
                    Some(unit) => Ok(
                        Instruction::Bake {
                            ingredient,
                            temperature: Temperature { degrees, unit: temperature_unit },
                            time: Time { duration, unit },
                        },
                    ),
                    None => Err(ParseError::UnitParseError { raw: time_word }),
                }
            },
        }
    }

    /// The `Instructions` section: the header, then a separator and an
    /// instruction in turn until the token stream is exhausted.
    #[verifier::loop_isolation(false)]
    fn parse_instructions(&mut self) -> (r: Result<Vec<Instruction>, ParseError>)
        requires
            old(self).wf(),
        ensures
            final(self).wf(),
            match spec_instructions_section(old(self).toks(), old(self).pos(), old(self).table()) {
                Ok((instrs, p)) => r matches Ok(v) && v.deep_view() == instrs && final(self).toks() == old(self).toks() && final(self).pos() == p && final(self).table()
                    == old(self).table(),
                Err(e) => r matches Err(x) && x@ == e,
            },
    {
        match self.expect(Token::Keyword(Keyword::Instructions)) {
            Ok(_) => (),
            Err(e) => return Err(e),
        }
        match self.expect(Token::Colon) {
            Ok(_) => (),
            Err(e) => return Err(e),
        }
        let ghost p2 = self.pos();
        let mut instructions: Vec<Instruction> = Vec::new();
        proof {
            assert(instructions.deep_view() =~= Seq::<InstructionModel>::empty());
        }
        loop
            invariant
                self.wf(),
                self.toks() == old(self).toks(),
                self.table() == old(self).table(),
                spec_instructions_loop(self.toks(), p2, self.table(), Seq::empty())
                    == spec_instructions_loop(
                    self.toks(),
                    self.pos(),
                    self.table(),
                    instructions.deep_view(),
                ),
            decreases self.toks().len() - self.pos(),
        {
            if self.position >= self.tokens.len() {
                return Ok(instructions);
            }
            match self.expect(Token::Newline) {
                Ok(_) => (),
                Err(e) => return Err(e),
            }
            proof {
                lemma_parse_instruction_advances(self.toks(), self.pos(), self.table());
            }
            let ghost dv0 = instructions.deep_view();
            let inst = match self.parse_instruction() {
                Ok(v) => v,
                Err(e) => return Err(e),
            };
            let ghost im = inst@;
            instructions.push(inst);
            proof {
                assert(instructions.deep_view() =~= dv0.push(im));
            }
        }
    }

    /// Parse the whole token stream into a recipe: the declared ingredient
    /// table and the instruction list, every ingredient mention resolved —
    /// or the first parse error, with no partial recipe.
    pub fn parse(self) -> (r: Result<Recipe, ParseError>)
        requires
            self.fresh(),
        ensures
            match spec_parse(self.toks()) {
                Ok(rm) => r matches Ok(rec) && rec@ == rm,
                Err(e) => r matches Err(x) && x@ == e,
            },
    {
        proof {
            assert(self.table() =~= Seq::<IngredientModel>::empty());
        }
        let mut this = self;
        match this.parse_ingredients() {
            Ok(_) => (),
            Err(e) => return Err(e),
        }
        let instructions = match this.parse_instructions() {
            Ok(v) => v,
            Err(e) => return Err(e),
        };
        Ok(Recipe { ingredients: this.mise_en_place, instructions })
    }
}

pub proof fn lemma_lookup_caseless(table: Seq<IngredientModel>, n1: Seq<char>, n2: Seq<char>)
    requires
        fold_of(n1) == fold_of(n2),
    ensures
        spec_lookup(table, n1) == spec_lookup(table, n2),
    decreases table.len(),
{
    if table.len() != 0 {
        lemma_lookup_caseless(table.skip(1), n1, n2);
    }
}

/// Table lookup fails exactly when no declared name is caseless-equal to
/// the mention.
pub proof fn lemma_lookup_none(table: Seq<IngredientModel>, name: Seq<char>)
    ensures
        spec_lookup(table, name) is None <==> (forall|i: int|
            0 <= i < table.len() ==> fold_of(#[trigger] table[i].name) != fold_of(name)),
    decreases table.len(),
{
    if table.len() == 0 {
    } else if fold_of(table[0].name) == fold_of(name) {
        assert(fold_of(table[0].name) == fold_of(name));
    } else {
        lemma_lookup_none(table.skip(1), name);
        if spec_lookup(table.skip(1), name) is None {
            assert forall|i: int|
                0 <= i < table.len() implies fold_of(#[trigger] table[i].name) != fold_of(
                name,
            ) by {
                if i > 0 {
                    assert(table.skip(1)[i - 1] == table[i]);
                }
            }
        } else {
            let j = choose|j: int|
                0 <= j < table.skip(1).len() && fold_of(#[trigger] table.skip(1)[j].name)
                    == fold_of(name);
            assert(table.skip(1)[j] == table[j + 1]);
            assert(fold_of(table[j + 1].name) == fold_of(name));
        }
    }
}

/// Reference resolution is caseless on ingredient names: two mentions
/// whose folded spellings agree either resolve to the same reference, or
/// both fail.
pub proof fn lemma_resolution_caseless(table: Seq<IngredientModel>, n1: Seq<char>, n2: Seq<char>)
    requires
        fold_of(n1) == fold_of(n2),
    ensures
        spec_resolve(table, n1) is Ok <==> spec_resolve(table, n2) is Ok,
        spec_resolve(table, n1) matches Ok(r) ==> spec_resolve(table, n2) == Ok::<
            Reference,
            ParseErrorModel,
        >(r),
{
    lemma_lookup_caseless(table, n1, n2);
}

/// The `result` sentinel takes priority: a mention spelled `result`
/// (caseless) resolves to the sentinel whatever the table holds — even if
/// an ingredient literally named `Result` is declared.
pub proof fn lemma_result_sentinel_priority(table: Seq<IngredientModel>, name: Seq<char>)
    requires
        fold_of(name) == fold_of("result"@),
    ensures
        spec_resolve(table, name) == Ok::<Reference, ParseErrorModel>(Reference::Result),
{
}

/// Resolution fails exactly on a mention that is neither `result` nor
/// caseless-equal to any declared name — and then with an
/// unresolved-reference error naming that very identifier.
pub proof fn lemma_unknown_reference(table: Seq<IngredientModel>, name: Seq<char>)
    ensures
        spec_resolve(table, name) == Err::<Reference, ParseErrorModel>(
            ParseErrorModel::UnknownIdentifier { name },
        ) <==> (fold_of(name) != fold_of("result"@) && (forall|i: int|
            0 <= i < table.len() ==> fold_of(#[trigger] table[i].name) != fold_of(name))),
{
    lemma_lookup_none(table, name);
}

/// A declaration whose quantity is directly followed by a statement
/// separator carries no unit token: whenever it parses, its amount's unit
/// is the implicit default `Units`.
pub proof fn lemma_missing_unit_defaults(toks: Seq<TokenModel>, pos: int)
    requires
        0 <= pos,
        pos + 3 < toks.len(),
        toks[pos + 3] == TokenModel::Newline,
    ensures
        spec_parse_ingredient(toks, pos) matches Ok(v) ==> v.0.1.unit == AmountUnit::Units,
{
}

/// `Mix` and `Combine` are grammatical synonyms: after either keyword the
/// same tokens parse to structurally identical instruction nodes.
pub proof fn lemma_mix_is_combine(toks: Seq<TokenModel>, pos: int, table: Seq<IngredientModel>)
    requires
        0 <= pos,
    ensures
        spec_instruction_with(Keyword::Mix, toks, pos, table) == spec_instruction_with(
            Keyword::Combine,
            toks,
            pos,
            table,
        ),
{
}

} // verus!
