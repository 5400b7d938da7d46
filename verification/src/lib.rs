//! Front end for a small recipe language: a scanner that turns source text
//! into tokens, and a recursive-descent parser that builds a validated
//! `Recipe` from them, resolving every ingredient mention against the
//! declared ingredient table.

use vstd::prelude::*;

pub mod ast;
mod caseless;
mod charclass;
pub mod number;
pub mod parse;
pub mod scan;
mod text;

use ast::{Recipe, RecipeModel};
use parse::{ParseError, ParseErrorModel};
use scan::{ScanError, ScanErrorModel};

verus! {

/// Why interpreting a source text failed: in the scanner, or in the parser.
#[derive(Clone, Debug, PartialEq)]
pub enum InterpretError {
    Scan(ScanError),
    Parse(ParseError),
}

/// The mathematical shape of an [`InterpretError`].
pub enum InterpretErrorModel {
    Scan(ScanErrorModel),
    Parse(ParseErrorModel),
}

impl View for InterpretError {
    type V = InterpretErrorModel;

    open spec fn view(&self) -> InterpretErrorModel {
        match self {
            InterpretError::Scan(e) => InterpretErrorModel::Scan(e@),
            InterpretError::Parse(e) => InterpretErrorModel::Parse(e@),
        }
    }
}

/// What running the front end on a source text yields: the tokens the text
/// scans to, parsed into a recipe — or the first error of either stage.
pub open spec fn spec_interpret(s: Seq<char>) -> Result<RecipeModel, InterpretErrorModel> {
    match scan::spec_scan(s) {
        Err(e) => Err(InterpretErrorModel::Scan(e)),
        Ok(toks) => match parse::spec_parse(toks) {
            Err(e) => Err(InterpretErrorModel::Parse(e)),
            Ok(r) => Ok(r),
        },
    }
}

/// Run the front end on a source text: scan it, parse the tokens, and hand
/// back the validated recipe — or the first error, with no partial recipe.
pub fn interpret(source_text: String) -> (r: Result<Recipe, InterpretError>)
    ensures
        match spec_interpret(source_text@) {
            Ok(rm) => r matches Ok(rec) && rec@ == rm,
            Err(e) => r matches Err(x) && x@ == e,
        },
{
    let scanner = scan::Scanner::new(source_text.as_str());
    let tokens = match scanner.scan() {
        Ok(v) => v,
        Err(e) => return Err(InterpretError::Scan(e)),
    };
    let parser = parse::Parser::new(tokens);
    match parser.parse() {
        Ok(recipe) => Ok(recipe),
        Err(e) => Err(InterpretError::Parse(e)),
    }
}

} // verus!
