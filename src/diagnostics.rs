use vstd::prelude::*;
use crate::parser::Parser;
use crate::span::Span;
use crate::token::{Atom, Number, Token};

verus! {

/// A grammar point that is recognised but not built yet; it always fails.
#[derive(Debug)]
pub struct Unimplemented(pub Span);

/// This at-rule must not have a 'prelude'.
#[derive(Debug)]
pub struct DisallowedAtRulePrelude(pub Span);

/// This at-rule must have a 'prelude'.
#[derive(Debug)]
pub struct MissingAtRulePrelude(pub Span);

/// This at-rule must not have a 'block'.
#[derive(Debug)]
pub struct DisallowedAtRuleBlock(pub Span);

/// This at-rule must have a 'block'.
#[derive(Debug)]
pub struct MissingAtRuleBlock(pub Span);

/// This declaration wasn't understood, and so was disregarded.
#[derive(Debug)]
pub struct BadDeclaration(pub Span);

/// Unexpected `…`
#[derive(Debug)]
pub struct Unexpected(pub Token, pub Span);

/// Unexpected charset '…'. '…' isn't allowed here. This must be a valid IANA language code.
#[derive(Debug)]
pub struct UnexpectedCharset(pub Atom, pub Span);

/// Unexpected identifier '…'
#[derive(Debug)]
pub struct UnexpectedIdent(pub Atom, pub Span);

/// Unexpected identifier '…'. '…' isn't allowed here, but '…' is.
#[derive(Debug)]
pub struct UnexpectedIdentSuggest(pub Atom, pub Atom, pub Span);

/// Unexpected duplicate '…'
#[derive(Debug)]
pub struct UnexpectedDuplicateIdent(pub Atom, pub Span);

/// Unexpected delimeter '…'
#[derive(Debug)]
pub struct UnexpectedDelim(pub char, pub Span);

/// Unexpected pseudo selector ':…'
#[derive(Debug)]
pub struct UnexpectedPseudo(pub Atom, pub Span);

/// The dimension '…' wasn't recognised for this value type
#[derive(Debug)]
pub struct UnexpectedDimension(pub Atom, pub Span);

/// Unexpected at rule ':…'
#[derive(Debug)]
pub struct UnexpectedAtRule(pub Atom, pub Span);

/// Unexpected function '…'()
#[derive(Debug)]
pub struct UnexpectedFunction(pub Atom, pub Span);

/// Unknown Rule
#[derive(Debug)]
pub struct UnknownRule(pub Span);

/// Ignored property due to parse error.
#[derive(Debug)]
pub struct UnknownDeclaration(pub Span);

/// Unknown Value
#[derive(Debug)]
pub struct UnknownValue(pub Span);

/// Unknown named color '…'
#[derive(Debug)]
pub struct UnknownColor(pub Atom, pub Span);

/// Expected this to be the end of the file, but there was more content.
#[derive(Debug)]
pub struct ExpectedEnd(pub Span);

/// Expected `…` but found `…` …
#[derive(Debug)]
pub struct ExpectedToken(pub Token, pub Token, pub Span);

/// Expected a dimension but found `…`
#[derive(Debug)]
pub struct ExpectedDimension(pub Token, pub Span);

/// Expected an identifier but found `…`
#[derive(Debug)]
pub struct ExpectedIdent(pub Token, pub Span);

/// Expected an identifier but not `…`
#[derive(Debug)]
pub struct ExpectedOtherIdent(pub Atom, pub Span);

/// Expected the identifier `…` but found `…`
#[derive(Debug)]
pub struct ExpectedIdentOf(pub Atom, pub Atom, pub Span);

/// Expected a function but found `…`
#[derive(Debug)]
pub struct ExpectedFunction(pub Token, pub Span);

/// Expected to see …() but saw …()
#[derive(Debug)]
pub struct ExpectedFunctionOf(pub Atom, pub Atom, pub Span);

/// Expected an @ keyword but saw `…`
#[derive(Debug)]
pub struct ExpectedAtKeyword(pub Token, pub Span);

/// Expected to see @… but saw @…
#[derive(Debug)]
pub struct ExpectedAtKeywordOf(pub Atom, pub Atom, pub Span);

/// Expected a delimiter but saw `…`
#[derive(Debug)]
pub struct ExpectedDelim(pub Token, pub Span);

/// Expected to see … but saw …
#[derive(Debug)]
pub struct ExpectedDelimOf(pub char, pub char, pub Span);

/// Unexpected trailing `…`
#[derive(Debug)]
pub struct WarnTrailing(pub Token, pub Span);

/// Invalid hexidecimal value for color: '…'
#[derive(Debug)]
pub struct BadHexColor(pub Atom, pub Span);

/// This block uses an invalid selector, so the whole block would be discarded.
#[derive(Debug)]
pub struct NoSelector(pub Span, pub Span);

/// This selector has two combinators next to each other, which is disallowed.
#[derive(Debug)]
pub struct AdjacentSelectorCombinators(pub Span, pub Span);

/// This selector has two types next to each other, which is disallowed.
#[derive(Debug)]
pub struct AdjacentSelectorTypes(pub Span, pub Span);

/// This value isn't allowed to be a raw number, it has to have a dimension.
#[derive(Debug)]
pub struct DisallowedValueWithoutDimension(pub Atom, pub Span);

/// A math function isn't valid here.
#[derive(Debug)]
pub struct DisallowedMathFunction(pub Atom, pub Span);

/// Expected a number but saw `…`
#[derive(Debug)]
pub struct ExpectedNumber(pub Token, pub Span);

/// Expected a signed number but saw `…`
#[derive(Debug)]
pub struct ExpectedSign(pub Number, pub Span);

/// Expected an unsigned number but saw `…`
#[derive(Debug)]
pub struct ExpectedUnsigned(pub Number, pub Span);

/// This number is out of bounds.
#[derive(Debug)]
pub struct NumberOutOfBounds(pub Number, pub Number, pub Span);

/// This number cannot be negative.
#[derive(Debug)]
pub struct NumberNotNegative(pub Number, pub Span);

/// This number is too small.
#[derive(Debug)]
pub struct NumberTooSmall(pub Number, pub Span);

/// This value isn't allowed to have a fraction, it must be a whole number (integer).
#[derive(Debug)]
pub struct ExpectedInt(pub Number, pub Span);

/// This value must have a fraction, it must be float.
#[derive(Debug)]
pub struct ExpectedFloat(pub Number, pub Span);

/// This number must be 0, got … instead.
#[derive(Debug)]
pub struct ExpectedZero(pub Number, pub Span);

/// Display 'list-item' can only be combined with 'flow' or 'flow-root'
#[derive(Debug)]
pub struct DisplayHasInvalidListItemCombo(pub Atom, pub Span);

/// Every way a parse can fail: the kind, the offending range and what the kind carries.
#[derive(Debug)]
pub enum ParseError {
    Unimplemented(Unimplemented),
    DisallowedAtRulePrelude(DisallowedAtRulePrelude),
    DisallowedAtRuleBlock(DisallowedAtRuleBlock),
    MissingAtRuleBlock(MissingAtRuleBlock),
    MissingAtRulePrelude(MissingAtRulePrelude),
    BadDeclaration(BadDeclaration),
    Unexpected(Unexpected),
    UnexpectedCharset(UnexpectedCharset),
    UnexpectedIdent(UnexpectedIdent),
    UnexpectedIdentSuggest(UnexpectedIdentSuggest),
    UnexpectedDuplicateIdent(UnexpectedDuplicateIdent),
    UnexpectedDelim(UnexpectedDelim),
    UnexpectedPseudo(UnexpectedPseudo),
    UnexpectedDimension(UnexpectedDimension),
    UnexpectedAtRule(UnexpectedAtRule),
    UnexpectedFunction(UnexpectedFunction),
    UnknownRule(UnknownRule),
    UnknownDeclaration(UnknownDeclaration),
    UnknownValue(UnknownValue),
    UnknownColor(UnknownColor),
    ExpectedEnd(ExpectedEnd),
    ExpectedToken(ExpectedToken),
    ExpectedDimension(ExpectedDimension),
    ExpectedIdent(ExpectedIdent),
    ExpectedOtherIdent(ExpectedOtherIdent),
    ExpectedIdentOf(ExpectedIdentOf),
    ExpectedFunction(ExpectedFunction),
    ExpectedFunctionOf(ExpectedFunctionOf),
    ExpectedAtKeyword(ExpectedAtKeyword),
    ExpectedAtKeywordOf(ExpectedAtKeywordOf),
    ExpectedDelim(ExpectedDelim),
    ExpectedDelimOf(ExpectedDelimOf),
    WarnTrailing(WarnTrailing),
    BadHexColor(BadHexColor),
    NoSelector(NoSelector),
    AdjacentSelectorCombinators(AdjacentSelectorCombinators),
    AdjacentSelectorTypes(AdjacentSelectorTypes),
    DisallowedValueWithoutDimension(DisallowedValueWithoutDimension),
    DisallowedMathFunction(DisallowedMathFunction),
    ExpectedNumber(ExpectedNumber),
    ExpectedSign(ExpectedSign),
    ExpectedUnsigned(ExpectedUnsigned),
    NumberOutOfBounds(NumberOutOfBounds),
    NumberNotNegative(NumberNotNegative),
    NumberTooSmall(NumberTooSmall),
    ExpectedInt(ExpectedInt),
    ExpectedFloat(ExpectedFloat),
    ExpectedZero(ExpectedZero),
    DisplayHasInvalidListItemCombo(DisplayHasInvalidListItemCombo),
}

impl ParseError {
    /// The range of source the error points at.
    pub open spec fn offending_span(&self) -> Span {
        match self {
            ParseError::Unimplemented(Unimplemented(s)) => *s,
            ParseError::DisallowedAtRulePrelude(DisallowedAtRulePrelude(s)) => *s,
            ParseError::DisallowedAtRuleBlock(DisallowedAtRuleBlock(s)) => *s,
            ParseError::MissingAtRuleBlock(MissingAtRuleBlock(s)) => *s,
            ParseError::BadDeclaration(BadDeclaration(s)) => *s,
            ParseError::Unexpected(Unexpected(_, s)) => *s,
            ParseError::UnexpectedCharset(UnexpectedCharset(_, s)) => *s,
            ParseError::UnexpectedIdent(UnexpectedIdent(_, s)) => *s,
            ParseError::UnexpectedIdentSuggest(UnexpectedIdentSuggest(_, _, s)) => *s,
            ParseError::UnexpectedDuplicateIdent(UnexpectedDuplicateIdent(_, s)) => *s,
            ParseError::UnexpectedDelim(UnexpectedDelim(_, s)) => *s,
            ParseError::UnexpectedPseudo(UnexpectedPseudo(_, s)) => *s,
            ParseError::UnexpectedDimension(UnexpectedDimension(_, s)) => *s,
            ParseError::UnexpectedAtRule(UnexpectedAtRule(_, s)) => *s,
            ParseError::UnexpectedFunction(UnexpectedFunction(_, s)) => *s,
            ParseError::UnknownRule(UnknownRule(s)) => *s,
            ParseError::UnknownDeclaration(UnknownDeclaration(s)) => *s,
            ParseError::UnknownValue(UnknownValue(s)) => *s,
            ParseError::UnknownColor(UnknownColor(_, s)) => *s,
            ParseError::ExpectedEnd(ExpectedEnd(s)) => *s,
            ParseError::ExpectedToken(ExpectedToken(_, _, s)) => *s,
            ParseError::ExpectedDimension(ExpectedDimension(_, s)) => *s,
            ParseError::ExpectedIdent(ExpectedIdent(_, s)) => *s,
            ParseError::ExpectedOtherIdent(ExpectedOtherIdent(_, s)) => *s,
            ParseError::ExpectedIdentOf(ExpectedIdentOf(_, _, s)) => *s,
            ParseError::ExpectedFunction(ExpectedFunction(_, s)) => *s,
            ParseError::ExpectedFunctionOf(ExpectedFunctionOf(_, _, s)) => *s,
            ParseError::ExpectedAtKeyword(ExpectedAtKeyword(_, s)) => *s,
            ParseError::ExpectedAtKeywordOf(ExpectedAtKeywordOf(_, _, s)) => *s,
            ParseError::ExpectedDelim(ExpectedDelim(_, s)) => *s,
            ParseError::ExpectedDelimOf(ExpectedDelimOf(_, _, s)) => *s,
            ParseError::WarnTrailing(WarnTrailing(_, s)) => *s,
            ParseError::BadHexColor(BadHexColor(_, s)) => *s,
            ParseError::NoSelector(NoSelector(s, _)) => *s,
            ParseError::AdjacentSelectorCombinators(AdjacentSelectorCombinators(s, _)) => *s,
            ParseError::AdjacentSelectorTypes(AdjacentSelectorTypes(s, _)) => *s,
            ParseError::DisallowedValueWithoutDimension(DisallowedValueWithoutDimension(_, s)) => *s,
            ParseError::DisallowedMathFunction(DisallowedMathFunction(_, s)) => *s,
            ParseError::ExpectedNumber(ExpectedNumber(_, s)) => *s,
            ParseError::ExpectedSign(ExpectedSign(_, s)) => *s,
            ParseError::ExpectedUnsigned(ExpectedUnsigned(_, s)) => *s,
            ParseError::NumberOutOfBounds(NumberOutOfBounds(_, _, s)) => *s,
            ParseError::NumberNotNegative(NumberNotNegative(_, s)) => *s,
            ParseError::NumberTooSmall(NumberTooSmall(_, s)) => *s,
            ParseError::ExpectedInt(ExpectedInt(_, s)) => *s,
            ParseError::ExpectedFloat(ExpectedFloat(_, s)) => *s,
            ParseError::ExpectedZero(ExpectedZero(_, s)) => *s,
            ParseError::DisplayHasInvalidListItemCombo(DisplayHasInvalidListItemCombo(_, s)) => *s,
            ParseError::MissingAtRulePrelude(MissingAtRulePrelude(s)) => *s,
        }
    }

    pub fn span(&self) -> (r: Span)
        ensures
            r == self.offending_span(),
    {
        match self {
            ParseError::Unimplemented(Unimplemented(s)) => *s,
            ParseError::DisallowedAtRulePrelude(DisallowedAtRulePrelude(s)) => *s,
            ParseError::DisallowedAtRuleBlock(DisallowedAtRuleBlock(s)) => *s,
            ParseError::MissingAtRuleBlock(MissingAtRuleBlock(s)) => *s,
            ParseError::BadDeclaration(BadDeclaration(s)) => *s,
            ParseError::Unexpected(Unexpected(_, s)) => *s,
            ParseError::UnexpectedCharset(UnexpectedCharset(_, s)) => *s,
            ParseError::UnexpectedIdent(UnexpectedIdent(_, s)) => *s,
            ParseError::UnexpectedIdentSuggest(UnexpectedIdentSuggest(_, _, s)) => *s,
            ParseError::UnexpectedDuplicateIdent(UnexpectedDuplicateIdent(_, s)) => *s,
            ParseError::UnexpectedDelim(UnexpectedDelim(_, s)) => *s,
            ParseError::UnexpectedPseudo(UnexpectedPseudo(_, s)) => *s,
            ParseError::UnexpectedDimension(UnexpectedDimension(_, s)) => *s,
            ParseError::UnexpectedAtRule(UnexpectedAtRule(_, s)) => *s,
            ParseError::UnexpectedFunction(UnexpectedFunction(_, s)) => *s,
            ParseError::UnknownRule(UnknownRule(s)) => *s,
            ParseError::UnknownDeclaration(UnknownDeclaration(s)) => *s,
            ParseError::UnknownValue(UnknownValue(s)) => *s,
            ParseError::UnknownColor(UnknownColor(_, s)) => *s,
            ParseError::ExpectedEnd(ExpectedEnd(s)) => *s,
            ParseError::ExpectedToken(ExpectedToken(_, _, s)) => *s,
            ParseError::ExpectedDimension(ExpectedDimension(_, s)) => *s,
            ParseError::ExpectedIdent(ExpectedIdent(_, s)) => *s,
            ParseError::ExpectedOtherIdent(ExpectedOtherIdent(_, s)) => *s,
            ParseError::ExpectedIdentOf(ExpectedIdentOf(_, _, s)) => *s,
            ParseError::ExpectedFunction(ExpectedFunction(_, s)) => *s,
            ParseError::ExpectedFunctionOf(ExpectedFunctionOf(_, _, s)) => *s,
            ParseError::ExpectedAtKeyword(ExpectedAtKeyword(_, s)) => *s,
            ParseError::ExpectedAtKeywordOf(ExpectedAtKeywordOf(_, _, s)) => *s,
            ParseError::ExpectedDelim(ExpectedDelim(_, s)) => *s,
            ParseError::ExpectedDelimOf(ExpectedDelimOf(_, _, s)) => *s,
            ParseError::WarnTrailing(WarnTrailing(_, s)) => *s,
            ParseError::BadHexColor(BadHexColor(_, s)) => *s,
            ParseError::NoSelector(NoSelector(s, _)) => *s,
            ParseError::AdjacentSelectorCombinators(AdjacentSelectorCombinators(s, _)) => *s,
            ParseError::AdjacentSelectorTypes(AdjacentSelectorTypes(s, _)) => *s,
            ParseError::DisallowedValueWithoutDimension(DisallowedValueWithoutDimension(_, s)) => *s,
            ParseError::DisallowedMathFunction(DisallowedMathFunction(_, s)) => *s,
            ParseError::ExpectedNumber(ExpectedNumber(_, s)) => *s,
            ParseError::ExpectedSign(ExpectedSign(_, s)) => *s,
            ParseError::ExpectedUnsigned(ExpectedUnsigned(_, s)) => *s,
            ParseError::NumberOutOfBounds(NumberOutOfBounds(_, _, s)) => *s,
            ParseError::NumberNotNegative(NumberNotNegative(_, s)) => *s,
            ParseError::NumberTooSmall(NumberTooSmall(_, s)) => *s,
            ParseError::ExpectedInt(ExpectedInt(_, s)) => *s,
            ParseError::ExpectedFloat(ExpectedFloat(_, s)) => *s,
            ParseError::ExpectedZero(ExpectedZero(_, s)) => *s,
            ParseError::DisplayHasInvalidListItemCombo(DisplayHasInvalidListItemCombo(_, s)) => *s,
            ParseError::MissingAtRulePrelude(MissingAtRulePrelude(s)) => *s,
        }
    }
}

/// The current token is not one the grammar allows here.
pub fn unexpected(p: &Parser) -> (r: ParseError)
    requires
        p@.wf(),
    ensures
        r is Unexpected,
{
    ParseError::Unexpected(Unexpected(p.cur().duplicate(), p.span()))
}

} // verus!
