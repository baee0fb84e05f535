//! Gamma correction as a response table over the 256 luminance levels.
//!
//! The power law `(v / 255)^gamma * 255` is evaluated once per level, and
//! the table of its results is what the conversion applies. For an exponent
//! given as a fraction the table is evaluated here, exactly. A table
//! evaluated elsewhere, in floating point for one, is taken as it is.

use crate::power_law::{
    gcd_of, is_power_law, lemma_gcd_divides, lemma_power_law_scales, lowest_terms, power_table,
};
use vstd::arithmetic::div_mod::lemma_fundamental_div_mod;
use vstd::prelude::*;

verus! {

/// Number of entries in a response table: one per luminance level.
pub const LEVELS: usize = 256;

/// Largest numerator and denominator, in lowest terms, of an exponent whose
/// response is evaluated here.
pub const MAX_TERM: u32 = 1000;

/// The table that leaves every level where it is: the power law with
/// exponent one.
pub open spec fn identity_table() -> Seq<u8> {
    Seq::new(LEVELS as nat, |level: int| level as u8)
}

/// Why no gamma response is made of a table or of an exponent.
#[derive(Clone, Copy, Debug, PartialEq, Eq, Structural)]
pub enum CurveError {
    /// The table does not have one entry per luminance level.
    Length,
    /// Level 0 is not mapped to 0.
    BlackPoint,
    /// Level 255 is not mapped to 255.
    WhitePoint,
    /// The exponent is not a positive fraction.
    Exponent,
    /// The exponent, in lowest terms, has a term above the largest that is
    /// evaluated.
    TooFine,
}

/// The first reason, if any, for which a table is refused. A power law with
/// a positive exponent keeps 0 at 0 and 255 at 255; an exponent of zero or
/// below moves black, so its table is refused.
pub open spec fn table_fault(table: Seq<u8>) -> Option<CurveError> {
    if table.len() != LEVELS {
        Some(CurveError::Length)
    } else if table[0] != 0 {
        Some(CurveError::BlackPoint)
    } else if table[255] != 255 {
        Some(CurveError::WhitePoint)
    } else {
        None
    }
}

/// The reason, if any, for which no response is evaluated for the exponent
/// `numerator / denominator`.
pub open spec fn exponent_fault(numerator: nat, denominator: nat) -> Option<CurveError> {
    if numerator == 0 || denominator == 0 {
        Some(CurveError::Exponent)
    } else if lowest_terms(numerator, denominator).0 > MAX_TERM || lowest_terms(
        numerator,
        denominator,
    ).1 > MAX_TERM {
        Some(CurveError::TooFine)
    } else {
        None
    }
}

/// What each refusal says.
pub open spec fn fault_text(fault: CurveError) -> Seq<char> {
    match fault {
        CurveError::Length => "gamma table must have 256 entries"@,
        CurveError::BlackPoint => "gamma table must map 0 to 0: the exponent must be positive"@,
        CurveError::WhitePoint => "gamma table must map 255 to 255"@,
        CurveError::Exponent => "gamma must be positive"@,
        CurveError::TooFine => "gamma has too many digits to be evaluated exactly"@,
    }
}

impl CurveError {
    /// A sentence for the user.
    pub fn message(&self) -> (text: &'static str)
        ensures
            text@ == fault_text(*self),
    {
        match self {
            CurveError::Length => "gamma table must have 256 entries",
            CurveError::BlackPoint => "gamma table must map 0 to 0: the exponent must be positive",
            CurveError::WhitePoint => "gamma table must map 255 to 255",
            CurveError::Exponent => "gamma must be positive",
            CurveError::TooFine => "gamma has too many digits to be evaluated exactly",
        }
    }
}

/// A gamma response: entry `v` is the corrected luminance of base
/// luminance `v`.
#[derive(Debug)]
pub struct GammaCurve {
    table: Vec<u8>,
}

impl View for GammaCurve {
    type V = Seq<u8>;

    closed spec fn view(&self) -> Seq<u8> {
        self.table@
    }
}

impl Clone for GammaCurve {
    fn clone(&self) -> (copy: GammaCurve)
        ensures
            copy@ == self@,
    {
        proof {
            use_type_invariant(self);
        }
        GammaCurve { table: self.table.clone() }
    }
}

impl GammaCurve {
    #[verifier::type_invariant]
    spec fn complete(self) -> bool {
        self.table@.len() == LEVELS
    }

    /// The response of exponent one.
    pub fn identity() -> (curve: GammaCurve)
        ensures
            curve@ == identity_table(),
    {
        let mut table: Vec<u8> = Vec::new();
        let mut level: usize = 0;
        while level < LEVELS
            invariant
                level <= LEVELS,
                table@.len() == level,
                forall|i: int| 0 <= i < level ==> table@[i] == i as u8,
            decreases LEVELS - level,
        {
            table.push(level as u8);
            level = level + 1;
        }
        assert(table@ =~= identity_table());
        GammaCurve { table }
    }

    /// The response of the exponent `numerator / denominator`: entry `v` is
    /// the integer part of `255 * (v / 255)^(numerator / denominator)`. An
    /// exponent that is not positive is refused, and so is one whose lowest
    /// terms go beyond `MAX_TERM`.
    pub fn from_exponent(numerator: u32, denominator: u32) -> (outcome: Result<
        GammaCurve,
        CurveError,
    >)
        ensures
            match outcome {
                Ok(curve) => exponent_fault(numerator as nat, denominator as nat) is None
                    && is_power_law(curve@, numerator as nat, denominator as nat),
                Err(fault) => exponent_fault(numerator as nat, denominator as nat) == Some(fault),
            },
    {
        if numerator == 0 || denominator == 0 {
            return Err(CurveError::Exponent);
        }
        let divisor = gcd_of(numerator, denominator);
        proof {
            lemma_gcd_divides(numerator as nat, denominator as nat);
            lemma_fundamental_div_mod(numerator as int, divisor as int);
            lemma_fundamental_div_mod(denominator as int, divisor as int);
        }
        let low_numerator = numerator / divisor;
        let low_denominator = denominator / divisor;
        if low_numerator > MAX_TERM || low_denominator > MAX_TERM {
            return Err(CurveError::TooFine);
        }
        proof {
            assert(low_denominator > 0) by (nonlinear_arith)
                requires
                    denominator == divisor * low_denominator,
                    denominator > 0,
            ;
        }
        let table = power_table(low_numerator, low_denominator);
        proof {
            lemma_power_law_scales(
                table@,
                low_numerator as nat,
                low_denominator as nat,
                divisor as nat,
            );
            assert(low_numerator * divisor == numerator) by (nonlinear_arith)
                requires
                    numerator == divisor * low_numerator,
            ;
            assert(low_denominator * divisor == denominator) by (nonlinear_arith)
                requires
                    denominator == divisor * low_denominator,
            ;
        }
        Ok(GammaCurve { table })
    }

    /// Takes a response table as evaluated elsewhere, refusing one that no
    /// positive exponent can have produced.
    pub fn from_table(table: Vec<u8>) -> (outcome: Result<GammaCurve, CurveError>)
        ensures
            match outcome {
                Ok(curve) => table_fault(table@) is None && curve@ == table@,
                Err(fault) => table_fault(table@) == Some(fault),
            },
    {
        if table.len() != LEVELS {
            Err(CurveError::Length)
        } else if table[0] != 0 {
            Err(CurveError::BlackPoint)
        } else if table[255] != 255 {
            Err(CurveError::WhitePoint)
        } else {
            Ok(GammaCurve { table })
        }
    }

    /// The corrected luminance of a base luminance.
    pub fn apply(&self, level: u8) -> (corrected: u8)
        ensures
            corrected == self@[level as int],
            self@.len() == LEVELS,
    {
        proof {
            use_type_invariant(self);
        }
        self.table[level as usize]
    }

    /// The table, one entry per level.
    pub fn table(&self) -> (entries: &Vec<u8>)
        ensures
            entries@ == self@,
            entries@.len() == LEVELS,
    {
        proof {
            use_type_invariant(self);
        }
        &self.table
    }
}

/// The identity response is a valid table and corrects nothing.
pub proof fn lemma_identity_table()
    ensures
        table_fault(identity_table()) is None,
        forall|level: int| 0 <= level < LEVELS ==> #[trigger] identity_table()[level] == level,
{
}

} // verus!
