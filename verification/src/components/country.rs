//! The countries whose competitions can be searched.

use crate::text::{same_text, to_uppercase, uppercased};
use vstd::prelude::*;

verus! {

/// A country, by its two-letter code.
#[derive(Debug, Clone, Copy, PartialEq, Eq, Structural, Hash)]
pub enum Country {
    BE,
    BQ,
    CW,
    FR,
    DE,
    IL,
    NL,
    SX,
    ZA,
    CH,
    GB,
    US,
}

/// A country code that is not among the available countries.
#[derive(Debug, Clone, PartialEq, Eq)]
pub struct UnknownCountry {
    /// The code as it was given.
    pub given: String,
}

/// The country that a code in capitals stands for. The empty code stands for
/// the Netherlands.
pub open spec fn country_of(code: Seq<char>) -> Option<Country> {
    if code == "BE"@ {
        Some(Country::BE)
    } else if code == "BQ"@ {
        Some(Country::BQ)
    } else if code == "CW"@ {
        Some(Country::CW)
    } else if code == "FR"@ {
        Some(Country::FR)
    } else if code == "DE"@ {
        Some(Country::DE)
    } else if code == "IL"@ {
        Some(Country::IL)
    } else if code == "NL"@ {
        Some(Country::NL)
    } else if code == "SX"@ {
        Some(Country::SX)
    } else if code == "ZA"@ {
        Some(Country::ZA)
    } else if code == "CH"@ {
        Some(Country::CH)
    } else if code == "GB"@ {
        Some(Country::GB)
    } else if code == "US"@ {
        Some(Country::US)
    } else if code == ""@ {
        Some(Country::NL)
    } else {
        None
    }
}

/// The two-letter code of a country.
pub open spec fn code_of(country: Country) -> Seq<char> {
    match country {
        Country::BE => "BE"@,
        Country::BQ => "BQ"@,
        Country::CW => "CW"@,
        Country::FR => "FR"@,
        Country::DE => "DE"@,
        Country::IL => "IL"@,
        Country::NL => "NL"@,
        Country::SX => "SX"@,
        Country::ZA => "ZA"@,
        Country::CH => "CH"@,
        Country::GB => "GB"@,
        Country::US => "US"@,
    }
}

/// Every country is read back from its own code.
pub proof fn lemma_code_is_read_back(country: Country)
    ensures
        country_of(code_of(country)) == Some(country),
{
    reveal_strlit("BE");
    reveal_strlit("BQ");
    reveal_strlit("CW");
    reveal_strlit("FR");
    reveal_strlit("DE");
    reveal_strlit("IL");
    reveal_strlit("NL");
    reveal_strlit("SX");
    reveal_strlit("ZA");
    reveal_strlit("CH");
    reveal_strlit("GB");
    reveal_strlit("US");
    let code = code_of(country);
    assert(code.len() == 2);
    assert("BE"@[0] == 'B' && "BE"@[1] == 'E');
    assert("BQ"@[0] == 'B' && "BQ"@[1] == 'Q');
    assert("CW"@[0] == 'C' && "CW"@[1] == 'W');
    assert("FR"@[0] == 'F' && "FR"@[1] == 'R');
    assert("DE"@[0] == 'D' && "DE"@[1] == 'E');
    assert("IL"@[0] == 'I' && "IL"@[1] == 'L');
    assert("NL"@[0] == 'N' && "NL"@[1] == 'L');
    assert("SX"@[0] == 'S' && "SX"@[1] == 'X');
    assert("ZA"@[0] == 'Z' && "ZA"@[1] == 'A');
    assert("CH"@[0] == 'C' && "CH"@[1] == 'H');
    assert("GB"@[0] == 'G' && "GB"@[1] == 'B');
    assert("US"@[0] == 'U' && "US"@[1] == 'S');
}

impl Country {
    /// The country that a code in capitals stands for.
    pub fn from_code(code: &str) -> (r: Option<Country>)
        ensures
            r == country_of(code@),
    {
        if same_text(code, "BE") {
            Some(Country::BE)
        } else if same_text(code, "BQ") {
            Some(Country::BQ)
        } else if same_text(code, "CW") {
            Some(Country::CW)
        } else if same_text(code, "FR") {
            Some(Country::FR)
        } else if same_text(code, "DE") {
            Some(Country::DE)
        } else if same_text(code, "IL") {
            Some(Country::IL)
        } else if same_text(code, "NL") {
            Some(Country::NL)
        } else if same_text(code, "SX") {
            Some(Country::SX)
        } else if same_text(code, "ZA") {
            Some(Country::ZA)
        } else if same_text(code, "CH") {
            Some(Country::CH)
        } else if same_text(code, "GB") {
            Some(Country::GB)
        } else if same_text(code, "US") {
            Some(Country::US)
        } else if same_text(code, "") {
            Some(Country::NL)
        } else {
            None
        }
    }

    /// Reads a country from its code, in any case. No code at all stands for
    /// the Netherlands; a code that is not available is returned in the error.
    pub fn parse(country: &str) -> (r: Result<Country, UnknownCountry>)
        ensures
            match r {
                Ok(found) => country_of(uppercased(country@)) == Some(found),
                Err(e) => country_of(uppercased(country@)) is None && e.given@ == country@,
            },
    {
        let code = to_uppercase(country);
        match Country::from_code(code.as_str()) {
            Some(found) => Ok(found),
            None => Err(UnknownCountry { given: crate::text::copy_of(country) }),
        }
    }

    /// The two-letter code of the country.
    pub fn to_str(&self) -> (r: &'static str)
        ensures
            r@ == code_of(*self),
    {
        match self {
            Country::BE => "BE",
            Country::BQ => "BQ",
            Country::CW => "CW",
            Country::FR => "FR",
            Country::DE => "DE",
            Country::IL => "IL",
            Country::NL => "NL",
            Country::SX => "SX",
            Country::ZA => "ZA",
            Country::CH => "CH",
            Country::GB => "GB",
            Country::US => "US",
        }
    }
}

impl UnknownCountry {
    /// A sentence for the error.
    pub fn message(&self) -> (r: String)
        ensures
            r@ == "country abbriviation ("@ + self.given@ + "): Not in available countries"@,
    {
        let mut out = String::new();
        crate::text::push_text(&mut out, "country abbriviation (");
        crate::text::push_text(&mut out, self.given.as_str());
        crate::text::push_text(&mut out, "): Not in available countries");
        assert(out@ =~= "country abbriviation ("@ + self.given@ + "): Not in available countries"@);
        out
    }
}

} // verus!
