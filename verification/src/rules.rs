//! Validated, immutable game parameters: code length, alphabet size and a
//! limit policy. The validating constructor is the only way to obtain a
//! `Rules` value, so every reachable value satisfies the invariant.

use vstd::prelude::*;

verus! {

/// Error returned by the validating `Rules` constructor, identifying the
/// parameter that was invalid.
#[derive(Debug)]
pub enum RulesError {
    InvalidCodeLen,
    InvalidLimit,
    InvalidAvailableSymbols,
}

/// Width of a code length.
pub type CodeLen = u8;

/// Limit policy for one game: a fixed attempt budget, a time budget that the
/// surrounding driver enforces with its own clock, or no limitation.
#[derive(Debug, Clone, Copy, PartialEq, Eq, Structural)]
pub enum Limit {
    Attempts { count: u16 },
    Time { seconds: u32 },
    NoLimitation,
}

impl Limit {
    /// A limit policy is valid when its numeric budget, if it has one, is positive.
    pub open spec fn wf(self) -> bool {
        match self {
            Limit::Attempts { count } => count >= 1,
            Limit::Time { seconds } => seconds >= 1,
            Limit::NoLimitation => true,
        }
    }
}

/// Validated game parameters; immutable once constructed.
#[derive(Debug)]
pub struct Rules {
    code_len: CodeLen,
    limit: Limit,
    available_symbols: u8,
}

impl Rules {
    #[verifier::type_invariant]
    spec fn inv(self) -> bool {
        self.code_len >= 1 && self.available_symbols >= 1 && self.limit.wf()
    }

    pub closed spec fn spec_code_len(self) -> u8 {
        self.code_len
    }

    pub closed spec fn spec_limit(self) -> Limit {
        self.limit
    }

    pub closed spec fn spec_available_symbols(self) -> u8 {
        self.available_symbols
    }

    /// What validation guarantees of every `Rules` value: a positive code
    /// length, a positive alphabet size and a valid limit policy.
    pub open spec fn wf(self) -> bool {
        self.spec_code_len() >= 1 && self.spec_available_symbols() >= 1 && self.spec_limit().wf()
    }

    /// Validating constructor: returns a configuration exactly when the code
    /// length, the alphabet size and the limit policy are all valid, and
    /// otherwise the error of the first violation found.
    pub fn new(code_len: CodeLen, limit: Limit, available_symbols: u8) -> (r: Result<Self, RulesError>)
        ensures
            r is Ok <==> (code_len >= 1 && available_symbols >= 1 && limit.wf()),
            r matches Ok(rules) ==> {
                &&& rules.spec_code_len() == code_len
                &&& rules.spec_limit() == limit
                &&& rules.spec_available_symbols() == available_symbols
            },
            code_len == 0 ==> (r matches Err(e) && e is InvalidCodeLen),
            code_len >= 1 && available_symbols == 0 ==> (r matches Err(e) && e is InvalidAvailableSymbols),
            code_len >= 1 && available_symbols >= 1 && !limit.wf() ==> (r matches Err(e) && e is InvalidLimit),
    {
        if code_len == 0 {
            return Err(RulesError::InvalidCodeLen);
        }

        if available_symbols == 0 {
            return Err(RulesError::InvalidAvailableSymbols);
        }

        match limit {
            Limit::Attempts { count } if count == 0 => return Err(RulesError::InvalidLimit),
            Limit::Time { seconds } if seconds == 0 => return Err(RulesError::InvalidLimit),
            _ => {}
        }

        Ok(Rules { code_len, limit, available_symbols })
    }

    pub fn code_len(&self) -> (r: CodeLen)
        ensures
            r == self.spec_code_len(),
            r >= 1,
    {
        proof {
            use_type_invariant(&*self);
        }
        self.code_len
    }

    pub fn limit(&self) -> (r: &Limit)
        ensures
            *r == self.spec_limit(),
            r.wf(),
    {
        proof {
            use_type_invariant(&*self);
        }
        &self.limit
    }

    pub fn available_symbols(&self) -> (r: u8)
        ensures
            r == self.spec_available_symbols(),
            r >= 1,
    {
        proof {
            use_type_invariant(&*self);
        }
        self.available_symbols
    }
}

} // verus!
