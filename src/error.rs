use vstd::prelude::*;

verus! {

/// The ways an analysis step can fail.
#[derive(Debug, Clone, PartialEq, Eq)]
pub enum TradingBotError {
    /// An input was out of its allowed range; never silently corrected.
    InvalidParameter(String),
    /// An operation that is undefined on its inputs.
    Calculation(String),
    /// The probability estimator could not produce statistics.
    Estimation(String),
    /// The market data fetcher failed (transport or a non-success response).
    Fetch(String),
    /// The configuration could not be read.
    Config(String),
    /// Upstream data could not be interpreted.
    DataProcessing(String),
}

impl TradingBotError {
    pub open spec fn is_invalid_parameter(&self) -> bool {
        self is InvalidParameter
    }

    /// An `InvalidParameter` error carrying `msg`.
    pub fn invalid(msg: &str) -> (r: TradingBotError)
        ensures
            r.is_invalid_parameter(),
            r matches TradingBotError::InvalidParameter(m) && m@ == msg@,
    {
        TradingBotError::InvalidParameter(String::from_str(msg))
    }
}

} // verus!
