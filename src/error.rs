use vstd::prelude::*;

verus! {

/// The errors of the oracle and of the swap engine.
#[derive(Clone, Debug)]
pub enum ContractError {
    /// A route that cannot be stored or used, with the reason.
    InvalidRoute { reason: String },
    /// A price that cannot be resolved, with the reason.
    InvalidPrice { reason: String },
    /// A price source that cannot be registered, with the reason.
    InvalidPriceSource { reason: String },
    /// Following route assets from the denom went deeper than the registry
    /// has entries, which only a cycle of route assets can cause.
    PriceSourceTooDeep { denom: String },
    /// A slippage above one.
    InvalidSlippage,
    /// `user` may not perform `action`.
    Unauthorized { user: String, action: String },
    /// No route is stored for the pair of denoms.
    RouteNotFound { denom_in: String, denom_out: String },
    /// No price source is registered for the denom.
    PriceSourceNotFound { denom: String },
    /// The liquidity data handed in holds no answer for the denom.
    MissingQuote { denom: String },
    /// A fixed-point or integer operation overflowed.
    Overflow,
}

/// [`ContractError`] with its texts as character sequences.
pub enum ErrorView {
    InvalidRoute { reason: Seq<char> },
    InvalidPrice { reason: Seq<char> },
    InvalidPriceSource { reason: Seq<char> },
    PriceSourceTooDeep { denom: Seq<char> },
    InvalidSlippage,
    Unauthorized { user: Seq<char>, action: Seq<char> },
    RouteNotFound { denom_in: Seq<char>, denom_out: Seq<char> },
    PriceSourceNotFound { denom: Seq<char> },
    MissingQuote { denom: Seq<char> },
    Overflow,
}

impl View for ContractError {
    type V = ErrorView;

    open spec fn view(&self) -> ErrorView {
        match self {
            ContractError::InvalidRoute { reason } => ErrorView::InvalidRoute { reason: reason@ },
            ContractError::InvalidPrice { reason } => ErrorView::InvalidPrice { reason: reason@ },
            ContractError::InvalidPriceSource { reason } => ErrorView::InvalidPriceSource {
                reason: reason@,
            },
            ContractError::PriceSourceTooDeep { denom } => ErrorView::PriceSourceTooDeep {
                denom: denom@,
            },
            ContractError::InvalidSlippage => ErrorView::InvalidSlippage,
            ContractError::Unauthorized { user, action } => ErrorView::Unauthorized {
                user: user@,
                action: action@,
            },
            ContractError::RouteNotFound { denom_in, denom_out } => ErrorView::RouteNotFound {
                denom_in: denom_in@,
                denom_out: denom_out@,
            },
            ContractError::PriceSourceNotFound { denom } => ErrorView::PriceSourceNotFound {
                denom: denom@,
            },
            ContractError::MissingQuote { denom } => ErrorView::MissingQuote { denom: denom@ },
            ContractError::Overflow => ErrorView::Overflow,
        }
    }
}

/// The outcome of a computation that yields a string, seen through views.
pub open spec fn str_view(r: Result<String, ContractError>) -> Result<Seq<char>, ErrorView> {
    match r {
        Ok(v) => Ok(v@),
        Err(e) => Err(e@),
    }
}

/// The error of a check that yields nothing on success, seen through its view.
pub open spec fn check_view(r: Result<(), ContractError>) -> Option<ErrorView> {
    match r {
        Ok(_) => None,
        Err(e) => Some(e@),
    }
}

/// A string whose text is the concatenation of the two parts.
pub fn concat2(a: &str, b: &str) -> (r: String)
    ensures
        r@ == a@ + b@,
{
    let mut s = String::from_str(a);
    s.append(b);
    s
}

/// A string whose text is the concatenation of the three parts.
pub fn concat3(a: &str, b: &str, c: &str) -> (r: String)
    ensures
        r@ == a@ + b@ + c@,
{
    let mut s = String::from_str(a);
    s.append(b);
    s.append(c);
    s
}

/// The text of an error.
pub open spec fn error_text(e: ErrorView) -> Seq<char> {
    match e {
        ErrorView::InvalidRoute { reason } => "Invalid route: "@ + reason,
        ErrorView::InvalidPrice { reason } => "Invalid price: "@ + reason,
        ErrorView::InvalidPriceSource { reason } => "Invalid price source: "@ + reason,
        ErrorView::PriceSourceTooDeep { denom } => "Route assets of "@ + denom
            + " lead deeper than the registry"@,
        ErrorView::InvalidSlippage => "Slippage must not exceed one"@,
        ErrorView::Unauthorized { user, action } => user + " is not authorized to "@ + action,
        ErrorView::RouteNotFound { denom_in, denom_out } => "No route found from "@ + denom_in
            + " to "@ + denom_out,
        ErrorView::PriceSourceNotFound { denom } => "No price source for "@ + denom,
        ErrorView::MissingQuote { denom } => "No liquidity quote for "@ + denom,
        ErrorView::Overflow => "Arithmetic overflow"@,
    }
}

impl ContractError {
    /// The error as text, such as `alice is not authorized to set route`.
    pub fn message(&self) -> (r: String)
        ensures
            r@ == error_text(self@),
    {
        match self {
            ContractError::InvalidRoute { reason } => concat2("Invalid route: ", reason.as_str()),
            ContractError::InvalidPrice { reason } => concat2("Invalid price: ", reason.as_str()),
            ContractError::InvalidPriceSource { reason } => concat2(
                "Invalid price source: ",
                reason.as_str(),
            ),
            ContractError::PriceSourceTooDeep { denom } => concat3(
                "Route assets of ",
                denom.as_str(),
                " lead deeper than the registry",
            ),
            ContractError::InvalidSlippage => String::from_str("Slippage must not exceed one"),
            ContractError::Unauthorized { user, action } => concat3(
                user.as_str(),
                " is not authorized to ",
                action.as_str(),
            ),
            ContractError::RouteNotFound { denom_in, denom_out } => {
                let mut s = concat3("No route found from ", denom_in.as_str(), " to ");
                s.append(denom_out.as_str());
                s
            },
            ContractError::PriceSourceNotFound { denom } => concat2("No price source for ", denom.as_str()),
            ContractError::MissingQuote { denom } => concat2("No liquidity quote for ", denom.as_str()),
            ContractError::Overflow => String::from_str("Arithmetic overflow"),
        }
    }
}

} // verus!
