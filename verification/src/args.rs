use vstd::prelude::*;

verus! {

/// What the command line hands over: the account, its secret and the two meters.
pub struct Cli {
    /// Account number for the user whose usage we wish to retrieve
    pub account_number: String,
    /// API secret of that account
    pub api_key: String,
    /// Electricity meter MPAN
    pub electricity_id: String,
    /// Electricity meter serial number
    pub electricity_serial: String,
    /// Gas meter MPRN
    pub gas_id: String,
    /// Gas meter serial number
    pub gas_serial: String,
}

} // verus!
