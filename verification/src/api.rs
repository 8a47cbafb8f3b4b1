use crate::planner::{FetchPlan, TimeRange};
use vstd::prelude::*;

verus! {

/// Credentials of one customer account at the metering service.
pub struct Account {
    account_number: String,
    api_secret: String,
}

/// Why a request could not be prepared.
#[derive(Debug, Clone, Copy, PartialEq, Eq, Structural)]
pub enum ApiError {
    /// The address of the meter's readings is no URL.
    InvalidUrl,
}

/// What narrows the readings that a request asks for. A field that is `None`
/// is left out of the request.
pub struct QueryParams {
    /// Readings from this instant on, in microseconds since the Unix epoch.
    pub period_from: Option<i64>,
    /// Readings before this instant; needs `period_from` beside it.
    pub period_to: Option<i64>,
    /// How many readings a page holds.
    pub page_size: Option<u32>,
    /// The order of the readings: `period` or `-period`.
    pub order_by: Option<String>,
    /// The span that the consumption is summed over.
    pub group_by: Option<String>,
}

/// A prepared request for the readings of one meter: where it goes, the secret
/// it is authenticated with as the user name, and what it asks for.
pub struct UsageRequest {
    pub url: String,
    pub api_secret: String,
    pub query: QueryParams,
}

/// The serialisation of the URL that `input` parses to as an absolute URL, or
/// `None` where it is none.
pub uninterp spec fn url_parse_result(input: Seq<char>) -> Option<Seq<char>>;

/// The serialisation of the URL that `input` resolves to against the URL that
/// `base` parses to, or `None` where `base` is no absolute URL or `input`
/// cannot be resolved against it.
pub uninterp spec fn url_join_result(base: Seq<char>, input: Seq<char>) -> Option<Seq<char>>;

/// The characters of an optional string.
pub open spec fn text_of(s: Option<String>) -> Option<Seq<char>> {
    match s {
        Some(t) => Some(t@),
        None => None,
    }
}

/// Calls `reqwest::Url::parse`. The contract names what it returns, as the
/// URL's serialisation, and claims only that it depends on `input` alone.
#[verifier::external_body]
fn parse_url(input: &str) -> (url: Option<String>)
    ensures
        text_of(url) == url_parse_result(input@),
{
    reqwest::Url::parse(input).ok().map(String::from)
}

/// Calls `reqwest::Url::join` on the URL that `base` parses to. The contract
/// names what it returns, as the URL's serialisation, and claims only that it
/// depends on `base` and `input` alone.
#[verifier::external_body]
fn join_url(base: &str, input: &str) -> (url: Option<String>)
    ensures
        text_of(url) == url_join_result(base@, input@),
{
    match reqwest::Url::parse(base) {
        Ok(parsed) => parsed.join(input).ok().map(String::from),
        Err(_) => None,
    }
}

/// Where the metering service is reached.
pub open spec fn url_base() -> Seq<char> {
    "https://api.octopus.energy"@
}

/// `input` resolved against `base`, where there is a base.
pub open spec fn joined(base: Option<Seq<char>>, input: Seq<char>) -> Option<Seq<char>> {
    match base {
        Some(b) => url_join_result(b, input),
        None => None,
    }
}

/// The address of the readings of the meter `id` with the serial number
/// `serial`, below the kind of meter points `points`: each part is resolved
/// against what the parts before it gave.
pub open spec fn usage_url(points: Seq<char>, id: Seq<char>, serial: Seq<char>) -> Option<Seq<char>> {
    joined(
        joined(
            joined(joined(joined(url_parse_result(url_base()), points), id + "/"@), "meters/"@),
            serial + "/"@,
        ),
        "consumption/"@,
    )
}

/// Resolves `input` against `base`, where there is a base.
fn join_step(base: Option<String>, input: &str) -> (url: Option<String>)
    ensures
        text_of(url) == joined(text_of(base), input@),
{
    match base {
        Some(b) => join_url(b.as_str(), input),
        None => None,
    }
}

/// Builds the address of the readings of one meter.
fn build_usage_url(points: &str, id: &str, serial: &str) -> (url: Option<String>)
    ensures
        text_of(url) == usage_url(points@, id@, serial@),
{
    let base = parse_url("https://api.octopus.energy");
    let at_points = join_step(base, points);
    let id_dir = id.to_owned().concat("/");
    let at_id = join_step(at_points, id_dir.as_str());
    let at_meters = join_step(at_id, "meters/");
    let serial_dir = serial.to_owned().concat("/");
    let at_serial = join_step(at_meters, serial_dir.as_str());
    join_step(at_serial, "consumption/")
}

impl Account {
    /// The account number as the account was made with it.
    pub closed spec fn number(&self) -> Seq<char> {
        self.account_number@
    }

    /// The secret as the account was made with it.
    pub closed spec fn secret(&self) -> Seq<char> {
        self.api_secret@
    }

    /// Makes an account from its number and its secret, both kept as given.
    pub fn new(account_number: String, api_secret: String) -> (account: Account)
        ensures
            account.number() == account_number@,
            account.secret() == api_secret@,
    {
        Account { account_number, api_secret }
    }

    /// The number of the account.
    pub fn account_number(&self) -> (number: &str)
        ensures
            number@ == self.number(),
    {
        self.account_number.as_str()
    }

    /// The secret to authenticate requests with.
    pub fn api_secret(&self) -> (secret: &str)
        ensures
            secret@ == self.secret(),
    {
        self.api_secret.as_str()
    }
}

impl QueryParams {
    /// Nothing is set.
    pub open spec fn is_empty(&self) -> bool {
        &&& self.period_from is None
        &&& self.period_to is None
        &&& self.page_size is None
        &&& self.order_by is None
        &&& self.group_by is None
    }

    /// Query parameters with nothing set.
    pub fn new() -> (query: QueryParams)
        ensures
            query.is_empty(),
    {
        QueryParams { period_from: None, period_to: None, page_size: None, order_by: None, group_by: None }
    }
}

/// Prepares a request to the address `url`, authenticated with the secret as
/// the user name and no password.
pub fn octopus_request(api_secret: &str, url: String, query: QueryParams) -> (request: UsageRequest)
    ensures
        request.url@ == url@,
        request.api_secret@ == api_secret@,
        request.query == query,
{
    UsageRequest { url, api_secret: api_secret.to_owned(), query }
}

/// Narrows a request to the readings of a range of time, oldest first: from
/// the start of the range on, and before its end. Where the request goes, its
/// secret, the size of its pages and how it groups stay as they are.
pub fn within(request: UsageRequest, range: TimeRange) -> (narrowed: UsageRequest)
    ensures
        narrowed.query.period_from == Some(range.start),
        narrowed.query.period_to == Some(range.end),
        text_of(narrowed.query.order_by) == Some("period"@),
        narrowed.url == request.url,
        narrowed.api_secret == request.api_secret,
        narrowed.query.page_size == request.query.page_size,
        narrowed.query.group_by == request.query.group_by,
{
    let mut narrowed = request;
    narrowed.query.period_from = Some(range.start);
    narrowed.query.period_to = Some(range.end);
    narrowed.query.order_by = Some("period".to_owned());
    narrowed
}

/// The request that a plan asks for: none where nothing is to be fetched, and
/// else the given request narrowed to the range of the plan.
pub fn planned_request(request: UsageRequest, plan: FetchPlan) -> (planned: Option<UsageRequest>)
    ensures
        match plan {
            FetchPlan::NothingToFetch => planned is None,
            FetchPlan::Fetch(range) => planned matches Some(narrowed) && narrowed.query.period_from
                == Some(range.start) && narrowed.query.period_to == Some(range.end)
                && text_of(narrowed.query.order_by) == Some("period"@) && narrowed.url == request.url
                && narrowed.api_secret == request.api_secret && narrowed.query.page_size
                == request.query.page_size && narrowed.query.group_by == request.query.group_by,
        },
{
    match plan {
        FetchPlan::NothingToFetch => None,
        FetchPlan::Fetch(range) => Some(within(request, range)),
    }
}

/// Prepares the request for the readings of an electricity meter, three to a
/// page. It fails where the meter's identifiers do not give a URL.
pub fn electricity_usage(api_secret: &str, electricity_id: &str, electricity_serial: &str) -> (result: Result<UsageRequest, ApiError>)
    ensures
        match usage_url("v1/electricity-meter-points/"@, electricity_id@, electricity_serial@) {
            Some(url) => {
                &&& result matches Ok(request)
                &&& request.url@ == url
                &&& request.api_secret@ == api_secret@
                &&& request.query.page_size == Some(3u32)
                &&& request.query.period_from is None
                &&& request.query.period_to is None
                &&& request.query.order_by is None
                &&& request.query.group_by is None
            },
            None => result == Err::<UsageRequest, ApiError>(ApiError::InvalidUrl),
        },
{
    match build_usage_url("v1/electricity-meter-points/", electricity_id, electricity_serial) {
        Some(url) => {
            let mut query = QueryParams::new();
            query.page_size = Some(3);
            Ok(octopus_request(api_secret, url, query))
        },
        None => Err(ApiError::InvalidUrl),
    }
}

/// Prepares the request for the readings of a gas meter. It fails where the
/// meter's identifiers do not give a URL.
pub fn gas_usage(api_secret: &str, gas_id: &str, gas_serial: &str) -> (result: Result<UsageRequest, ApiError>)
    ensures
        match usage_url("v1/gas-meter-points/"@, gas_id@, gas_serial@) {
            Some(url) => {
                &&& result matches Ok(request)
                &&& request.url@ == url
                &&& request.api_secret@ == api_secret@
                &&& request.query.is_empty()
            },
            None => result == Err::<UsageRequest, ApiError>(ApiError::InvalidUrl),
        },
{
    match build_usage_url("v1/gas-meter-points/", gas_id, gas_serial) {
        Some(url) => Ok(octopus_request(api_secret, url, QueryParams::new())),
        None => Err(ApiError::InvalidUrl),
    }
}

} // verus!
