//! Backend endpoint paths and URL construction.

use vstd::prelude::*;

verus! {

use vstd::string::StringExecFns;
use crate::strutil::{dec_str, u64_to_string};

pub const CONFIG_PATH: &'static str = "/api/v1/bus/config";

pub const BATCH_RECORDS_PATH: &'static str = "/api/v1/bus/batchRecords";

pub const CARDS_PATH: &'static str = "/api/v1/cards";

pub const CARD_STATE_BATCH_PATH: &'static str = "/api/v1/cards/stateBatch";

pub const CARD_REGISTER_PATH: &'static str = "/api/v1/cards/register";

/// Where the backend lives.
#[derive(Clone, Debug)]
pub struct ApiConfig {
    pub base_url: String,
}

impl ApiConfig {
    /// The route-config endpoint for one route.
    pub fn config_url(&self, route_id: u16) -> (r: String)
        ensures
            r@ == self.base_url@ + CONFIG_PATH@ + "?route_id="@ + dec_str(route_id as nat),
    {
        let mut url = self.base_url.clone();
        url.append(CONFIG_PATH);
        url.append("?route_id=");
        let n = u64_to_string(route_id as u64);
        url.append(n.as_str());
        url
    }

    /// The batch-upload endpoint.
    pub fn batch_records_url(&self) -> (r: String)
        ensures
            r@ == self.base_url@ + BATCH_RECORDS_PATH@,
    {
        let mut url = self.base_url.clone();
        url.append(BATCH_RECORDS_PATH);
        url
    }
}

} // verus!
