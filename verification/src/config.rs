//! Access configuration of the VIDaaS API.

use vstd::prelude::*;

use crate::error::SigningError;

verus! {

/// The production endpoint, used when no base URL is configured.
pub const DEFAULT_BASE_URL: &'static str = "https://certificado.vidaas.com.br";

/// Credentials and endpoint of the VIDaaS API.
#[derive(Debug, Clone)]
pub struct VidaasConfig {
    pub base_url: String,
    pub client_id: String,
    pub client_secret: String,
}

impl VidaasConfig {
    /// Builds the configuration from the values of the variables
    /// `VIDAAS_BASE_URL` (optional, defaults to production),
    /// `VIDAAS_CLIENT_ID` and `VIDAAS_CLIENT_SECRET`, each `None` when unset.
    /// A missing credential is a configuration error naming it; the client
    /// id is checked first.
    pub fn from_vars(
        base_url: Option<String>,
        client_id: Option<String>,
        client_secret: Option<String>,
    ) -> (r: Result<Self, SigningError>)
        ensures
            client_id is None ==> (r matches Err(SigningError::ConfigError(m))
                && m@ == "VIDAAS_CLIENT_ID not set"@),
            client_id is Some && client_secret is None ==> (r matches Err(
                SigningError::ConfigError(m),
            ) && m@ == "VIDAAS_CLIENT_SECRET not set"@),
            client_id is Some && client_secret is Some ==> (r matches Ok(cfg) && {
                &&& cfg.client_id@ == client_id->0@
                &&& cfg.client_secret@ == client_secret->0@
                &&& cfg.base_url@ == match base_url {
                    Some(u) => u@,
                    None => DEFAULT_BASE_URL@,
                }
            }),
    {
        let base_url = match base_url {
            Some(u) => u,
            None => String::from_str(DEFAULT_BASE_URL),
        };
        let client_id = match client_id {
            Some(id) => id,
            None => {
                return Err(SigningError::ConfigError(String::from_str("VIDAAS_CLIENT_ID not set")));
            },
        };
        let client_secret = match client_secret {
            Some(s) => s,
            None => {
                return Err(SigningError::ConfigError(String::from_str("VIDAAS_CLIENT_SECRET not set")));
            },
        };
        Ok(VidaasConfig { base_url, client_id, client_secret })
    }
}

} // verus!
