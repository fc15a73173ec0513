//! Routing of signing requests to the adapter of the right provider.

use vstd::prelude::*;

use crate::port::DocumentSigningError;
use crate::text::{concat2, str_eq};

verus! {

/// The name under which the VIDaaS provider is selected.
pub const VIDAAS_PROVIDER: &'static str = "vidaas";

/// The only provider name that routes is `vidaas`, spelled exactly so.
pub proof fn lemma_vidaas_is_the_provider_name()
    ensures
        VIDAAS_PROVIDER@ == "vidaas"@,
{
}

/// Routes a provider name to its signer; `S` is the signer type (in an
/// application, a shared handle to a `DocumentSigningPort`).
pub struct SigningDispatcher<S> {
    vidaas: S,
}

impl<S> SigningDispatcher<S> {
    /// The signer registered for VIDaaS.
    pub closed spec fn vidaas(&self) -> S {
        self.vidaas
    }

    /// A dispatcher with `vidaas` as the VIDaaS signer.
    pub fn new(vidaas: S) -> (d: Self)
        ensures
            d.vidaas() == vidaas,
    {
        SigningDispatcher { vidaas }
    }

    /// The signer of the provider named `provider`; only `"vidaas"` is
    /// known, any other name is a provider error naming it.
    pub fn get_signer(&self, provider: &str) -> (r: Result<&S, DocumentSigningError>)
        ensures
            (provider@ == VIDAAS_PROVIDER@) <==> r is Ok,
            r matches Ok(s) ==> *s == self.vidaas(),
            r matches Err(e) ==> (e matches DocumentSigningError::ProviderError(m) && m@
                == "Provedor de certificado desconhecido: "@ + provider@),
    {
        if str_eq(provider, VIDAAS_PROVIDER) {
            Ok(&self.vidaas)
        } else {
            Err(
                DocumentSigningError::ProviderError(
                    concat2("Provedor de certificado desconhecido: ", provider),
                ),
            )
        }
    }
}

} // verus!
