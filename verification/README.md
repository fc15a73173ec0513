# assinador

Digital signing of PDFs through the VIDaaS cloud-signature service
(ICP-Brasil), as a verified library plus a thin HTTP service.

- `src/` — the library, verified with Verus: PKCE verifier and S256
  challenge (`pkce`), the VIDaaS endpoints and the interpretation of each
  reply (`client`), document preparation and signed-PDF validation
  (`adapter`), provider routing (`dispatcher`), the authorization-flow values
  (`signer`), configuration (`config`), errors (`error`, `port`), and the
  HTTP service's bodies and error answers (`api`). `codec` holds the trusted
  calls into `sha2`, `base64` and `rand`.
- `app/` — the service: reqwest transport to VIDaaS, the async
  `DocumentSigningPort`, the `VidaasSigner` facade, and the axum routes
  (`/health`, `/v1/auth/start`, `/v1/auth/poll`, `/v1/auth/exchange`,
  `/v1/sign`).
- `tests/` — tests of the library on concrete values.
