//! Command-line options of the gateway.

use vstd::prelude::*;

verus! {

/// `std::path::PathBuf`, carried as it is.
#[verifier::external_type_specification]
#[verifier::external_body]
pub struct ExPathBuf(std::path::PathBuf);

/// What the program is.
pub const ABOUT: &'static str = "OpenSOVD Gateway Server";

/// The server URL where none is given.
pub const DEFAULT_URL: &'static str = "http://localhost:7690/sovd";

/// The JWT signing algorithm where none is given.
pub const DEFAULT_JWT_ALGORITHM: &'static str = "HS512";

/// The JWT issuer where none is given.
pub const DEFAULT_JWT_ISSUER: &'static str = "OpenSOVD";

/// The Zenoh router where none is given.
pub const DEFAULT_ZENOH_ENDPOINT: &'static str = "tcp/host.docker.internal:7447";

/// All options.
#[derive(Debug)]
pub struct Cli {
    /// Server URL including base URI path (e.g., http://host:port/path).
    ///
    /// The host:port is used for TCP binding (ignored when using --unix-socket
    /// or systemd socket activation). The path is used as the base URI for all
    /// API routes.
    pub url: String,
    /// Path to a Unix socket to listen on. Use '@' prefix for abstract sockets.
    /// When specified, the host:port from --url is ignored.
    pub unix_socket: Option<String>,
    pub cors: CorsArgs,
    pub auth: AuthArgs,
    pub zenoh: ZenohArgs,
    pub tls: TlsArgs,
    /// Enable mock entities for testing and development.
    pub mock: bool,
    /// Serve static files from a directory.
    /// Format: PATH:DIRECTORY (e.g., "/ui:./webui/dist")
    pub serve_dir: Option<String>,
}

/// Cross-origin requests.
#[derive(Debug)]
pub struct CorsArgs {
    /// Allowed CORS origins. Use '*' for any origin.
    pub origins: Vec<String>,
    /// Allowed CORS methods. Use '*' for any method.
    pub methods: Vec<String>,
    /// Allowed CORS headers. Use '*' for any header.
    pub headers: Vec<String>,
    /// Allow credentials in CORS requests.
    pub credentials: bool,
    /// Max age for CORS preflight cache in seconds.
    pub max_age: Option<u64>,
}

/// Encrypted connections.
#[derive(Debug)]
pub struct TlsArgs {
    /// Path to the server TLS certificate (PEM format).
    pub cert: Option<std::path::PathBuf>,
    /// Path to the server TLS private key (PEM format).
    pub key: Option<std::path::PathBuf>,
    /// Client CA certificate files; with one or more of them, clients must present a certificate.
    pub client_ca: Vec<std::path::PathBuf>,
}

/// Authentication and authorization.
#[derive(Debug)]
pub struct AuthArgs {
    /// Base64-encoded key for JWT validation (HMAC secret or RSA public key in PKCS#1 DER).
    pub jwt_key: Option<String>,
    /// JWT signing algorithm (HS512 or RS512). Defaults to HS512.
    pub jwt_algo: String,
    /// Expected `iss` (issuer) claim in JWT tokens.
    pub jwt_issuer: String,
    /// Rego policy file.
    pub policy: Vec<std::path::PathBuf>,
    /// JSON data file for Rego policies.
    pub policy_data: Vec<std::path::PathBuf>,
}

/// The Zenoh network.
#[derive(Debug)]
pub struct ZenohArgs {
    /// Zenoh router endpoint to connect to.
    pub endpoint: String,
}

}
