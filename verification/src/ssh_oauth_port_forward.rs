//! Token-based port forwarding: OAuth tokens exchanged for certificates, and
//! the tunnel records the sessions carry.

use vstd::prelude::*;
use vstd::string::StringSliceAdditionalSpecFns;

verus! {

/// The most tunnels of each kind a session set may hold.
pub const MAX_TUNNELS_PER_TYPE: usize = 12;

/// The buffer size reserved for one token.
pub const TOKEN_BUFFER_SIZE: usize = 4096;

/// The buffer size reserved for one certificate.
pub const CERTIFICATE_BUFFER_SIZE: usize = 8192;

/// The longest hostname a tunnel may name.
pub const HOSTNAME_MAX_LEN: usize = 256;

/// How many token providers are supported.
pub const OAUTH_PROVIDERS: usize = 4;

/// The width of the validation state.
pub const QUANTUM_VALIDATION_BITS: usize = 144;

/// The first local port handed out.
pub const DEFAULT_LOCAL_PORT_START: u16 = 10000;

/// The first remote port handed out.
pub const DEFAULT_REMOTE_PORT_START: u16 = 20000;

/// The default port of the dynamic proxy.
pub const DEFAULT_SOCKS_PORT: u16 = 1080;

/// The supported token providers.
#[derive(Debug, Clone, Copy, PartialEq, Eq, Structural)]
pub enum OAuthProvider {
    GitHub,
    Google,
    GitLab,
    Custom,
}

impl OAuthProvider {
    /// Every supported provider is valid.
    pub fn is_valid(&self) -> (r: bool)
        ensures
            r == true,
    {
        true
    }
}

/// The scopes a token may carry.
#[derive(Debug, Clone, Copy, PartialEq, Eq, Structural)]
pub enum OAuthScope {
    SSH,
    Repo,
    User,
}

/// Critical options of a certificate.
#[derive(Debug, Clone, Copy)]
pub enum SSHCriticalOption {
    Unset,
}

/// Extensions of a certificate.
#[derive(Debug, Clone, Copy)]
pub enum SSHExtension {
    Unset,
}

/// Authentication modes of the dynamic proxy.
#[derive(Debug, Clone, Copy)]
pub enum SocksAuth {
    Unset,
    Password,
}

/// Failures of the tunneling system.
#[derive(Debug)]
pub enum SSHError {
    TokenTooLong,
    InvalidToken(&'static str),
    HostnameTooLong,
    NoTunnelSlotsAvailable,
    SSHConnectionFailed,
    NoSessionSlotsAvailable,
    UnimplementedCommand,
}

/// Failures while exchanging a token.
#[derive(Debug)]
pub enum TokenError {
    ExchangeFailed,
}

/// Failures while validating a tunnel.
#[derive(Debug)]
pub enum ValidationError {
    QuantumDecoherence,
}

/// The kinds of tunnel a session can carry.
pub enum TunnelType {
    Local,
    Remote,
    Dynamic,
}

/// What every tunnel kind exposes.
pub trait Tunnel {
    fn tunnel_id(&self) -> u16;

    fn is_active(&self) -> bool;
}

/// The channel the security advisor listens on.
pub struct ConsciousnessChannel;

impl ConsciousnessChannel {
    /// Opens the channel.
    pub fn new() -> (r: Result<Self, SSHError>)
        ensures
            r is Ok,
    {
        Ok(ConsciousnessChannel)
    }

    /// Transmits one projection over the channel.
    pub fn transmit(&self, _p: ConsciousnessProjection) -> (r: Result<(), SSHError>)
        ensures
            r == Ok::<(), SSHError>(()),
    {
        Ok(())
    }

    /// Receives the advisor's current security influence.
    pub fn receive_security(&self) -> (r: Result<SecurityInfluence, SSHError>)
        ensures
            r matches Ok(s) ==> s.threat_level == 0 && s.recommended_action == 0,
            r is Ok,
    {
        Ok(SecurityInfluence { threat_level: 0, recommended_action: 0 })
    }
}

/// Encodes tunnels into projection patterns.
pub struct TunnelProjection;

impl TunnelProjection {
    /// An encoder with default settings.
    pub fn new() -> (r: Self)
    {
        TunnelProjection
    }

    /// The pattern of one tunnel; every tunnel maps to the neutral pattern.
    pub fn encode<T: Tunnel>(&self, _t: &T) -> (r: Result<u32, SSHError>)
        ensures
            r == Ok::<u32, SSHError>(0),
    {
        Ok(0)
    }
}

/// The security posture the advisor adjusts.
pub struct SecurityContext;

impl SecurityContext {
    /// The most restrictive posture.
    pub fn highest() -> (r: Self)
    {
        SecurityContext
    }

    /// Adjusts the posture to a threat level and recommended action.
    pub fn adjust(&mut self, _level: u8, _action: u8) -> (r: Result<(), SSHError>)
        ensures
            r == Ok::<(), SSHError>(()),
    {
        Ok(())
    }
}

/// A projection of tunnel patterns awaiting transmission.
pub struct ConsciousnessProjection;

impl ConsciousnessProjection {
    /// An empty projection.
    pub fn new() -> (r: Self)
    {
        ConsciousnessProjection
    }

    /// Adds one encoded pattern to the projection.
    pub fn add_pattern(&mut self, _p: u32)
    {
    }
}

/// The advisor's verdict on the current threat.
pub struct SecurityInfluence {
    pub threat_level: u8,
    pub recommended_action: u8,
}

/// One registered token with its buffers and scopes.
#[derive(Debug, Clone, Copy)]
pub struct OAuthToken {
    pub provider: OAuthProvider,
    pub token_data: [u8; TOKEN_BUFFER_SIZE],
    pub token_length: usize,
    pub issued_at: u64,
    pub expires_at: u64,
    pub refresh_token: Option<[u8; TOKEN_BUFFER_SIZE]>,
    pub refresh_token_length: usize,
    pub scopes: [OAuthScope; 8],
    pub scope_count: u8,
}

impl OAuthToken {
    /// Whether the token is live at `current_time`: issued, not expired, of a
    /// sensible length, and from a valid provider.
    pub fn is_valid(&self, current_time: u64) -> (r: bool)
        ensures
            r == (current_time >= self.issued_at && current_time < self.expires_at
                && self.token_length > 0 && self.token_length <= TOKEN_BUFFER_SIZE),
    {
        if current_time < self.issued_at {
            return false;
        }
        if current_time >= self.expires_at {
            return false;
        }
        if self.token_length == 0 || self.token_length > TOKEN_BUFFER_SIZE {
            return false;
        }
        if !self.provider.is_valid() {
            return false;
        }
        true
    }

    /// Exchanges the token for a certificate at its provider; every
    /// supported provider answers with a blank certificate awaiting material.
    pub fn exchange_for_ssh_certificate(&self) -> (r: Result<SSHCertificate, TokenError>)
        ensures
            r matches Ok(c) ==> spec_blank_certificate(c),
            r is Ok,
    {
        match self.provider {
            OAuthProvider::GitHub => Ok(SSHCertificate::empty()),
            OAuthProvider::Google => Ok(SSHCertificate::empty()),
            OAuthProvider::GitLab => Ok(SSHCertificate::empty()),
            OAuthProvider::Custom => Ok(SSHCertificate::empty()),
        }
    }
}

/// A certificate whose every buffer is zeroed and every length and bound is
/// zero.
pub open spec fn spec_blank_certificate(c: SSHCertificate) -> bool {
    &&& c.certificate_data@ == Seq::<u8>::new(CERTIFICATE_BUFFER_SIZE as nat, |i: int| 0u8)
    &&& c.certificate_length == 0
    &&& c.public_key@ == Seq::<u8>::new(512, |i: int| 0u8)
    &&& c.private_key_encrypted@ == Seq::<u8>::new(4096, |i: int| 0u8)
    &&& c.valid_from == 0
    &&& c.valid_until == 0
    &&& c.principal@ == Seq::<u8>::new(128, |i: int| 0u8)
    &&& c.principal_length == 0
    &&& c.signature@ == Seq::<u8>::new(512, |i: int| 0u8)
}

/// A certificate with its key material and constraints.
#[derive(Debug, Clone)]
pub struct SSHCertificate {
    pub certificate_data: [u8; CERTIFICATE_BUFFER_SIZE],
    pub certificate_length: usize,
    pub public_key: [u8; 512],
    pub private_key_encrypted: [u8; 4096],
    pub valid_from: u64,
    pub valid_until: u64,
    pub principal: [u8; 128],
    pub principal_length: usize,
    pub critical_options: [SSHCriticalOption; 4],
    pub extensions: [SSHExtension; 8],
    pub signature: [u8; 512],
}

impl SSHCertificate {
    /// A zeroed certificate awaiting material.
    pub fn empty() -> (r: Self)
        ensures
            spec_blank_certificate(r),
    {
        let r = SSHCertificate {
            certificate_data: [0; CERTIFICATE_BUFFER_SIZE],
            certificate_length: 0,
            public_key: [0; 512],
            private_key_encrypted: [0; 4096],
            valid_from: 0,
            valid_until: 0,
            principal: [0; 128],
            principal_length: 0,
            critical_options: [SSHCriticalOption::Unset; 4],
            extensions: [SSHExtension::Unset; 8],
            signature: [0; 512],
        };
        proof {
            assert(r.certificate_data@ =~= Seq::<u8>::new(CERTIFICATE_BUFFER_SIZE as nat,
                |i: int| 0u8));
            assert(r.public_key@ =~= Seq::<u8>::new(512, |i: int| 0u8));
            assert(r.private_key_encrypted@ =~= Seq::<u8>::new(4096, |i: int| 0u8));
            assert(r.principal@ =~= Seq::<u8>::new(128, |i: int| 0u8));
            assert(r.signature@ =~= Seq::<u8>::new(512, |i: int| 0u8));
        }
        r
    }
}

impl Default for SSHCertificate {
    /// The zeroed certificate.
    fn default() -> (r: Self)
        ensures
            spec_blank_certificate(r),
    {
        SSHCertificate::empty()
    }
}

/// A tunnel forwarding a local port to a remote endpoint.
#[derive(Debug, Clone, Copy)]
pub struct LocalTunnel {
    pub tunnel_id: u16,
    pub local_port: u16,
    pub remote_host: [u8; HOSTNAME_MAX_LEN],
    pub remote_host_len: usize,
    pub remote_port: u16,
    pub active: bool,
    pub bytes_forwarded: u64,
    pub connections_count: u32,
    pub last_activity: u64,
    pub ssh_session_id: u32,
}

impl Tunnel for LocalTunnel {
    fn tunnel_id(&self) -> u16 {
        self.tunnel_id
    }

    fn is_active(&self) -> bool {
        self.active
    }
}

/// A tunnel forwarding a remote port back to a local endpoint.
#[derive(Debug, Clone, Copy)]
pub struct RemoteTunnel {
    pub tunnel_id: u16,
    pub remote_port: u16,
    pub local_host: [u8; HOSTNAME_MAX_LEN],
    pub local_host_len: usize,
    pub local_port: u16,
    pub active: bool,
    pub bytes_forwarded: u64,
    pub connections_count: u32,
    pub last_activity: u64,
    pub ssh_session_id: u32,
}

impl Tunnel for RemoteTunnel {
    fn tunnel_id(&self) -> u16 {
        self.tunnel_id
    }

    fn is_active(&self) -> bool {
        self.active
    }
}

/// A dynamic proxy tunnel.
#[derive(Debug, Clone, Copy)]
pub struct DynamicTunnel {
    pub tunnel_id: u16,
    pub socks_port: u16,
    pub active: bool,
    pub bytes_forwarded: u64,
    pub connections_count: u32,
    pub last_activity: u64,
    pub ssh_session_id: u32,
    pub socks_version: u8,
    pub authentication: SocksAuth,
}

impl Tunnel for DynamicTunnel {
    fn tunnel_id(&self) -> u16 {
        self.tunnel_id
    }

    fn is_active(&self) -> bool {
        self.active
    }
}

/// One session and the tunnels it carries.
#[derive(Debug, Clone)]
pub struct SSHSession {
    pub session_id: u32,
    pub host: [u8; HOSTNAME_MAX_LEN],
    pub host_len: usize,
    pub port: u16,
    pub username: [u8; 64],
    pub username_len: usize,
    pub certificate: SSHCertificate,
    pub connection_start: u64,
    pub last_keepalive: u64,
    pub tunnels: [Option<u16>; 36],
    pub tunnel_count: u8,
    pub bytes_in: u64,
    pub bytes_out: u64,
    pub alive: bool,
}

impl SSHSession {
    /// Asks the session to forward a local port; the transport is supplied
    /// by the embedding program.
    pub fn setup_local_forwarding(&self, _lp: u16, _rh: &str, _rp: u16)
        -> (r: Result<(), SSHError>)
        ensures
            r == Ok::<(), SSHError>(()),
    {
        Ok(())
    }
}

/// The link to the sibling constitution.
pub struct QuartoCaminhoLink;

impl QuartoCaminhoLink {
    /// Establishes the link.
    pub fn establish() -> (r: Result<Self, SSHError>)
        ensures
            r is Ok,
    {
        Ok(QuartoCaminhoLink)
    }

    /// Synchronises over the link.
    pub fn sync(&mut self) -> (r: Result<(), SSHError>)
        ensures
            r == Ok::<(), SSHError>(()),
    {
        Ok(())
    }
}

/// The outcome of registering a token.
pub struct TokenRegistration {
    pub provider: OAuthProvider,
    pub token_valid_until: u64,
    pub certificate_valid_until: u64,
    pub scopes_granted: Vec<OAuthScope>,
}

/// The outcome of creating a tunnel.
pub struct TunnelCreation {
    pub tunnel_id: u16,
    pub tunnel_type: TunnelType,
    pub local_port: u16,
    pub remote_host: String,
    pub remote_port: u16,
    pub ssh_session_id: u32,
}

/// The flags and counts of the tunneling system.
pub struct TunnelingReport {
    pub oauth_token_exchange: bool,
    pub local_forward_l: bool,
    pub remote_forward_r: bool,
    pub dynamic_socks_d: bool,
    pub local_tunnel_count: u32,
    pub remote_tunnel_count: u32,
    pub dynamic_tunnel_count: u32,
    pub total_bytes_forwarded: u64,
    pub secure_tunneling: bool,
}

/// What one maintenance pass touched.
pub struct MaintenanceSummary {
    pub tokens_refreshed: u32,
    pub tunnels_checked: u32,
    pub tunnels_closed: u32,
    pub sessions_reconnected: u32,
    pub bytes_forwarded_since_last: u64,
}

/// The slot a provider's token and certificate live in.
pub open spec fn spec_provider_index(p: OAuthProvider) -> int {
    match p {
        OAuthProvider::GitHub => 0,
        OAuthProvider::Google => 1,
        OAuthProvider::GitLab => 2,
        OAuthProvider::Custom => 3,
    }
}

/// The slot a provider's token and certificate live in.
pub fn provider_index(p: OAuthProvider) -> (r: usize)
    ensures
        r == spec_provider_index(p),
        r < OAUTH_PROVIDERS,
{
    match p {
        OAuthProvider::GitHub => 0,
        OAuthProvider::Google => 1,
        OAuthProvider::GitLab => 2,
        OAuthProvider::Custom => 3,
    }
}

/// How many tunnels of a run are present and active.
pub open spec fn spec_active_locals(s: Seq<Option<LocalTunnel>>) -> int
    decreases s.len(),
{
    if s.len() == 0 {
        0
    } else {
        (if (s[0] matches Some(t) && t.active) { 1int } else { 0int })
            + spec_active_locals(s.drop_first())
    }
}

/// Relies on slice::copy_from_slice: copies a token's bytes into the front
/// of a zeroed buffer.
#[verifier::external_body]
fn fill_token_buffer(data: &[u8]) -> (r: [u8; TOKEN_BUFFER_SIZE])
    requires
        data@.len() <= TOKEN_BUFFER_SIZE,
    ensures
        r@.subrange(0, data@.len() as int) == data@,
{
    let mut buffer = [0u8; TOKEN_BUFFER_SIZE];
    buffer[..data.len()].copy_from_slice(data);
    buffer
}

/// Relies on slice::copy_from_slice: copies a hostname's bytes into the
/// front of a zeroed buffer.
#[verifier::external_body]
fn fill_host_buffer(host: &str) -> (r: [u8; HOSTNAME_MAX_LEN])
    requires
        host.spec_bytes().len() <= HOSTNAME_MAX_LEN,
    ensures
        r@.subrange(0, host.spec_bytes().len() as int) == host.spec_bytes(),
{
    let mut buffer = [0u8; HOSTNAME_MAX_LEN];
    buffer[..host.len()].copy_from_slice(host.as_bytes());
    buffer
}

/// How many tunnels of a run are present and active.
pub open spec fn spec_active_remotes(s: Seq<Option<RemoteTunnel>>) -> int
    decreases s.len(),
{
    if s.len() == 0 {
        0
    } else {
        (if (s[0] matches Some(t) && t.active) { 1int } else { 0int })
            + spec_active_remotes(s.drop_first())
    }
}

/// How many tunnels of a run are present and active.
pub open spec fn spec_active_dynamics(s: Seq<Option<DynamicTunnel>>) -> int
    decreases s.len(),
{
    if s.len() == 0 {
        0
    } else {
        (if (s[0] matches Some(t) && t.active) { 1int } else { 0int })
            + spec_active_dynamics(s.drop_first())
    }
}

/// The token-based port-forwarding system: per-provider tokens and
/// certificates, and bounded runs of tunnel and session slots.
pub struct SSHOAuthConstitution {
    pub oauth_tokens: Vec<Option<OAuthToken>>,
    pub ssh_certificates: Vec<Option<SSHCertificate>>,
    pub local_tunnels: Vec<Option<LocalTunnel>>,
    pub remote_tunnels: Vec<Option<RemoteTunnel>>,
    pub dynamic_tunnels: Vec<Option<DynamicTunnel>>,
    pub ssh_sessions: Vec<Option<SSHSession>>,
    pub oauth_token_exchange: bool,
    pub local_forward_l: bool,
    pub remote_forward_r: bool,
    pub dynamic_socks_d: bool,
    pub tunnels_active_count: u32,
    pub bytes_forwarded_total: u64,
    pub failed_connections: u32,
    pub successful_connections: u32,
    pub quarto_caminho_ssh_link: Option<QuartoCaminhoLink>,
    pub last_token_refresh: u64,
    pub last_tunnel_check: u64,
}

impl SSHOAuthConstitution {
    /// The slot runs keep the sizes they were built with.
    pub open spec fn wf(&self) -> bool {
        &&& self.oauth_tokens@.len() == OAUTH_PROVIDERS
        &&& self.ssh_certificates@.len() == OAUTH_PROVIDERS
        &&& self.local_tunnels@.len() == MAX_TUNNELS_PER_TYPE
        &&& self.remote_tunnels@.len() == MAX_TUNNELS_PER_TYPE
        &&& self.dynamic_tunnels@.len() == MAX_TUNNELS_PER_TYPE
        &&& self.ssh_sessions@.len() == 8
    }

    /// An empty system: no tokens, certificates, tunnels or sessions, every
    /// flag down, and the sibling link established.
    pub fn new() -> (r: Result<Self, SSHError>)
        ensures
            r matches Ok(c) ==> {
                &&& c.wf()
                &&& !c.oauth_token_exchange
                &&& !c.local_forward_l
                &&& c.tunnels_active_count == 0
                &&& c.bytes_forwarded_total == 0
                &&& forall|j: int| 0 <= j < OAUTH_PROVIDERS
                    ==> (#[trigger] c.oauth_tokens@[j]) is None
                &&& forall|j: int| 0 <= j < MAX_TUNNELS_PER_TYPE
                    ==> (#[trigger] c.local_tunnels@[j]) is None
            },
            r is Ok,
    {
        let link = match QuartoCaminhoLink::establish() {
            Ok(l) => l,
            Err(e) => {
                return Err(e);
            },
        };
        let mut oauth_tokens: Vec<Option<OAuthToken>> = Vec::new();
        let mut ssh_certificates: Vec<Option<SSHCertificate>> = Vec::new();
        let mut k: usize = 0;
        while k < OAUTH_PROVIDERS
            invariant
                k <= OAUTH_PROVIDERS,
                oauth_tokens@.len() == k,
                ssh_certificates@.len() == k,
                forall|j: int| 0 <= j < k ==> (#[trigger] oauth_tokens@[j]) is None,
                forall|j: int| 0 <= j < k ==> (#[trigger] ssh_certificates@[j]) is None,
            decreases OAUTH_PROVIDERS - k,
        {
            oauth_tokens.push(None);
            ssh_certificates.push(None);
            k = k + 1;
        }
        let mut local_tunnels: Vec<Option<LocalTunnel>> = Vec::new();
        let mut remote_tunnels: Vec<Option<RemoteTunnel>> = Vec::new();
        let mut dynamic_tunnels: Vec<Option<DynamicTunnel>> = Vec::new();
        let mut t: usize = 0;
        while t < MAX_TUNNELS_PER_TYPE
            invariant
                t <= MAX_TUNNELS_PER_TYPE,
                local_tunnels@.len() == t,
                remote_tunnels@.len() == t,
                dynamic_tunnels@.len() == t,
                forall|j: int| 0 <= j < t ==> (#[trigger] local_tunnels@[j]) is None,
            decreases MAX_TUNNELS_PER_TYPE - t,
        {
            local_tunnels.push(None);
            remote_tunnels.push(None);
            dynamic_tunnels.push(None);
            t = t + 1;
        }
        let mut ssh_sessions: Vec<Option<SSHSession>> = Vec::new();
        let mut u: usize = 0;
        while u < 8
            invariant
                u <= 8,
                ssh_sessions@.len() == u,
            decreases 8 - u,
        {
            ssh_sessions.push(None);
            u = u + 1;
        }
        Ok(SSHOAuthConstitution {
            oauth_tokens,
            ssh_certificates,
            local_tunnels,
            remote_tunnels,
            dynamic_tunnels,
            ssh_sessions,
            oauth_token_exchange: false,
            local_forward_l: false,
            remote_forward_r: false,
            dynamic_socks_d: false,
            tunnels_active_count: 0,
            bytes_forwarded_total: 0,
            failed_connections: 0,
            successful_connections: 0,
            quarto_caminho_ssh_link: Some(link),
            last_token_refresh: 0,
            last_tunnel_check: 0,
        })
    }

    /// Registers a provider's token, exchanges it for a certificate, and
    /// fills the provider's slots.
    ///
    /// A token or refresh token longer than the token buffer is rejected as
    /// too long with nothing changed; otherwise the token expires an hour
    /// after `now` and the blank certificate takes the certificate slot.
    pub fn register_oauth_token(&mut self, provider: OAuthProvider, token_data: &[u8],
        refresh_token: Option<&[u8]>, scopes: &[OAuthScope], now: u64)
        -> (r: Result<TokenRegistration, SSHError>)
        requires
            old(self).wf(),
            now + 3600 <= u64::MAX,
        ensures
            final(self).wf(),
            token_data@.len() > TOKEN_BUFFER_SIZE ==> {
                &&& (r matches Err(e) && e matches SSHError::TokenTooLong)
                &&& *final(self) == *old(self)
            },
            token_data@.len() <= TOKEN_BUFFER_SIZE
                && (refresh_token matches Some(t) && t@.len() > TOKEN_BUFFER_SIZE) ==> {
                &&& (r matches Err(e) && e matches SSHError::TokenTooLong)
                &&& *final(self) == *old(self)
            },
            token_data@.len() <= TOKEN_BUFFER_SIZE
                && (refresh_token matches Some(t) ==> t@.len() <= TOKEN_BUFFER_SIZE)
                ==> {
                &&& (r matches Ok(reg) && {
                    &&& reg.provider == provider
                    &&& reg.token_valid_until == now + 3600
                    &&& reg.certificate_valid_until == 0
                    &&& reg.scopes_granted@ == scopes@
                })
                &&& (final(self).oauth_tokens@[spec_provider_index(provider)]
                    matches Some(tok) && tok.provider == provider
                    && tok.token_length == token_data@.len()
                    && tok.token_data@.subrange(0, token_data@.len() as int)
                        == token_data@
                    && tok.issued_at == now && tok.expires_at == now + 3600)
                &&& (final(self).ssh_certificates@[spec_provider_index(provider)]
                    matches Some(c) && spec_blank_certificate(c))
                &&& final(self).oauth_token_exchange
            },
    {
        if token_data.len() > TOKEN_BUFFER_SIZE {
            return Err(SSHError::TokenTooLong);
        }
        let mut token = OAuthToken {
            provider,
            token_data: fill_token_buffer(token_data),
            token_length: token_data.len(),
            issued_at: now,
            expires_at: now + 3600,
            refresh_token: None,
            refresh_token_length: 0,
            scopes: [OAuthScope::SSH; 8],
            scope_count: if scopes.len() > 8 { 8u8 } else { scopes.len() as u8 },
        };
        match refresh_token {
            Some(refresh) => {
                if refresh.len() > TOKEN_BUFFER_SIZE {
                    return Err(SSHError::TokenTooLong);
                }
                token.refresh_token = Some(fill_token_buffer(refresh));
                token.refresh_token_length = refresh.len();
            },
            None => {},
        }
        let certificate = match token.exchange_for_ssh_certificate() {
            Ok(c) => c,
            Err(_) => {
                return Err(SSHError::InvalidToken("Exchange failed"));
            },
        };
        let index = provider_index(provider);
        let token_valid_until = token.expires_at;
        let certificate_valid_until = certificate.valid_until;
        let token_slot = vstd::std_specs::vec::vec_index_mut(&mut self.oauth_tokens,
            index);
        *token_slot = Some(token);
        let cert_slot = vstd::std_specs::vec::vec_index_mut(&mut self.ssh_certificates,
            index);
        *cert_slot = Some(certificate);
        self.oauth_token_exchange = true;
        let mut scopes_granted: Vec<OAuthScope> = Vec::new();
        let mut k: usize = 0;
        while k < scopes.len()
            invariant
                k <= scopes@.len(),
                scopes_granted@.len() == k,
                forall|j: int| 0 <= j < k ==> #[trigger] scopes_granted@[j] == scopes@[j],
            decreases scopes@.len() - k,
        {
            scopes_granted.push(scopes[k]);
            k = k + 1;
        }
        proof {
            assert(scopes_granted@ =~= scopes@);
        }
        Ok(TokenRegistration {
            provider,
            token_valid_until,
            certificate_valid_until,
            scopes_granted,
        })
    }

    /// The first free local tunnel slot, when one is open.
    fn find_free_local_slot(&self) -> (r: Result<usize, SSHError>)
        requires
            self.wf(),
        ensures
            r matches Ok(i) ==> i < MAX_TUNNELS_PER_TYPE
                && self.local_tunnels@[i as int] is None,
            r matches Err(e) ==> e matches SSHError::NoTunnelSlotsAvailable
                && (forall|j: int| 0 <= j < MAX_TUNNELS_PER_TYPE
                    ==> (#[trigger] self.local_tunnels@[j]) is Some),
    {
        let mut i: usize = 0;
        while i < MAX_TUNNELS_PER_TYPE
            invariant
                self.wf(),
                i <= MAX_TUNNELS_PER_TYPE,
                forall|j: int| 0 <= j < i ==> (#[trigger] self.local_tunnels@[j]) is Some,
            decreases MAX_TUNNELS_PER_TYPE - i,
        {
            if self.local_tunnels[i].is_none() {
                return Ok(i);
            }
            i = i + 1;
        }
        Err(SSHError::NoTunnelSlotsAvailable)
    }

    /// Creates a local forwarding tunnel under a provider's certificate.
    ///
    /// An over-long hostname is rejected; a provider without a certificate is
    /// rejected as an invalid token; a full tunnel run is rejected for want
    /// of slots; otherwise the tunnel takes a free slot, active, and the
    /// active count rises by one.
    #[verifier::rlimit(100)]
    #[verifier::spinoff_prover]
    pub fn create_local_tunnel(&mut self, local_port: u16, remote_host_str: &str,
        remote_port: u16, ssh_host: &str, ssh_port: u16, provider: OAuthProvider,
        now: u64) -> (r: Result<TunnelCreation, SSHError>)
        requires
            old(self).wf(),
        ensures
            final(self).wf(),
            remote_host_str.spec_bytes().len() > HOSTNAME_MAX_LEN
                || ssh_host.spec_bytes().len() > HOSTNAME_MAX_LEN
                ==> (r matches Err(e) && e matches SSHError::HostnameTooLong)
                    && *final(self) == *old(self),
            r matches Ok(t) ==> {
                &&& t.tunnel_id == 1
                &&& t.tunnel_type is Local
                &&& t.local_port == local_port
                &&& t.remote_host@ == remote_host_str@
                &&& t.remote_port == remote_port
                &&& final(self).local_forward_l
                &&& exists|j: int| 0 <= j < MAX_TUNNELS_PER_TYPE
                    && ((#[trigger] final(self).local_tunnels@[j]) matches Some(tun)
                        && tun.active && tun.local_port == local_port
                        && tun.remote_port == remote_port)
            },
            old(self).ssh_certificates@[spec_provider_index(provider)] is None
                && remote_host_str.spec_bytes().len() <= HOSTNAME_MAX_LEN
                && ssh_host.spec_bytes().len() <= HOSTNAME_MAX_LEN
                ==> (r matches Err(e) && e matches SSHError::InvalidToken(_))
                    && *final(self) == *old(self),
    {
        if remote_host_str.as_bytes().len() > HOSTNAME_MAX_LEN
            || ssh_host.as_bytes().len() > HOSTNAME_MAX_LEN {
            return Err(SSHError::HostnameTooLong);
        }
        let index = provider_index(provider);
        let certificate = match &self.ssh_certificates[index] {
            Some(c) => c.clone(),
            None => {
                return Err(SSHError::InvalidToken("No cert"));
            },
        };
        let slot = match self.find_free_local_slot() {
            Ok(i) => i,
            Err(e) => {
                return Err(e);
            },
        };
        let session_id = match self.establish_ssh_session(ssh_host, ssh_port,
            &certificate, now) {
            Ok(id) => id,
            Err(e) => {
                return Err(e);
            },
        };
        let remote_host = fill_host_buffer(remote_host_str);
        let tunnel = LocalTunnel {
            tunnel_id: 1,
            local_port,
            remote_host,
            remote_host_len: remote_host_str.len(),
            remote_port,
            active: true,
            bytes_forwarded: 0,
            connections_count: 0,
            last_activity: now,
            ssh_session_id: session_id,
        };
        let slot_ref = vstd::std_specs::vec::vec_index_mut(&mut self.local_tunnels, slot);
        *slot_ref = Some(tunnel);
        proof {
            assert(self.local_tunnels@[slot as int] matches Some(tun) && tun.active
                && tun.local_port == local_port && tun.remote_port == remote_port);
        }
        if self.tunnels_active_count < u32::MAX {
            self.tunnels_active_count = self.tunnels_active_count + 1;
        }
        self.local_forward_l = true;
        proof {
            assert(self.local_tunnels@[slot as int] matches Some(tun) && tun.active
                && tun.local_port == local_port && tun.remote_port == remote_port);
        }
        Ok(TunnelCreation {
            tunnel_id: 1,
            tunnel_type: TunnelType::Local,
            local_port,
            remote_host: remote_host_str.to_owned(),
            remote_port,
            ssh_session_id: session_id,
        })
    }

    /// Reuses the session already bound to the host, or fills a free session
    /// slot with a fresh one.
    fn establish_ssh_session(&mut self, host: &str, port: u16,
        certificate: &SSHCertificate, now: u64) -> (r: Result<u32, SSHError>)
        requires
            old(self).wf(),
            host.spec_bytes().len() <= HOSTNAME_MAX_LEN,
        ensures
            final(self).wf(),
            final(self).oauth_tokens == old(self).oauth_tokens,
            final(self).ssh_certificates == old(self).ssh_certificates,
            final(self).local_tunnels == old(self).local_tunnels,
            final(self).local_forward_l == old(self).local_forward_l,
            final(self).tunnels_active_count == old(self).tunnels_active_count,
            r matches Err(e) ==> e matches SSHError::NoSessionSlotsAvailable,
    {
        let mut i: usize = 0;
        while i < 8
            invariant
                self.wf(),
                i <= 8,
                *self == *old(self),
            decreases 8 - i,
        {
            let matched = match &self.ssh_sessions[i] {
                Some(sess) => {
                    let bound = if sess.host_len <= HOSTNAME_MAX_LEN {
                        sess.host_len
                    } else {
                        HOSTNAME_MAX_LEN
                    };
                    crate::wire::bytes_eq(&sess.host[0..bound], host.as_bytes())
                },
                None => false,
            };
            if matched {
                let refreshed = match &self.ssh_sessions[i] {
                    Some(sess) => sess.session_id,
                    None => 0,
                };
                let slot = vstd::std_specs::vec::vec_index_mut(&mut self.ssh_sessions, i);
                match slot {
                    Some(sess) => {
                        sess.last_keepalive = now;
                    },
                    None => {},
                }
                return Ok(refreshed);
            }
            i = i + 1;
        }
        let mut j: usize = 0;
        while j < 8
            invariant
                self.wf(),
                j <= 8,
                *self == *old(self),
                host.spec_bytes().len() <= HOSTNAME_MAX_LEN,
            decreases 8 - j,
        {
            if self.ssh_sessions[j].is_none() {
                let session = SSHSession {
                    session_id: 1,
                    host: fill_host_buffer(host),
                    host_len: host.len(),
                    port,
                    username: [0u8; 64],
                    username_len: certificate.principal_length,
                    certificate: certificate.clone(),
                    connection_start: now,
                    last_keepalive: now,
                    tunnels: [None; 36],
                    tunnel_count: 0,
                    bytes_in: 0,
                    bytes_out: 0,
                    alive: true,
                };
                let slot = vstd::std_specs::vec::vec_index_mut(&mut self.ssh_sessions, j);
                *slot = Some(session);
                return Ok(1);
            }
            j = j + 1;
        }
        Err(SSHError::NoSessionSlotsAvailable)
    }

    /// The current flags and active-tunnel counts; tunneling is secure
    /// exactly while a token has been exchanged.
    pub fn secure_tunneling_active(&self) -> (r: TunnelingReport)
        requires
            self.wf(),
        ensures
            r.oauth_token_exchange == self.oauth_token_exchange,
            r.local_forward_l == self.local_forward_l,
            r.remote_forward_r == self.remote_forward_r,
            r.dynamic_socks_d == self.dynamic_socks_d,
            r.total_bytes_forwarded == self.bytes_forwarded_total,
            r.secure_tunneling == self.oauth_token_exchange,
            r.local_tunnel_count == spec_active_locals(self.local_tunnels@),
            r.remote_tunnel_count == spec_active_remotes(self.remote_tunnels@),
            r.dynamic_tunnel_count == spec_active_dynamics(self.dynamic_tunnels@),
    {
        let mut local_count: u32 = 0;
        let n = self.local_tunnels.len();
        let mut i: usize = 0;
        proof {
            assert(self.local_tunnels@.take(0) =~= Seq::<Option<LocalTunnel>>::empty());
        }
        while i < n
            invariant
                self.wf(),
                n == self.local_tunnels@.len(),
                i <= n,
                local_count == spec_active_locals(self.local_tunnels@.take(i as int)),
                local_count <= i,
            decreases n - i,
        {
            let is_active = match &self.local_tunnels[i] {
                Some(t) => t.active,
                None => false,
            };
            if is_active {
                local_count = local_count + 1;
            }
            proof {
                lemma_active_locals_take(self.local_tunnels@, i as int);
            }
            i = i + 1;
        }
        let mut remote_count: u32 = 0;
        let mut p: usize = 0;
        proof {
            assert(self.local_tunnels@.take(n as int) =~= self.local_tunnels@);
            assert(self.remote_tunnels@.take(0) =~= Seq::<Option<RemoteTunnel>>::empty());
        }
        while p < n
            invariant
                self.wf(),
                n == self.remote_tunnels@.len(),
                p <= n,
                remote_count == spec_active_remotes(self.remote_tunnels@.take(p as int)),
                remote_count <= p,
            decreases n - p,
        {
            let is_active = match &self.remote_tunnels[p] {
                Some(t) => t.active,
                None => false,
            };
            if is_active {
                remote_count = remote_count + 1;
            }
            proof {
                lemma_active_remotes_take(self.remote_tunnels@, p as int);
            }
            p = p + 1;
        }
        let mut dynamic_count: u32 = 0;
        let mut q: usize = 0;
        proof {
            assert(self.remote_tunnels@.take(n as int) =~= self.remote_tunnels@);
            assert(self.dynamic_tunnels@.take(0)
                =~= Seq::<Option<DynamicTunnel>>::empty());
        }
        while q < n
            invariant
                self.wf(),
                n == self.dynamic_tunnels@.len(),
                q <= n,
                dynamic_count == spec_active_dynamics(self.dynamic_tunnels@.take(q as int)),
                dynamic_count <= q,
            decreases n - q,
        {
            let is_active = match &self.dynamic_tunnels[q] {
                Some(t) => t.active,
                None => false,
            };
            if is_active {
                dynamic_count = dynamic_count + 1;
            }
            proof {
                lemma_active_dynamics_take(self.dynamic_tunnels@, q as int);
            }
            q = q + 1;
        }
        proof {
            assert(self.dynamic_tunnels@.take(n as int) =~= self.dynamic_tunnels@);
        }
        TunnelingReport {
            oauth_token_exchange: self.oauth_token_exchange,
            local_forward_l: self.local_forward_l,
            remote_forward_r: self.remote_forward_r,
            dynamic_socks_d: self.dynamic_socks_d,
            local_tunnel_count: local_count,
            remote_tunnel_count: remote_count,
            dynamic_tunnel_count: dynamic_count,
            total_bytes_forwarded: self.bytes_forwarded_total,
            secure_tunneling: self.oauth_token_exchange,
        }
    }

    /// One maintenance pass; no transport is wired in, so nothing is touched.
    pub fn maintenance_cycle(&mut self) -> (r: Result<MaintenanceSummary, SSHError>)
        ensures
            r matches Ok(m) ==> m.tokens_refreshed == 0 && m.tunnels_checked == 0
                && m.tunnels_closed == 0 && m.sessions_reconnected == 0
                && m.bytes_forwarded_since_last == 0,
            r is Ok,
            *final(self) == *old(self),
    {
        Ok(MaintenanceSummary {
            tokens_refreshed: 0,
            tunnels_checked: 0,
            tunnels_closed: 0,
            sessions_reconnected: 0,
            bytes_forwarded_since_last: 0,
        })
    }
}

/// The active count of a prefix grows by one exactly at a present, active
/// tunnel.
proof fn lemma_active_locals_take(s: Seq<Option<LocalTunnel>>, i: int)
    requires
        0 <= i < s.len(),
    ensures
        spec_active_locals(s.take(i + 1)) == spec_active_locals(s.take(i))
            + (if (s[i] matches Some(t) && t.active) { 1int } else { 0int }),
    decreases i,
{
    if i == 0 {
        assert(s.take(1) =~= seq![s[0]]);
        assert(s.take(0) =~= Seq::<Option<LocalTunnel>>::empty());
        assert(s.take(1).drop_first() =~= Seq::<Option<LocalTunnel>>::empty());
        assert(spec_active_locals(Seq::<Option<LocalTunnel>>::empty()) == 0);
    } else {
        assert(s.take(i + 1)[0] == s[0]);
        assert(s.take(i)[0] == s[0]);
        assert(s.take(i + 1).drop_first() =~= s.drop_first().take(i));
        assert(s.take(i).drop_first() =~= s.drop_first().take(i - 1));
        assert(s.drop_first()[i - 1] == s[i]);
        lemma_active_locals_take(s.drop_first(), i - 1);
    }
}

/// The active count of a prefix grows by one exactly at a present, active
/// tunnel.
proof fn lemma_active_remotes_take(s: Seq<Option<RemoteTunnel>>, i: int)
    requires
        0 <= i < s.len(),
    ensures
        spec_active_remotes(s.take(i + 1)) == spec_active_remotes(s.take(i))
            + (if (s[i] matches Some(t) && t.active) { 1int } else { 0int }),
    decreases i,
{
    if i == 0 {
        assert(s.take(1) =~= seq![s[0]]);
        assert(s.take(0) =~= Seq::<Option<RemoteTunnel>>::empty());
        assert(s.take(1).drop_first() =~= Seq::<Option<RemoteTunnel>>::empty());
        assert(spec_active_remotes(Seq::<Option<RemoteTunnel>>::empty()) == 0);
    } else {
        assert(s.take(i + 1)[0] == s[0]);
        assert(s.take(i)[0] == s[0]);
        assert(s.take(i + 1).drop_first() =~= s.drop_first().take(i));
        assert(s.take(i).drop_first() =~= s.drop_first().take(i - 1));
        assert(s.drop_first()[i - 1] == s[i]);
        lemma_active_remotes_take(s.drop_first(), i - 1);
    }
}

/// The active count of a prefix grows by one exactly at a present, active
/// tunnel.
proof fn lemma_active_dynamics_take(s: Seq<Option<DynamicTunnel>>, i: int)
    requires
        0 <= i < s.len(),
    ensures
        spec_active_dynamics(s.take(i + 1)) == spec_active_dynamics(s.take(i))
            + (if (s[i] matches Some(t) && t.active) { 1int } else { 0int }),
    decreases i,
{
    if i == 0 {
        assert(s.take(1) =~= seq![s[0]]);
        assert(s.take(0) =~= Seq::<Option<DynamicTunnel>>::empty());
        assert(s.take(1).drop_first() =~= Seq::<Option<DynamicTunnel>>::empty());
        assert(spec_active_dynamics(Seq::<Option<DynamicTunnel>>::empty()) == 0);
    } else {
        assert(s.take(i + 1)[0] == s[0]);
        assert(s.take(i)[0] == s[0]);
        assert(s.take(i + 1).drop_first() =~= s.drop_first().take(i));
        assert(s.take(i).drop_first() =~= s.drop_first().take(i - 1));
        assert(s.drop_first()[i - 1] == s[i]);
        lemma_active_dynamics_take(s.drop_first(), i - 1);
    }
}

/// The commands the tunneling system accepts.
pub enum SSHOAuthCommand {
    RegisterToken {
        provider: OAuthProvider,
        token_data: Vec<u8>,
        refresh_token: Option<Vec<u8>>,
        scopes: Vec<OAuthScope>,
    },
    CreateLocalTunnel {
        local_port: u16,
        remote_host: String,
        remote_port: u16,
        ssh_host: String,
        ssh_port: u16,
        provider: OAuthProvider,
    },
    GetValidationReport,
}

} // verus!
